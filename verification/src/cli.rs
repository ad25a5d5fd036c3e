use vstd::prelude::*;
use vstd::utf8::encode_utf8_decode_utf8;
use vstd::string::StringSliceAdditionalSpecFns;
use crate::bytes::{bytes_eq, texts_of};
use crate::steps::{build_args, install_args, npm_build_args, npm_install_args};

verus! {

/// What the command line asks for.
#[derive(PartialEq, Eq, Structural, Clone, Copy)]
pub enum Command {
    /// `build`: install the dependencies and build the frontend.
    Build,
    /// Anything else: print the usage and fail.
    Usage,
}

/// The command named by the first argument.
pub fn command(first: Option<&str>) -> (r: Command)
    ensures
        (r == Command::Build) <==> (first is Some && first->0@ == "build"@),
{
    match first {
        Some(a) => {
            let same = bytes_eq(a.as_bytes(), "build".as_bytes());
            proof {
                encode_utf8_decode_utf8(a@);
                encode_utf8_decode_utf8("build"@);
            }
            if same {
                Command::Build
            } else {
                Command::Usage
            }
        },
        None => Command::Usage,
    }
}

/// The npm invocations of `build`, in order: `npm install`, then
/// `npm run build`.
pub fn npm_build() -> (r: Vec<Vec<String>>)
    ensures
        r@.len() == 2,
        texts_of(r@[0]@) == install_args(),
        texts_of(r@[1]@) == build_args(),
{
    let mut r: Vec<Vec<String>> = Vec::new();
    r.push(npm_install_args());
    r.push(npm_build_args());
    r
}

} // verus!
