use vstd::prelude::*;
use vstd::utf8::encode_utf8;
use vstd::string::StringSliceAdditionalSpecFns;
use crate::bytes::{copy_bytes, push_all};
use crate::path::FsPath;

verus! {

/// `cargo:rerun-if-changed=<path>`
pub open spec fn rerun_line(p: Seq<u8>) -> Seq<u8> {
    encode_utf8("cargo:rerun-if-changed="@) + p
}

/// `cargo:rustc-env=SVELTE_BUILD_DIR=<dir>`
pub open spec fn build_dir_line(dir: Seq<char>) -> Seq<u8> {
    encode_utf8("cargo:rustc-env=SVELTE_BUILD_DIR="@) + encode_utf8(dir)
}

/// `cargo:rerun-if-env-changed=<var>`
pub open spec fn env_changed_line(var: Seq<char>) -> Seq<u8> {
    encode_utf8("cargo:rerun-if-env-changed="@) + encode_utf8(var)
}

/// `cargo:warning=<var> set — skipping npm/svelte build`
pub open spec fn skip_warning_line(var: Seq<char>) -> Seq<u8> {
    encode_utf8("cargo:warning="@) + encode_utf8(var) + encode_utf8(
        " set — skipping npm/svelte build"@,
    )
}

/// The note printed when nothing moved.
pub open spec fn unchanged_line() -> Seq<u8> {
    encode_utf8("frontend unchanged — skipping npm build"@)
}

/// The line that makes cargo rerun the build script when `p` changes.
pub fn rerun_if_changed(p: &FsPath) -> (r: Vec<u8>)
    ensures
        r@ == rerun_line(p@),
{
    let mut out = copy_bytes("cargo:rerun-if-changed=".as_bytes());
    push_all(&mut out, p.as_bytes());
    out
}

/// The line that hands the build directory to the compiled crate.
pub fn build_dir_env(dir: &String) -> (r: Vec<u8>)
    ensures
        r@ == build_dir_line(dir@),
{
    let mut out = copy_bytes("cargo:rustc-env=SVELTE_BUILD_DIR=".as_bytes());
    push_all(&mut out, dir.as_str().as_bytes());
    out
}

/// The line that makes cargo rerun the build script when `var` changes.
pub fn rerun_if_env_changed(var: &String) -> (r: Vec<u8>)
    ensures
        r@ == env_changed_line(var@),
{
    let mut out = copy_bytes("cargo:rerun-if-env-changed=".as_bytes());
    push_all(&mut out, var.as_str().as_bytes());
    out
}

/// The warning printed when `var` asks to skip the npm steps.
pub fn skip_warning(var: &String) -> (r: Vec<u8>)
    ensures
        r@ == skip_warning_line(var@),
{
    let mut out = copy_bytes("cargo:warning=".as_bytes());
    push_all(&mut out, var.as_str().as_bytes());
    push_all(&mut out, " set — skipping npm/svelte build".as_bytes());
    out
}

/// The note printed when the frontend inputs did not change.
pub fn unchanged_note() -> (r: Vec<u8>)
    ensures
        r@ == unchanged_line(),
{
    copy_bytes("frontend unchanged — skipping npm build".as_bytes())
}

} // verus!
