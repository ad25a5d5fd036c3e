use vstd::prelude::*;

verus! {

/// How many project config files there are.
pub const CONFIG_FILE_COUNT: usize = 6;

/// How many install manifests there are.
pub const INSTALL_MANIFEST_COUNT: usize = 2;

/// How many frontend source extensions there are.
pub const FRONTEND_EXT_COUNT: usize = 6;

/// Project config files that affect the frontend build, relative to the
/// project root. Each is watched only where it exists.
pub open spec fn config_files() -> Seq<Seq<char>> {
    seq![
        "svelte.config.js"@,
        "vite.config.js"@,
        "vite.config.ts"@,
        "package.json"@,
        "package-lock.json"@,
        "tsconfig.json"@,
    ]
}

/// Manifests whose change calls for a fresh `npm install`.
pub open spec fn install_manifests() -> Seq<Seq<char>> {
    seq!["package.json"@, "package-lock.json"@]
}

/// Extensions of frontend sources. Files with other extensions (`.rs` among
/// them) that sit in the same directories are neither watched nor hashed.
pub open spec fn frontend_exts() -> Seq<Seq<char>> {
    seq!["svelte"@, "ts"@, "js"@, "mjs"@, "css"@, "html"@]
}

/// The `i`th config file.
pub fn config_file(i: usize) -> (r: &'static str)
    requires
        i < CONFIG_FILE_COUNT,
    ensures
        r@ == config_files()[i as int],
{
    if i == 0 {
        "svelte.config.js"
    } else if i == 1 {
        "vite.config.js"
    } else if i == 2 {
        "vite.config.ts"
    } else if i == 3 {
        "package.json"
    } else if i == 4 {
        "package-lock.json"
    } else {
        "tsconfig.json"
    }
}

/// The `i`th install manifest.
pub fn install_manifest(i: usize) -> (r: &'static str)
    requires
        i < INSTALL_MANIFEST_COUNT,
    ensures
        r@ == install_manifests()[i as int],
{
    if i == 0 {
        "package.json"
    } else {
        "package-lock.json"
    }
}

/// The `i`th frontend source extension.
pub fn frontend_ext(i: usize) -> (r: &'static str)
    requires
        i < FRONTEND_EXT_COUNT,
    ensures
        r@ == frontend_exts()[i as int],
{
    if i == 0 {
        "svelte"
    } else if i == 1 {
        "ts"
    } else if i == 2 {
        "js"
    } else if i == 3 {
        "mjs"
    } else if i == 4 {
        "css"
    } else {
        "html"
    }
}

} // verus!
