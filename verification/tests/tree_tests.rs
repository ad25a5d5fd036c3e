use lib::path::FsPath;
use lib::tree::{excluded, frontend_source, hash_tree_dir, watch_frontend_dir, Visit};

fn entry(name: &str, is_dir: bool) -> (Vec<u8>, bool) {
    (name.as_bytes().to_vec(), is_dir)
}

fn shown(v: &[Visit]) -> Vec<(String, bool)> {
    v.iter()
        .map(|x| (String::from_utf8(x.path.as_bytes().to_vec()).unwrap(), x.descend))
        .collect()
}

#[test]
fn watch_keeps_listing_order_and_picks_frontend_sources() {
    let dir = FsPath::from_text("web/src");
    let entries = vec![
        entry("main.rs", false),
        entry("app.svelte", false),
        entry("routes", true),
        entry("style.css", false),
        entry("README.md", false),
        entry("hooks.server.ts", false),
        entry("lib.mjs", false),
        entry("page.html", false),
        entry("util.js", false),
    ];
    let plan = watch_frontend_dir(&dir, &entries);
    assert_eq!(
        shown(&plan),
        vec![
            ("web/src/app.svelte".to_string(), false),
            ("web/src/routes".to_string(), true),
            ("web/src/style.css".to_string(), false),
            ("web/src/hooks.server.ts".to_string(), false),
            ("web/src/lib.mjs".to_string(), false),
            ("web/src/page.html".to_string(), false),
            ("web/src/util.js".to_string(), false),
        ]
    );
}

#[test]
fn directories_are_descended_whatever_their_name() {
    let dir = FsPath::from_text("src");
    let plan = watch_frontend_dir(&dir, &vec![entry("server.rs", true), entry(".svelte", false)]);
    assert_eq!(shown(&plan), vec![("src/server.rs".to_string(), true)]);
}

#[test]
fn hash_sorts_by_name() {
    let dir = FsPath::from_text("web/src");
    let entries = vec![
        entry("zeta.ts", false),
        entry("Alpha.svelte", false),
        entry("beta", true),
        entry("alpha.ts", false),
        entry("x.rs", false),
    ];
    let plan = hash_tree_dir(&dir, entries, &Vec::new());
    assert_eq!(
        shown(&plan),
        vec![
            ("web/src/Alpha.svelte".to_string(), false),
            ("web/src/alpha.ts".to_string(), false),
            ("web/src/beta".to_string(), true),
            ("web/src/zeta.ts".to_string(), false),
        ]
    );
}

#[test]
fn hash_passes_over_excluded_paths() {
    let dir = FsPath::from_text("web/src/lib/api");
    let entries = vec![entry("gen", true), entry("client.ts", false), entry("generated.ts", false)];
    let exclude = vec![FsPath::from_text("web/./src/lib/api/gen")];
    let plan = hash_tree_dir(&dir, entries, &exclude);
    assert_eq!(
        shown(&plan),
        vec![
            ("web/src/lib/api/client.ts".to_string(), false),
            ("web/src/lib/api/generated.ts".to_string(), false),
        ]
    );
}

#[test]
fn exclusion_covers_the_path_and_what_lies_under_it() {
    let ex = vec![FsPath::from_text("a/gen")];
    assert!(excluded(&FsPath::from_text("a/gen"), &ex));
    assert!(excluded(&FsPath::from_text("a/gen/x/y.ts"), &ex));
    assert!(!excluded(&FsPath::from_text("a/generated"), &ex));
    assert!(!excluded(&FsPath::from_text("a/gen"), &Vec::new()));
}

#[test]
fn rust_sources_are_never_frontend_sources() {
    assert!(!frontend_source(&FsPath::from_text("src/routes/api.rs")));
    assert!(frontend_source(&FsPath::from_text("src/routes/+page.svelte")));
    assert!(!frontend_source(&FsPath::from_text("src/routes/.ts")));
    assert!(!frontend_source(&FsPath::from_text("src/a.TS")));
}

#[test]
fn entry_paths_lie_under_their_directory() {
    for dir in ["web/src", "web/src/", "", "/abs", "."] {
        let d = FsPath::from_text(dir);
        let p = d.join_text("app.svelte");
        assert!(p.starts_with(&d));
        let mut want = d.components();
        want.push(b"app.svelte".to_vec());
        assert_eq!(p.components(), want);
    }
}

#[test]
fn hash_and_watch_take_the_same_visits() {
    let dir = FsPath::from_text("src");
    let entries = vec![
        entry("b.ts", false),
        entry("a", true),
        entry("c.rs", false),
        entry("0.css", false),
    ];
    let mut watched = shown(&watch_frontend_dir(&dir, &entries));
    let hashed = shown(&hash_tree_dir(&dir, entries, &Vec::new()));
    assert_ne!(watched, hashed);
    watched.sort();
    let mut hashed_sorted = hashed.clone();
    hashed_sorted.sort();
    assert_eq!(watched, hashed_sorted);
}

#[test]
fn listing_order_does_not_change_the_hash_plan() {
    let dir = FsPath::from_text("src");
    let one = vec![entry("b.ts", false), entry("a", true), entry("c.css", false)];
    let two = vec![entry("c.css", false), entry("b.ts", false), entry("a", true)];
    assert_eq!(
        shown(&hash_tree_dir(&dir, one, &Vec::new())),
        shown(&hash_tree_dir(&dir, two, &Vec::new()))
    );
}

#[test]
fn backend_files_and_excluded_entries_change_nothing() {
    let dir = FsPath::from_text("src/lib");
    let ex = vec![FsPath::from_text("src/lib/gen")];
    let plain = vec![entry("a.ts", false), entry("b.svelte", false)];
    let noisy = vec![entry("a.ts", false), entry("mod.rs", false), entry("gen", true), entry("b.svelte", false), entry("logo.png", false)];
    assert_eq!(
        shown(&hash_tree_dir(&dir, plain, &ex)),
        shown(&hash_tree_dir(&dir, noisy, &ex))
    );
}
