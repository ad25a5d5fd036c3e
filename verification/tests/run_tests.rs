use lib::frontend::Frontend;
use lib::io::{Event, Op, Request};
use lib::path::FsPath;
use lib::run::Run;

fn s(b: &[u8]) -> String {
    String::from_utf8(b.to_vec()).unwrap()
}

fn op_text(op: &Op) -> String {
    match op {
        Op::ReadText(p) => format!("read-text {}", s(p.as_bytes())),
        Op::WriteText(p, t) => format!("write-text {} {}", s(p.as_bytes()), t),
        Op::WriteStamp(p, t) => format!("write-stamp {} {}", s(p.as_bytes()), t),
        Op::Exists(p) => format!("exists {}", s(p.as_bytes())),
        Op::ListDir(p) => format!("list {}", s(p.as_bytes())),
        Op::ReadBytes(p) => format!("read-bytes {}", s(p.as_bytes())),
        Op::EnvSet(v) => format!("env {}", v),
        Op::OutDir => "out-dir".to_string(),
        Op::Modified(p) => format!("modified {}", s(p.as_bytes())),
        Op::Npm(d, args) => format!(
            "npm {} in {}",
            args.join(" "),
            d.as_ref().map(|p| s(p.as_bytes())).unwrap_or_else(|| "cwd".to_string())
        ),
        Op::Finish => "finish".to_string(),
    }
}

fn lines(r: &Request) -> Vec<String> {
    r.lines.iter().map(|l| s(l)).collect()
}

fn step(run: &mut Run, ev: Event) -> (Vec<String>, String) {
    let r = run.step(ev);
    (lines(&r), op_text(&r.op))
}

fn web() -> Frontend {
    Frontend::new(FsPath::from_text("web"), "build".to_string())
}

/// Answers the config checks with `present` for the first two files only.
fn through_configs(run: &mut Run) {
    let (l, op) = step(run, Event::Start);
    assert_eq!(l, vec!["cargo:rustc-env=SVELTE_BUILD_DIR=build"]);
    assert_eq!(op, "exists web/svelte.config.js");
    let (l, op) = step(run, Event::Flag(true));
    assert_eq!(l, vec!["cargo:rerun-if-changed=web/svelte.config.js"]);
    assert_eq!(op, "exists web/vite.config.js");
    let (l, op) = step(run, Event::Flag(false));
    assert!(l.is_empty());
    assert_eq!(op, "exists web/vite.config.ts");
    let (_, op) = step(run, Event::Flag(false));
    assert_eq!(op, "exists web/package.json");
    let (l, op) = step(run, Event::Flag(true));
    assert_eq!(l, vec!["cargo:rerun-if-changed=web/package.json"]);
    assert_eq!(op, "exists web/package-lock.json");
    let (_, op) = step(run, Event::Flag(false));
    assert_eq!(op, "exists web/tsconfig.json");
    let (l, op) = step(run, Event::Flag(false));
    assert!(l.is_empty());
    assert_eq!(op, "list web/src");
}

fn listing(entries: &[(&str, bool)]) -> Event {
    Event::Listing(Some(entries.iter().map(|(n, d)| (n.as_bytes().to_vec(), *d)).collect()))
}

#[test]
fn skip_variable_ends_the_run_before_npm() {
    let mut run = web().run();
    through_configs(&mut run);
    let (_, op) = step(&mut run, Event::Listing(None));
    assert_eq!(op, "exists web/static");
    let (l, op) = step(&mut run, Event::Flag(true));
    assert_eq!(
        l,
        vec!["cargo:rerun-if-changed=web/static", "cargo:rerun-if-env-changed=SKIP_FRONTEND_BUILD"]
    );
    assert_eq!(op, "env SKIP_FRONTEND_BUILD");
    let (l, op) = step(&mut run, Event::Flag(true));
    assert_eq!(l, vec!["cargo:warning=SKIP_FRONTEND_BUILD set — skipping npm/svelte build"]);
    assert_eq!(op, "finish");
    assert!(run.finished());
    let (l, op) = step(&mut run, Event::Done);
    assert!(l.is_empty());
    assert_eq!(op, "finish");
}

#[test]
fn custom_skip_variable_is_watched_and_checked() {
    let mut run = web().skip_env("NO_NODE".to_string()).run();
    through_configs(&mut run);
    step(&mut run, Event::Listing(None));
    let (l, op) = step(&mut run, Event::Flag(false));
    assert_eq!(l, vec!["cargo:rerun-if-env-changed=NO_NODE"]);
    assert_eq!(op, "env NO_NODE");
}

/// Runs a whole build with an OpenAPI spec; returns the two stamps written.
fn full_build(previous: Option<String>, install_stamp: Option<String>) -> (String, String) {
    let fe = web().openapi("{\"openapi\":\"3.1.0\"}".to_string(), FsPath::from_text("openapi.json"), FsPath::from_text("src/lib/api/gen"));
    let mut run = fe.run();
    let (l, op) = step(&mut run, Event::Start);
    assert_eq!(l, vec!["cargo:rustc-env=SVELTE_BUILD_DIR=build"]);
    assert_eq!(op, "read-text web/openapi.json");
    let (_, op) = step(&mut run, Event::Text(Some("{}".to_string())));
    assert_eq!(op, "write-text web/openapi.json {\"openapi\":\"3.1.0\"}");
    let (_, op) = step(&mut run, Event::Done);
    assert_eq!(op, "exists web/svelte.config.js");
    for _ in 0..5 {
        step(&mut run, Event::Flag(false));
    }
    let (_, op) = step(&mut run, Event::Flag(false));
    assert_eq!(op, "list web/src");
    let (l, op) = step(&mut run, listing(&[("app.svelte", false), ("server.rs", false)]));
    assert_eq!(l, vec!["cargo:rerun-if-changed=web/src/app.svelte"]);
    assert_eq!(op, "exists web/static");
    let (l, op) = step(&mut run, Event::Flag(false));
    assert_eq!(l, vec!["cargo:rerun-if-env-changed=SKIP_FRONTEND_BUILD"]);
    assert_eq!(op, "env SKIP_FRONTEND_BUILD");
    let (l, op) = step(&mut run, Event::Flag(false));
    assert!(l.is_empty());
    assert_eq!(op, "out-dir");
    let (_, op) = step(&mut run, Event::Path(FsPath::from_text("/tmp/out")));
    assert_eq!(op, "list web/src");
    let (_, op) = step(&mut run, listing(&[("lib", true), ("app.svelte", false), ("main.rs", false)]));
    assert_eq!(op, "read-bytes web/src/app.svelte");
    let (_, op) = step(&mut run, Event::Bytes(Some(b"<h1>hi</h1>".to_vec())));
    assert_eq!(op, "list web/src/lib");
    let (_, op) = step(&mut run, listing(&[("api", true)]));
    assert_eq!(op, "list web/src/lib/api");
    let (_, op) = step(&mut run, listing(&[("gen", true), ("client.ts", false)]));
    assert_eq!(op, "read-bytes web/src/lib/api/client.ts");
    let (_, op) = step(&mut run, Event::Bytes(None));
    assert_eq!(op, "read-bytes web/svelte.config.js");
    let (_, op) = step(&mut run, Event::Bytes(Some(b"export default {}".to_vec())));
    assert_eq!(op, "read-bytes web/vite.config.js");
    for _ in 0..4 {
        step(&mut run, Event::Bytes(None));
    }
    let (_, op) = step(&mut run, Event::Bytes(None));
    assert_eq!(op, "read-text /tmp/out/svelte-rust.stamp");
    let (_, op) = step(&mut run, Event::Text(previous));
    assert_eq!(op, "exists web/build/index.html");
    let (l, op) = step(&mut run, Event::Flag(true));
    if op == "finish" {
        assert_eq!(l, vec!["frontend unchanged — skipping npm build"]);
        return (String::new(), String::new());
    }
    assert_eq!(op, "read-bytes web/package.json");
    let (_, op) = step(&mut run, Event::Bytes(Some(b"{\"name\":\"web\"}".to_vec())));
    assert_eq!(op, "read-bytes web/package-lock.json");
    let (_, op) = step(&mut run, Event::Bytes(None));
    assert_eq!(op, "read-text /tmp/out/svelte-rust-install.stamp");
    let (_, op) = step(&mut run, Event::Text(install_stamp));
    assert_eq!(op, "exists web/node_modules");
    let (_, mut op) = step(&mut run, Event::Flag(true));
    let mut install = String::new();
    if op == "npm install in web" {
        let (_, o) = step(&mut run, Event::Done);
        assert!(o.starts_with("write-stamp /tmp/out/svelte-rust-install.stamp "));
        install = o["write-stamp /tmp/out/svelte-rust-install.stamp ".len()..].to_string();
        let (_, o) = step(&mut run, Event::Done);
        op = o;
    }
    assert_eq!(op, "npm exec -- openapi-ts in web");
    let (_, op) = step(&mut run, Event::Done);
    assert_eq!(op, "npm run build in web");
    let (_, op) = step(&mut run, Event::Done);
    assert!(op.starts_with("write-stamp /tmp/out/svelte-rust.stamp "));
    let stamp = op["write-stamp /tmp/out/svelte-rust.stamp ".len()..].to_string();
    let (_, op) = step(&mut run, Event::Done);
    assert_eq!(op, "finish");
    assert!(run.finished());
    (stamp, install)
}

fn is_hex(t: &str) -> bool {
    !t.is_empty() && t.len() <= 16 && t.chars().all(|c| c.is_ascii_digit() || ('a'..='f').contains(&c))
        && (t == "0" || !t.starts_with('0'))
}

#[test]
fn changed_inputs_install_generate_build_and_stamp() {
    let (stamp, install) = full_build(None, None);
    assert!(is_hex(&stamp));
    assert!(is_hex(&install));
}

#[test]
fn unchanged_inputs_skip_npm() {
    let (stamp, _) = full_build(None, None);
    let (again, _) = full_build(Some(stamp), None);
    assert_eq!(again, "");
}

#[test]
fn matching_install_stamp_skips_install() {
    let (_, install) = full_build(None, None);
    let (stamp, second) = full_build(Some("stale".to_string()), Some(install));
    assert!(is_hex(&stamp));
    assert_eq!(second, "");
}

#[test]
fn unchanged_spec_is_not_rewritten() {
    let fe = web().openapi("spec".to_string(), FsPath::from_text("openapi.json"), FsPath::from_text("gen"));
    let mut run = fe.run();
    step(&mut run, Event::Start);
    let (_, op) = step(&mut run, Event::Text(Some("spec".to_string())));
    assert_eq!(op, "exists web/svelte.config.js");
}

#[test]
fn unreadable_spec_file_counts_as_empty() {
    let fe = web().openapi("".to_string(), FsPath::from_text("openapi.json"), FsPath::from_text("gen"));
    let mut run = fe.run();
    step(&mut run, Event::Start);
    let (_, op) = step(&mut run, Event::Text(None));
    assert_eq!(op, "exists web/svelte.config.js");
}

#[test]
fn missing_bundle_builds_even_when_unchanged() {
    let mut run = web().run();
    through_configs(&mut run);
    step(&mut run, Event::Listing(None));
    step(&mut run, Event::Flag(false));
    step(&mut run, Event::Flag(false));
    let (_, op) = step(&mut run, Event::Path(FsPath::from_text("out")));
    assert_eq!(op, "list web/src");
    step(&mut run, Event::Listing(None));
    for _ in 0..6 {
        step(&mut run, Event::Bytes(None));
    }
    // First pass: learn the digest of nothing at all.
    let mut first = web().run();
    through_configs(&mut first);
    step(&mut first, Event::Listing(None));
    step(&mut first, Event::Flag(false));
    step(&mut first, Event::Flag(false));
    step(&mut first, Event::Path(FsPath::from_text("out")));
    step(&mut first, Event::Listing(None));
    for _ in 0..6 {
        step(&mut first, Event::Bytes(None));
    }
    step(&mut first, Event::Text(None));
    step(&mut first, Event::Flag(false));
    step(&mut first, Event::Bytes(None));
    step(&mut first, Event::Bytes(None));
    step(&mut first, Event::Text(None));
    let (_, op) = step(&mut first, Event::Flag(false));
    assert_eq!(op, "npm install in web");
    step(&mut first, Event::Done);
    let (_, op) = step(&mut first, Event::Done);
    assert_eq!(op, "npm run build in web");
    let (_, op) = step(&mut first, Event::Done);
    let stamp = op["write-stamp out/svelte-rust.stamp ".len()..].to_string();
    let (_, op) = step(&mut run, Event::Text(Some(stamp)));
    assert_eq!(op, "exists web/build/index.html");
    let (l, op) = step(&mut run, Event::Flag(false));
    assert!(l.is_empty());
    assert_eq!(op, "read-bytes web/package.json");
}

#[test]
fn watch_walks_the_tree_depth_first_in_listing_order() {
    let mut run = web().run();
    through_configs(&mut run);
    let (l, op) = step(
        &mut run,
        listing(&[("b.ts", false), ("routes", true), ("a.svelte", false), ("api.rs", false)]),
    );
    assert_eq!(l, vec!["cargo:rerun-if-changed=web/src/b.ts"]);
    assert_eq!(op, "list web/src/routes");
    let (l, op) = step(&mut run, listing(&[("+page.svelte", false), ("+server.rs", false)]));
    assert_eq!(
        l,
        vec!["cargo:rerun-if-changed=web/src/routes/+page.svelte", "cargo:rerun-if-changed=web/src/a.svelte"]
    );
    assert_eq!(op, "exists web/static");
}

#[test]
fn change_hash_leads_with_the_spec() {
    assert!(lib::run::gate_lead(&web()).is_empty());
    let fe = web().openapi("the spec".to_string(), FsPath::from_text("openapi.json"), FsPath::from_text("gen"));
    assert_eq!(lib::run::gate_lead(&fe), vec!["the spec".to_string()]);
}

#[test]
fn changed_spec_changes_the_stamp() {
    let digest = |spec: &str| {
        let fe = web().openapi(spec.to_string(), FsPath::from_text("openapi.json"), FsPath::from_text("gen"));
        let mut run = fe.run();
        step(&mut run, Event::Start);
        step(&mut run, Event::Text(Some(spec.to_string())));
        for _ in 0..6 {
            step(&mut run, Event::Flag(false));
        }
        step(&mut run, Event::Listing(None));
        step(&mut run, Event::Flag(false));
        step(&mut run, Event::Flag(false));
        step(&mut run, Event::Path(FsPath::from_text("out")));
        step(&mut run, Event::Listing(None));
        for _ in 0..6 {
            step(&mut run, Event::Bytes(None));
        }
        step(&mut run, Event::Text(None));
        step(&mut run, Event::Flag(true));
        step(&mut run, Event::Bytes(None));
        step(&mut run, Event::Bytes(None));
        step(&mut run, Event::Text(None));
        step(&mut run, Event::Flag(true));
        step(&mut run, Event::Done);
        step(&mut run, Event::Done);
        step(&mut run, Event::Done);
        let (_, op) = step(&mut run, Event::Done);
        op
    };
    let a = digest("spec one");
    let b = digest("spec two");
    assert!(a.starts_with("write-stamp out/svelte-rust.stamp "));
    assert_eq!(a, digest("spec one"));
    assert_ne!(a, b);
}

#[test]
fn lower_hex_writes_like_format() {
    for n in [0u64, 9, 10, 15, 16, 255, 0xdead_beef, u64::MAX] {
        assert_eq!(lib::digest::lower_hex(n), format!("{:x}", n));
    }
}
