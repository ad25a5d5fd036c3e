use lib::cwd::{frontend, needs_install, CwdRun};
use lib::io::{Event, Op};

fn s(b: &[u8]) -> String {
    String::from_utf8(b.to_vec()).unwrap()
}

fn step(run: &mut CwdRun, ev: Event) -> (Vec<String>, String) {
    let r = run.step(ev);
    let lines = r.lines.iter().map(|l| s(l)).collect();
    let op = match &r.op {
        Op::Exists(p) => format!("exists {}", s(p.as_bytes())),
        Op::ListDir(p) => format!("list {}", s(p.as_bytes())),
        Op::Modified(p) => format!("modified {}", s(p.as_bytes())),
        Op::Npm(None, args) => format!("npm {}", args.join(" ")),
        Op::Finish => "finish".to_string(),
        _ => "other".to_string(),
    };
    (lines, op)
}

#[test]
fn install_is_needed_without_node_modules_or_its_time() {
    assert!(needs_install(false, Some(5), &vec![Some(1), Some(1)]));
    assert!(needs_install(true, None, &vec![Some(1), Some(1)]));
}

#[test]
fn install_is_needed_when_a_manifest_is_newer() {
    assert!(needs_install(true, Some(10), &vec![Some(3), Some(11)]));
    assert!(!needs_install(true, Some(10), &vec![Some(10), Some(9)]));
    assert!(!needs_install(true, Some(10), &vec![None, None]));
    assert!(!needs_install(true, Some(-4), &vec![Some(-5), None]));
}

fn through_static(run: &mut CwdRun) {
    let (l, op) = step(run, Event::Start);
    assert_eq!(l, vec!["cargo:rustc-env=SVELTE_BUILD_DIR=build"]);
    assert_eq!(op, "exists svelte.config.js");
    let (l, op) = step(run, Event::Flag(true));
    assert_eq!(l, vec!["cargo:rerun-if-changed=svelte.config.js"]);
    assert_eq!(op, "exists vite.config.js");
    for _ in 0..4 {
        step(run, Event::Flag(false));
    }
    let (_, op) = step(run, Event::Flag(false));
    assert_eq!(op, "list src");
    let (l, op) = step(run, Event::Listing(Some(vec![(b"app.css".to_vec(), false)])));
    assert_eq!(l, vec!["cargo:rerun-if-changed=src/app.css"]);
    assert_eq!(op, "exists static");
    let (l, op) = step(run, Event::Flag(true));
    assert_eq!(l, vec!["cargo:rerun-if-changed=static"]);
    assert_eq!(op, "exists ./node_modules");
}

#[test]
fn missing_node_modules_installs_then_builds() {
    let mut run = frontend("build".to_string());
    through_static(&mut run);
    let (_, op) = step(&mut run, Event::Flag(false));
    assert_eq!(op, "modified ./node_modules");
    let (_, op) = step(&mut run, Event::Time(None));
    assert_eq!(op, "modified ./package.json");
    let (_, op) = step(&mut run, Event::Time(Some(1)));
    assert_eq!(op, "modified ./package-lock.json");
    let (_, op) = step(&mut run, Event::Time(Some(1)));
    assert_eq!(op, "npm install");
    let (_, op) = step(&mut run, Event::Done);
    assert_eq!(op, "npm run build");
    let (_, op) = step(&mut run, Event::Done);
    assert_eq!(op, "finish");
    assert!(run.finished());
}

#[test]
fn up_to_date_dependencies_only_build() {
    let mut run = frontend("build".to_string());
    through_static(&mut run);
    step(&mut run, Event::Flag(true));
    step(&mut run, Event::Time(Some(100)));
    step(&mut run, Event::Time(Some(50)));
    let (_, op) = step(&mut run, Event::Time(Some(100)));
    assert_eq!(op, "npm run build");
    let (_, op) = step(&mut run, Event::Done);
    assert_eq!(op, "finish");
}
