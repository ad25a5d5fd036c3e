use lib::path::FsPath;

fn p(s: &str) -> FsPath {
    FsPath::from_text(s)
}

fn text(path: &FsPath) -> String {
    String::from_utf8(path.as_bytes().to_vec()).unwrap()
}

fn comps(s: &str) -> Vec<String> {
    p(s).components().into_iter().map(|c| String::from_utf8(c).unwrap()).collect()
}

#[test]
fn join_adds_one_separator() {
    assert_eq!(text(&p("web").join_text("src")), "web/src");
    assert_eq!(text(&p("web/").join_text("src")), "web/src");
    assert_eq!(text(&p("").join_text("src")), "src");
    assert_eq!(text(&p("/").join_text("src")), "/src");
}

#[test]
fn join_with_absolute_tail_replaces() {
    assert_eq!(text(&p("web").join_text("/tmp/out")), "/tmp/out");
    assert_eq!(text(&p("web").join(&p("/x"))), "/x");
}

#[test]
fn components_normalise_separators_and_dots() {
    assert_eq!(comps("a//b/./c/"), vec!["a", "b", "c"]);
    assert_eq!(comps("./x"), vec![".", "x"]);
    assert_eq!(comps("."), vec!["."]);
    assert_eq!(comps("/a/b"), vec!["/", "a", "b"]);
    assert_eq!(comps("../a"), vec!["..", "a"]);
    assert_eq!(comps("a/../b"), vec!["a", "..", "b"]);
    assert!(comps("").is_empty());
    assert_eq!(comps(".hidden/x"), vec![".hidden", "x"]);
}

#[test]
fn starts_with_compares_whole_components() {
    assert!(p("web/src/lib/api/gen/x.ts").starts_with(&p("web/./src/lib/api/gen")));
    assert!(p("web/src/lib/api/gen").starts_with(&p("web/src/lib/api/gen/")));
    assert!(!p("web/srcx/a.ts").starts_with(&p("web/src")));
    assert!(!p("web/src").starts_with(&p("web/src/lib")));
    assert!(p("anything").starts_with(&p("")));
    assert!(!p("/abs/a").starts_with(&p("abs")));
}

#[test]
fn extension_follows_the_last_dot_of_the_file_name() {
    let ext = |s: &str| p(s).extension().map(|e| String::from_utf8(e).unwrap());
    assert_eq!(ext("a/b.svelte"), Some("svelte".to_string()));
    assert_eq!(ext("a.tar.gz"), Some("gz".to_string()));
    assert_eq!(ext("a."), Some("".to_string()));
    assert_eq!(ext(".bashrc"), None);
    assert_eq!(ext("noext"), None);
    assert_eq!(ext("dir/file.ts/"), Some("ts".to_string()));
    assert_eq!(ext("x/.."), None);
    assert_eq!(ext("/"), None);
    assert_eq!(ext(""), None);
}
