use lib::cli::{command, npm_build, Command};

#[test]
fn build_is_the_only_command() {
    assert!(command(Some("build")) == Command::Build);
    assert!(command(Some("Build")) == Command::Usage);
    assert!(command(Some("build ")) == Command::Usage);
    assert!(command(Some("")) == Command::Usage);
    assert!(command(None) == Command::Usage);
}

#[test]
fn npm_build_installs_then_builds() {
    assert_eq!(npm_build(), vec![vec!["install".to_string()], vec!["run".to_string(), "build".to_string()]]);
}
