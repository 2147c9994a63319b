use cyberdev_sandbox::errors::SandboxError;
use cyberdev_sandbox::path::{ensure_absolute_base, resolve};

#[test]
fn resolves_simple_relative_path() {
    let r = resolve("/work", "project/message.txt").unwrap();
    assert_eq!(r, "/work/project/message.txt");
}

#[test]
fn drops_current_dir_segments_and_empty_runs() {
    assert_eq!(resolve("/work", "./a/./b").unwrap(), "/work/a/b");
    assert_eq!(resolve("/work", "a//b/").unwrap(), "/work/a/b");
    assert_eq!(resolve("/work", ".").unwrap(), "/work");
}

#[test]
fn rejects_empty_path() {
    assert!(matches!(
        resolve("/work", ""),
        Err(SandboxError::InvalidOperation(_))
    ));
}

#[test]
fn rejects_absolute_input() {
    assert_eq!(resolve("/work", "/etc/passwd"), Err(SandboxError::OutsideRoot));
}

#[test]
fn rejects_parent_segments_anywhere() {
    assert_eq!(resolve("/work", "../escape"), Err(SandboxError::PathTraversal));
    assert_eq!(resolve("/work", "a/../b"), Err(SandboxError::PathTraversal));
    assert_eq!(resolve("/work", "a/b/.."), Err(SandboxError::PathTraversal));
}

#[test]
fn resolved_path_keeps_root_prefix() {
    let r = resolve("/work", "a/b/c.txt").unwrap();
    assert!(r.starts_with("/work/"));
}

#[test]
fn base_must_be_absolute() {
    assert!(ensure_absolute_base("/work").is_ok());
    assert!(matches!(
        ensure_absolute_base("relative/dir"),
        Err(SandboxError::InvalidOperation(_))
    ));
    assert!(ensure_absolute_base("").is_err());
}
