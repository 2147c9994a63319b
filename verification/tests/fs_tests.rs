use cyberdev_sandbox::errors::SandboxError;
use cyberdev_sandbox::fs::{
    absorb_delete_result, decode_entry_name, order_listing, FileEntry, IoFailure, SandboxConfig,
    SandboxFs,
};

fn sandbox(max: u64) -> SandboxFs {
    SandboxFs::new(SandboxConfig::new("/work", max).unwrap())
}

#[test]
fn write_and_read_roundtrip() {
    let fs = sandbox(512 * 1024);
    let target = fs.write("example.txt", b"hello world").unwrap();
    let read_target = fs.read("example.txt").unwrap();
    assert_eq!(target, read_target);
    assert_eq!(target, "/work/example.txt");
    assert!(fs.check_file_size(b"hello world".len() as u64).is_ok());
}

#[test]
fn prevent_path_traversal() {
    let fs = sandbox(512 * 1024);
    let err = fs.write("../evil.txt", b"bad").unwrap_err();
    assert!(err.message().contains("path traversal"));
}

#[test]
fn enforce_file_size_limit() {
    let fs = sandbox(4);
    let err = fs.write("large.txt", b"12345").unwrap_err();
    assert!(err.message().contains("file too large"));
}

#[test]
fn rejects_oversized_payloads() {
    let fs = sandbox(16);
    match fs.write("big.bin", &vec![0_u8; 32]) {
        Err(SandboxError::FileTooLarge(size)) => assert!(size > 16),
        other => panic!("expected size error, got {:?}", other),
    }
}

#[test]
fn writes_and_lists_files() {
    let fs = sandbox(512 * 1024);
    assert_eq!(fs.write("src/main.rs", b"fn main() {}\n").unwrap(), "/work/src/main.rs");
    assert_eq!(fs.write("README.md", b"CyberDevStudio").unwrap(), "/work/README.md");
    assert_eq!(fs.list(".").unwrap(), "/work");
    let mut entries = vec![
        FileEntry { name: "src".to_string(), is_dir: true, size: 0 },
        FileEntry { name: "README.md".to_string(), is_dir: false, size: 14 },
    ];
    entries = order_listing(entries);
    assert_eq!(entries.len(), 2);
    assert_eq!(entries[0].name, "README.md");
    assert_eq!(entries[1].name, "src");
}

#[test]
fn read_rejects_oversized_file() {
    let fs = sandbox(100);
    assert_eq!(fs.check_file_size(101), Err(SandboxError::FileTooLarge(101)));
    assert!(fs.check_file_size(100).is_ok());
}

#[test]
fn delete_is_idempotent() {
    let fs = sandbox(1024);
    let t1 = fs.delete("tmp/file.bin").unwrap();
    let t2 = fs.delete("tmp/file.bin").unwrap();
    assert_eq!(t1, t2);
    assert!(absorb_delete_result(Ok(())).is_ok());
    assert!(absorb_delete_result(Err(IoFailure::NotFound)).is_ok());
    assert!(matches!(
        absorb_delete_result(Err(IoFailure::Other("disk on fire".to_string()))),
        Err(SandboxError::Io(_))
    ));
}

#[test]
fn listing_is_sorted_and_stable() {
    let entries = vec![
        FileEntry { name: "zeta".to_string(), is_dir: false, size: 3 },
        FileEntry { name: "alpha".to_string(), is_dir: true, size: 0 },
        FileEntry { name: "midway".to_string(), is_dir: false, size: 9 },
    ];
    let once = order_listing(entries.clone());
    let names: Vec<&str> = once.iter().map(|e| e.name.as_str()).collect();
    assert_eq!(names, vec!["alpha", "midway", "zeta"]);
    let again = order_listing(once.clone());
    assert_eq!(once, again);
}

#[test]
fn copy_rejects_directories_and_resolves_both_ends() {
    let fs = sandbox(1024);
    let (s, d) = fs.copy_file("a.txt", "b/c.txt").unwrap();
    assert_eq!(s, "/work/a.txt");
    assert_eq!(d, "/work/b/c.txt");
    assert!(fs.copy_file("../a", "b").is_err());
    assert!(fs.copy_file("a", "/b").is_err());
    assert!(fs.confirm_copy_source(false).is_ok());
    assert!(matches!(
        fs.confirm_copy_source(true),
        Err(SandboxError::InvalidOperation(_))
    ));
}

#[test]
fn mkdir_and_rename_resolve_under_root() {
    let fs = sandbox(1024);
    assert_eq!(fs.mkdir("deep/tree").unwrap(), "/work/deep/tree");
    let (s, d) = fs.rename("old.txt", "new/name.txt").unwrap();
    assert_eq!(s, "/work/old.txt");
    assert_eq!(d, "/work/new/name.txt");
    assert_eq!(fs.rename("x", "../y"), Err(SandboxError::PathTraversal));
}

#[test]
fn entry_names_must_be_utf8() {
    assert_eq!(decode_entry_name(b"notes.txt".to_vec()).unwrap(), "notes.txt");
    assert!(matches!(
        decode_entry_name(vec![0xff, 0xfe]),
        Err(SandboxError::InvalidOperation(_))
    ));
}

#[test]
fn config_requires_absolute_root() {
    assert!(SandboxConfig::new("relative", 10).is_err());
    let cfg = SandboxConfig::new("/work", 10).unwrap();
    assert_eq!(cfg.root(), "/work");
    assert_eq!(cfg.max_file_size(), 10);
}
