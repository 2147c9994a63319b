use cyberdev_sandbox::access::{validate_role, Permission, Role};
use cyberdev_sandbox::project::{
    normalize_project_name, normalize_project_path, project_directory_relative,
    truncate_description,
};

#[test]
fn normalize_project_name_trims_and_limits_length() {
    assert_eq!(normalize_project_name("  demo  ").unwrap(), "demo");
    assert!(normalize_project_name("").is_err());
    let oversized = "a".repeat(129);
    assert!(normalize_project_name(&oversized).is_err());
}

#[test]
fn normalize_project_path_rejects_parent_traversal() {
    assert!(normalize_project_path("../secret").is_err());
    assert!(normalize_project_path("/absolute").is_err());
    let path = normalize_project_path("src/lib.rs").expect("valid path");
    assert_eq!(path, "src/lib.rs");
}

#[test]
fn normalize_project_path_drops_noise_segments() {
    assert_eq!(normalize_project_path("./src//main.rs").unwrap(), "src/main.rs");
    assert!(normalize_project_path(".").is_err());
    assert!(normalize_project_path("   ").is_err());
    let oversized = "a/".repeat(300);
    assert!(normalize_project_path(&oversized).is_err());
}

#[test]
fn descriptions_are_trimmed_and_capped() {
    assert_eq!(truncate_description("  short  "), "short");
    let long = "d".repeat(600);
    assert_eq!(truncate_description(&long).len(), 512);
}

#[test]
fn project_files_live_under_the_projects_directory() {
    assert_eq!(project_directory_relative("abc-123"), "projects/abc-123");
}

#[test]
fn roles_parse_and_gate_permissions() {
    assert_eq!(Role::parse("admin"), Some(Role::Admin));
    assert_eq!(Role::parse("developer"), Some(Role::Developer));
    assert_eq!(Role::parse("viewer"), Some(Role::Viewer));
    assert_eq!(Role::parse("root"), None);
    assert_eq!(Role::Admin.as_str(), "admin");

    assert!(Role::Viewer.allows(Permission::FsRead));
    assert!(Role::Viewer.allows(Permission::AgentView));
    assert!(!Role::Viewer.allows(Permission::FsWrite));
    assert!(!Role::Viewer.allows(Permission::Execute));
    assert!(Role::Developer.allows(Permission::Execute));
    assert!(Role::Developer.allows(Permission::LlmUse));
    assert!(!Role::Developer.allows(Permission::LlmAdmin));
    assert!(Role::Admin.allows(Permission::LlmAdmin));
}

#[test]
fn validate_role_accepts_known_labels() {
    assert!(validate_role(&None).is_ok());
    assert!(validate_role(&Some("developer".to_string())).is_ok());
    assert!(validate_role(&Some("intruder".to_string())).is_err());
}
