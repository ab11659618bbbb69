use rust_service::path::{is_allowed_log_dir, symlink_probes};
use rust_service::{resolve_path_no_symlinks, SecurityError};

fn resolve(path: &str) -> Result<String, SecurityError> {
    let flags = vec![false; symlink_probes(path).len()];
    resolve_path_no_symlinks(path, &flags)
}

#[test]
fn dots_are_resolved_lexically() {
    assert_eq!(resolve("/var/./log//svc/"), Ok("/var/log/svc".to_string()));
    assert_eq!(resolve("/var/log/x/../svc"), Ok("/var/log/svc".to_string()));
    assert_eq!(resolve("/"), Ok("/".to_string()));
    assert_eq!(resolve("/a/.."), Ok("/".to_string()));
}

#[test]
fn escaping_the_root_is_refused() {
    assert_eq!(resolve("/.."), Err(SecurityError::PathTraversal));
    assert_eq!(resolve("/a/../../b"), Err(SecurityError::PathTraversal));
}

#[test]
fn relative_paths_are_refused() {
    assert_eq!(resolve("var/log"), Err(SecurityError::RelativePath));
    assert_eq!(resolve(""), Err(SecurityError::RelativePath));
}

#[test]
fn probes_follow_the_walk() {
    assert_eq!(
        symlink_probes("/var/log/../opt/./x"),
        vec!["/var", "/var/log", "/var/opt", "/var/opt/x"]
    );
    assert!(symlink_probes("relative/path").is_empty());
    assert_eq!(symlink_probes("/a/../.."), vec!["/a"]);
}

#[test]
fn any_symlink_component_is_refused() {
    let path = "/var/log/svc";
    assert_eq!(symlink_probes(path).len(), 3);
    for i in 0..3 {
        let mut flags = vec![false; 3];
        flags[i] = true;
        assert_eq!(resolve_path_no_symlinks(path, &flags), Err(SecurityError::SymlinkInPath));
    }
    assert_eq!(resolve_path_no_symlinks(path, &vec![false; 3]), Ok(path.to_string()));
}

#[test]
fn allowed_log_roots() {
    assert!(is_allowed_log_dir("/var/log"));
    assert!(is_allowed_log_dir("/var/log/svc"));
    assert!(is_allowed_log_dir("/opt/svc/logs"));
    assert!(is_allowed_log_dir("//opt//x"));
    assert!(!is_allowed_log_dir("/var/logs"));
    assert!(!is_allowed_log_dir("/var"));
    assert!(!is_allowed_log_dir("/tmp/var/log"));
    assert!(!is_allowed_log_dir("/opt/../etc"));
    assert!(!is_allowed_log_dir("opt/x"));
}
