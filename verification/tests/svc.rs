use xboard_client::svc::validate_exec_path;
use xboard_client::svc::{
    check_canonical_exec_path, file_name, is_absolute, is_allowed_basename, is_under_allowed_root,
    not_absolute_message, parse_allowed_sid,
};

#[test]
fn basename_allowlist() {
    assert!(is_allowed_basename("C:\\x\\mihomo.exe"));
    assert!(is_allowed_basename("C:\\x\\mihomo-x86_64-pc-windows-msvc.exe"));
    assert!(!is_allowed_basename("C:\\x\\cmd.exe"));
    assert!(!is_allowed_basename("C:\\x\\mihomo"));
}

#[test]
fn root_allowlist_dev_paths() {
    // With ProgramFiles and LOCALAPPDATA unset, the development tree still
    // counts as an allowed root.
    let p = "C:\\src\\xboard-client\\target\\debug\\binaries\\mihomo-x86_64-pc-windows-msvc.exe";
    assert!(is_under_allowed_root(p, None, None));
}

#[test]
fn basename_ignores_ascii_case_and_forward_slashes() {
    assert!(is_allowed_basename("C:/x/MIHOMO.EXE"));
    assert!(!is_allowed_basename("C:\\x\\"));
    assert!(!is_allowed_basename(""));
}

#[test]
fn file_name_follows_windows_rules() {
    assert_eq!(file_name("C:\\x\\mihomo.exe").as_deref(), Some("mihomo.exe"));
    assert_eq!(file_name("C:\\x\\dir\\").as_deref(), Some("dir"));
    assert_eq!(file_name("C:\\x\\.."), None);
    assert_eq!(file_name("mihomo.exe").as_deref(), Some("mihomo.exe"));
}

#[test]
fn install_roots_are_matched_case_insensitively() {
    assert!(is_under_allowed_root(
        "C:\\PROGRAM FILES\\Xboard\\mihomo.exe",
        None,
        None
    ));
    assert!(is_under_allowed_root(
        "D:\\Apps\\xboard\\mihomo.exe",
        Some("D:\\Apps"),
        None
    ));
    assert!(is_under_allowed_root(
        "C:\\Users\\u\\AppData\\Local\\xboard\\mihomo.exe",
        Some("D:\\Apps"),
        Some("C:\\Users\\u\\AppData\\Local")
    ));
    assert!(!is_under_allowed_root("C:\\Windows\\System32\\mihomo.exe", None, None));
    assert!(is_under_allowed_root(
        "C:\\w\\target\\release\\binaries\\mihomo.exe",
        None,
        None
    ));
}

#[test]
fn absolute_paths() {
    assert!(is_absolute("C:\\x"));
    assert!(is_absolute("c:/x"));
    assert!(is_absolute("\\\\server\\share"));
    assert!(!is_absolute("x\\mihomo.exe"));
    assert!(!is_absolute("C:x"));
    assert_eq!(
        not_absolute_message("rel\\m.exe"),
        "exec_path must be absolute, got rel\\m.exe"
    );
}

#[test]
fn canonical_path_verdicts() {
    assert_eq!(
        check_canonical_exec_path("a", "C:\\Program Files\\xboard\\mihomo.exe", None, None),
        Ok(())
    );
    assert_eq!(
        check_canonical_exec_path("a", "C:\\Temp\\mihomo.exe", None, None),
        Err("exec_path a (canonical C:\\Temp\\mihomo.exe) is not under an allowed root".to_string())
    );
    assert_eq!(
        check_canonical_exec_path("a", "C:\\Program Files\\xboard\\cmd.exe", None, None),
        Err("exec_path C:\\Program Files\\xboard\\cmd.exe has unexpected basename — must be a known mihomo binary".to_string())
    );
}

#[test]
fn allowed_sid_from_arguments_or_environment() {
    let args = vec![
        "svc".to_string(),
        "--allowed-sid".to_string(),
        "S-1-5-21-1".to_string(),
    ];
    assert_eq!(parse_allowed_sid(&args, Some("S-env".into())).as_deref(), Some("S-1-5-21-1"));
    let args = vec!["svc".to_string()];
    assert_eq!(parse_allowed_sid(&args, Some("S-env".into())).as_deref(), Some("S-env"));
    let args = vec!["svc".to_string(), "--allowed-sid".to_string()];
    assert_eq!(parse_allowed_sid(&args, None), None);
}

#[test]
fn exec_path_policy_end_to_end() {
    assert_eq!(
        validate_exec_path("rel\\mihomo.exe", Ok("C:\\Program Files\\xboard\\mihomo.exe".into()), None, None),
        Err("exec_path must be absolute, got rel\\mihomo.exe".to_string())
    );
    assert_eq!(
        validate_exec_path("C:\\gone.exe", Err("not found".into()), None, None),
        Err("canonicalize C:\\gone.exe: not found".to_string())
    );
    assert_eq!(
        validate_exec_path("C:\\link.exe", Ok("C:\\Program Files\\xboard\\mihomo.exe".into()), None, None),
        Ok("C:\\Program Files\\xboard\\mihomo.exe".to_string())
    );
    assert_eq!(
        validate_exec_path("C:\\link.exe", Ok("C:\\Windows\\mihomo.exe".into()), None, None),
        Err("exec_path C:\\link.exe (canonical C:\\Windows\\mihomo.exe) is not under an allowed root".to_string())
    );
}

#[test]
fn only_the_installing_user_may_connect() {
    assert_eq!(xboard_client::svc::authorize_client("S-1-5-21-1", "S-1-5-21-1"), Ok(()));
    assert_eq!(
        xboard_client::svc::authorize_client("S-1-5-21-2", "S-1-5-21-1"),
        Err("client SID not authorized for this service".to_string())
    );
}

#[test]
fn canonical_install_paths_with_verbatim_prefix_are_accepted() {
    assert!(is_under_allowed_root("\\\\?\\C:\\Program Files\\xboard\\mihomo.exe", None, None));
    assert!(is_under_allowed_root(
        "\\\\?\\C:\\Users\\u\\AppData\\Local\\Xboard\\mihomo.exe",
        None,
        Some("C:\\Users\\u\\AppData\\Local")
    ));
    assert!(!is_under_allowed_root("\\\\?\\C:\\Windows\\mihomo.exe", None, None));
    assert_eq!(
        validate_exec_path(
            "C:\\Program Files\\Xboard\\mihomo.exe",
            Ok("\\\\?\\C:\\Program Files\\Xboard\\mihomo.exe".into()),
            Some("C:\\Program Files"),
            None
        ),
        Ok("\\\\?\\C:\\Program Files\\Xboard\\mihomo.exe".to_string())
    );
}
