use no_more_termius::model::Connection;
use no_more_termius::worker::{base64_nopad, fingerprint_text, is_symlink_mode, known_hosts_entry, part_path, transfer_name, ConnectParams, Direction};

#[test]
fn base64_matches_openssh_style() {
    assert_eq!(base64_nopad(b"hello"), "aGVsbG8");
    assert_eq!(base64_nopad(b"hell"), "aGVsbA");
    assert_eq!(base64_nopad(b"hel"), "aGVs");
    assert_eq!(base64_nopad(b""), "");
}

#[test]
fn part_path_appends_suffix() {
    assert_eq!(part_path("/a/b/file.txt"), "/a/b/file.txt.part");
}

#[test]
fn fingerprint_is_prefixed_or_unknown() {
    assert_eq!(fingerprint_text(Some(b"hello")), "SHA256:aGVsbG8");
    assert_eq!(fingerprint_text(None), "unknown fingerprint");
}

#[test]
fn known_hosts_uses_brackets_off_port_22() {
    assert_eq!(known_hosts_entry("example.com", 22), "example.com");
    assert_eq!(known_hosts_entry("example.com", 2222), "[example.com]:2222");
}

#[test]
fn symlink_mode_bits() {
    assert!(is_symlink_mode(0o120777));
    assert!(!is_symlink_mode(0o100644));
    assert!(!is_symlink_mode(0o040755));
    assert!(!is_symlink_mode(0));
}

#[test]
fn transfer_name_is_the_file_name() {
    assert_eq!(transfer_name("/a/b/file.txt"), "file.txt");
    assert_eq!(transfer_name("/"), "");
}

#[test]
fn verbs() {
    assert_eq!(Direction::Upload.verb(), "Uploaded");
    assert_eq!(Direction::Download.verb(), "Downloaded");
}

#[test]
fn connect_params_fall_back_to_login_user() {
    let conn = Connection {
        name: "x".into(),
        host: "h.example".into(),
        port: 2200,
        user: None,
        identity_file: Some("/k".into()),
        sftp_dir: None,
        favorite: false,
        last_used: None,
    };
    let p = ConnectParams::for_connection(&conn, Some("me".into()));
    assert_eq!(p.user, "me");
    assert_eq!(p.port, 2200);
    assert_eq!(p.host, "h.example");
    assert_eq!(p.key_path.as_deref(), Some("/k"));
    let p = ConnectParams::for_connection(&conn, None);
    assert_eq!(p.user, "root");
}
