use no_more_termius::model::Connection;
use no_more_termius::ssh::build_command;

fn base() -> Connection {
    Connection {
        name: "x".into(),
        host: "example.com".into(),
        port: 22,
        user: None,
        identity_file: None,
        sftp_dir: None,
        favorite: false,
        last_used: None,
    }
}

fn args(conn: &Connection) -> Vec<String> {
    let cmd = build_command(conn);
    assert_eq!(cmd.program, "ssh");
    cmd.args
}

#[test]
fn bare_host() {
    assert_eq!(args(&base()), vec!["example.com"]);
}

#[test]
fn full_options() {
    let conn = Connection { port: 2222, user: Some("root".into()), identity_file: Some("/k/id".into()), ..base() };
    assert_eq!(args(&conn), vec!["-p", "2222", "-i", "/k/id", "root@example.com"]);
}

#[test]
fn user_only() {
    let conn = Connection { user: Some("admin".into()), ..base() };
    assert_eq!(args(&conn), vec!["admin@example.com"]);
}
