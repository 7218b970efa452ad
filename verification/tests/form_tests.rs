use no_more_termius::form::{duplicate_name, FormScreen};
use no_more_termius::model::Connection;

fn conn(name: &str) -> Connection {
    Connection {
        name: name.into(),
        host: "h".into(),
        port: 22,
        user: None,
        identity_file: None,
        sftp_dir: None,
        favorite: false,
        last_used: None,
    }
}

#[test]
fn duplicate_names_stay_unique() {
    let conns = vec![conn("web")];
    assert_eq!(duplicate_name("web", &conns), "web (copy)");

    let conns = vec![conn("web"), conn("web (copy)")];
    assert_eq!(duplicate_name("web", &conns), "web (copy 2)");

    let conns = vec![conn("web"), conn("web (copy)"), conn("web (copy 2)")];
    assert_eq!(duplicate_name("web", &conns), "web (copy 3)");
}

#[test]
fn duplicate_form_is_a_new_entry_with_copied_fields() {
    let original = Connection {
        name: "web".into(),
        host: "10.0.0.1".into(),
        port: 2222,
        user: Some("root".into()),
        identity_file: None,
        sftp_dir: None,
        favorite: true,
        last_used: Some(123),
    };
    let form = FormScreen::new_duplicate(&original, std::slice::from_ref(&original));
    assert_eq!(form.editing, None);
    assert_eq!(form.fields[0], "web (copy)");
    assert_eq!(form.fields[1], "10.0.0.1");
    assert_eq!(form.fields[2], "2222");
    assert_eq!(form.fields[3], "root");
    assert!(form.favorite);
    assert_eq!(form.last_used, None);
}

#[test]
fn duplicate_name_skips_a_taken_first_copy_only() {
    // "web (copy 2)" is taken but "web (copy)" is free: the first free wins.
    let conns = vec![conn("web"), conn("web (copy 2)")];
    assert_eq!(duplicate_name("web", &conns), "web (copy)");
}

#[test]
fn edit_form_keeps_last_used_and_sftp_dir() {
    let mut c = conn("db");
    c.last_used = Some(77);
    c.sftp_dir = Some("/srv".into());
    c.identity_file = Some("/k/id".into());
    let form = FormScreen::new_edit(3, &c);
    assert_eq!(form.editing, Some(3));
    assert_eq!(form.fields[0], "db");
    assert_eq!(form.fields[2], "22");
    assert_eq!(form.fields[4], "/k/id");
    assert_eq!(form.last_used, Some(77));
    assert_eq!(form.sftp_dir.as_deref(), Some("/srv"));
}

#[test]
fn unchanged_edit_validates_back_to_the_connection() {
    let mut c = conn("web");
    c.port = 2222;
    c.user = Some("root".into());
    c.favorite = true;
    c.last_used = Some(99);
    c.sftp_dir = Some("logs".into());
    let conns = vec![conn("db"), c.clone()];
    let form = FormScreen::new_edit(1, &conns[1]);
    let back = form.validate(&conns, false).unwrap();
    assert_eq!(back.name, "web");
    assert_eq!(back.port, 2222);
    assert_eq!(back.user.as_deref(), Some("root"));
    assert!(back.favorite);
    assert_eq!(back.last_used, Some(99));
    assert_eq!(back.sftp_dir.as_deref(), Some("logs"));
    assert_eq!(back.identity_file, None);
}

