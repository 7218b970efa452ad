use no_more_termius::app::{Action, App, Effect, Screen, SshOutcome};
use no_more_termius::keys::{KeyCode, KeyEvent};
use no_more_termius::list::ListModal;
use no_more_termius::model::Connection;
use no_more_termius::store::Store;

fn conn(name: &str) -> Connection {
    Connection {
        name: name.into(),
        host: "h".into(),
        port: 22,
        user: None,
        identity_file: None,
        sftp_dir: None,
        favorite: false,
        last_used: None,
    }
}

fn key(c: char) -> KeyEvent {
    KeyEvent { code: KeyCode::Char(c), ctrl: false }
}

fn app_with(conns: Vec<Connection>) -> App {
    let (app, fx) = App::new(Store::loaded("/tmp/c.toml".into(), conns), None);
    assert!(fx.is_empty());
    app
}

#[test]
fn first_run_without_hosts_saves_the_empty_store() {
    let (app, fx) = App::new(Store::new_empty("/tmp/c.toml".into()), Some(vec![]));
    assert!(matches!(&fx[..], [Effect::Save]));
    assert!(app.list.modal.is_none());
    assert_eq!(app.store.path, "/tmp/c.toml");
}

#[test]
fn first_run_offers_the_import() {
    let (mut app, fx) = App::new(Store::new_empty("/tmp/c.toml".into()), Some(vec![conn("a"), conn("b")]));
    assert!(fx.is_empty());
    assert!(matches!(app.list.modal, Some(ListModal::ImportPrompt(_))));
    let fx = app.on_key(key('y'), false);
    assert!(matches!(&fx[..], [Effect::Save]));
    assert_eq!(app.store.connections.len(), 2);
    assert_eq!(app.list.status.as_deref(), Some("Imported 2 connection(s)"));
    assert_eq!(app.list.filtered.len(), 2);
}

#[test]
fn help_opens_and_any_key_closes_it() {
    let mut app = app_with(vec![conn("a")]);
    app.on_key(key('?'), false);
    assert_eq!(app.help.as_ref().unwrap().sections[0].title, "Connections");
    assert_eq!(app.help.as_ref().unwrap().sections[1].title, "Global");
    let fx = app.on_key(key('q'), false);
    assert!(fx.is_empty());
    assert!(app.help.is_none());
    assert!(!app.should_quit);
}

#[test]
fn ctrl_c_quits_anywhere() {
    let mut app = app_with(vec![]);
    app.on_key(key('a'), false);
    assert!(app.screen == Screen::Form);
    app.on_key(KeyEvent { code: KeyCode::Char('c'), ctrl: true }, false);
    assert!(app.should_quit);
}

#[test]
fn add_then_save_appends_and_saves() {
    let mut app = app_with(vec![conn("a")]);
    app.on_key(key('a'), false);
    for c in "new".chars() {
        app.on_key(key(c), false);
    }
    app.on_key(KeyEvent { code: KeyCode::Tab, ctrl: false }, false);
    for c in "example.org".chars() {
        app.on_key(key(c), false);
    }
    let fx = app.on_key(KeyEvent { code: KeyCode::Enter, ctrl: false }, false);
    assert!(matches!(&fx[..], [Effect::Save]));
    assert!(app.screen == Screen::List);
    assert!(app.form.is_none());
    assert_eq!(app.store.connections.len(), 2);
    assert_eq!(app.store.connections[1].name, "new");
    assert_eq!(app.store.connections[1].host, "example.org");
    assert_eq!(app.store.connections[1].port, 22);
}

#[test]
fn delete_and_favorite_save() {
    let mut app = app_with(vec![conn("a"), conn("b")]);
    let fx = app.apply(Action::ToggleFavorite(1));
    assert!(matches!(&fx[..], [Effect::Save]));
    assert!(app.store.connections[1].favorite);
    let fx = app.apply(Action::Delete(0));
    assert!(matches!(&fx[..], [Effect::Save]));
    assert_eq!(app.store.connections.len(), 1);
    assert_eq!(app.list.status.as_deref(), Some("Deleted \"a\""));
    let fx = app.apply(Action::Delete(5));
    assert!(fx.is_empty());
}

#[test]
fn connecting_runs_ssh_and_records_the_time() {
    let mut app = app_with(vec![conn("a")]);
    let fx = app.on_key(KeyEvent { code: KeyCode::Enter, ctrl: false }, false);
    assert!(matches!(&fx[..], [Effect::RunSsh(0)]));
    let fx = app.connect_finished(0, SshOutcome::Exited { success: false, status: "exit status: 255".into() }, 1_700_000_000);
    assert!(matches!(&fx[..], [Effect::Save]));
    assert_eq!(app.store.connections[0].last_used, Some(1_700_000_000));
    assert_eq!(app.list.status.as_deref(), Some("ssh exited with exit status: 255"));
    let fx = app.connect_finished(0, SshOutcome::LaunchFailed("not found".into()), 1);
    assert!(fx.is_empty());
    assert_eq!(app.list.status.as_deref(), Some("failed to launch ssh: not found"));
}

#[test]
fn key_picker_round_trip() {
    let mut app = app_with(vec![]);
    app.on_key(key('a'), false);
    for _ in 0..4 {
        app.on_key(KeyEvent { code: KeyCode::Tab, ctrl: false }, false);
    }
    let fx = app.on_key(KeyEvent { code: KeyCode::Char('o'), ctrl: true }, false);
    assert!(matches!(&fx[..], [Effect::OpenPicker(None)]));
    app.picker_opened("/home/me/.ssh".into(), Ok(vec![no_more_termius::pane::FsEntry {
        name: "id_ed25519".into(),
        path: "/home/me/.ssh/id_ed25519".into(),
        is_dir: false,
        is_symlink: false,
        size: 0,
    }]));
    assert!(app.screen == Screen::Picker);
    app.on_key(KeyEvent { code: KeyCode::Enter, ctrl: false }, false);
    assert!(app.screen == Screen::Form);
    assert!(app.picker.is_none());
    assert_eq!(app.form.as_ref().unwrap().fields[4], "/home/me/.ssh/id_ed25519");
}
