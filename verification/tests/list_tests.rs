use no_more_termius::app::Action;
use no_more_termius::keys::{KeyCode, KeyEvent};
use no_more_termius::list::{relative_time, ListModal, ListScreen};
use no_more_termius::model::Connection;

fn conn(name: &str, favorite: bool, last_used: Option<u64>) -> Connection {
    Connection {
        name: name.into(),
        host: format!("{name}.example"),
        port: 22,
        user: None,
        identity_file: None,
        sftp_dir: None,
        favorite,
        last_used,
    }
}

fn key(c: char) -> KeyEvent {
    KeyEvent { code: KeyCode::Char(c), ctrl: false }
}

fn special(code: KeyCode) -> KeyEvent {
    KeyEvent { code, ctrl: false }
}

fn sample() -> Vec<Connection> {
    vec![
        conn("zeta", false, None),
        conn("alpha", false, Some(10)),
        conn("mid", true, Some(5)),
        conn("recent", false, Some(50)),
        conn("Beta", true, Some(5)),
    ]
}

#[test]
fn favorites_first_then_recent_then_name() {
    let cs = sample();
    let mut l = ListScreen::new();
    l.refilter(&cs);
    let names: Vec<&str> = l.filtered.iter().map(|&i| cs[i].name.as_str()).collect();
    assert_eq!(names, vec!["Beta", "mid", "recent", "alpha", "zeta"]);
}

#[test]
fn search_filters_and_enter_connects() {
    let cs = sample();
    let mut l = ListScreen::new();
    l.refilter(&cs);
    assert!(matches!(l.handle_key(key('/'), &cs), Action::Nothing));
    assert!(l.searching);
    for c in "zet".chars() {
        l.handle_key(key(c), &cs);
    }
    assert_eq!(l.query, "zet");
    assert_eq!(l.filtered, vec![0]);
    match l.handle_key(special(KeyCode::Enter), &cs) {
        Action::Connect(i) => assert_eq!(i, 0),
        _ => panic!("expected Connect"),
    }
    assert!(!l.searching);
}

#[test]
fn esc_clears_search_then_quits() {
    let cs = sample();
    let mut l = ListScreen::new();
    l.refilter(&cs);
    l.handle_key(key('/'), &cs);
    l.handle_key(key('m'), &cs);
    l.handle_key(special(KeyCode::Esc), &cs); // leave search mode, keep query
    assert!(!l.searching);
    assert_eq!(l.query, "m");
    assert!(matches!(l.handle_key(special(KeyCode::Esc), &cs), Action::Nothing));
    assert_eq!(l.query, "");
    assert_eq!(l.filtered.len(), 5);
    assert!(matches!(l.handle_key(special(KeyCode::Esc), &cs), Action::Quit));
}

#[test]
fn delete_asks_first() {
    let cs = sample();
    let mut l = ListScreen::new();
    l.refilter(&cs);
    l.handle_key(key('j'), &cs);
    assert!(matches!(l.handle_key(key('d'), &cs), Action::Nothing));
    assert!(matches!(l.modal, Some(ListModal::ConfirmDelete(2))));
    match l.handle_key(key('y'), &cs) {
        Action::Delete(i) => assert_eq!(i, 2),
        _ => panic!("expected Delete"),
    }
    assert!(l.modal.is_none());
}

#[test]
fn selection_clamps_at_both_ends() {
    let cs = sample();
    let mut l = ListScreen::new();
    l.refilter(&cs);
    l.handle_key(key('k'), &cs);
    assert_eq!(l.selected, 0);
    l.handle_key(key('G'), &cs);
    assert_eq!(l.selected, 4);
    l.handle_key(key('j'), &cs);
    assert_eq!(l.selected, 4);
    assert_eq!(l.selected_store_idx(), Some(0));
}

#[test]
fn relative_times() {
    assert_eq!(relative_time(5), "just now");
    assert_eq!(relative_time(125), "2m ago");
    assert_eq!(relative_time(7200), "2h ago");
    assert_eq!(relative_time(3 * 86400), "3d ago");
    assert_eq!(relative_time(15 * 86400), "2w ago");
}
