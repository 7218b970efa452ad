use no_more_termius::app::Action;
use no_more_termius::keys::{KeyCode, KeyEvent};
use no_more_termius::pane::FsEntry;
use no_more_termius::picker::PickerScreen;

fn entry(dir: &str, name: &str, is_dir: bool) -> FsEntry {
    FsEntry { name: name.into(), path: format!("{dir}/{name}"), is_dir, is_symlink: false, size: 0 }
}

fn key(c: char) -> KeyEvent {
    KeyEvent { code: KeyCode::Char(c), ctrl: false }
}

fn names(p: &PickerScreen) -> Vec<&str> {
    p.filtered.iter().map(|&i| p.entries[i].name.as_str()).collect()
}

fn home_listing() -> Vec<FsEntry> {
    vec![entry("/home/me", "notes.txt", false), entry("/home/me", ".ssh", true), entry("/home/me", "Docs", true)]
}

#[test]
fn hidden_entries_shown_by_default_and_toggle() {
    let mut p = PickerScreen::new("/home/me".into(), Ok(home_listing()));
    assert_eq!(names(&p), vec![".ssh", "Docs", "notes.txt"]);
    p.handle_key(key('.'));
    assert_eq!(names(&p), vec!["Docs", "notes.txt"]);
}

#[test]
fn enter_on_dir_asks_for_its_listing_and_file_is_picked() {
    let mut p = PickerScreen::new("/home/me".into(), Ok(home_listing()));
    let (action, load) = p.handle_key(KeyEvent { code: KeyCode::Enter, ctrl: false });
    assert!(matches!(action, Action::Nothing));
    let load = load.expect("a listing request");
    assert_eq!(load.dir, "/home/me/.ssh");
    assert!(load.from.is_none());
    p.dir_loaded(load, Ok(vec![entry("/home/me/.ssh", "id_ed25519", false)]));
    assert_eq!(p.cwd, "/home/me/.ssh");
    let (action, load) = p.handle_key(key('l'));
    assert!(load.is_none());
    match action {
        Action::PickFile(Some(path)) => assert_eq!(path, "/home/me/.ssh/id_ed25519"),
        _ => panic!("expected PickFile"),
    }
}

#[test]
fn parent_keeps_the_directory_we_came_from_selected() {
    let mut p = PickerScreen::new("/home/me/Docs".into(), Ok(vec![]));
    let (_, load) = p.handle_key(key('h'));
    let load = load.unwrap();
    assert_eq!(load.dir, "/home/me");
    assert_eq!(load.from.as_deref(), Some("/home/me/Docs"));
    p.dir_loaded(load, Ok(home_listing()));
    assert_eq!(p.selected, 1);
    assert_eq!(names(&p)[p.selected], "Docs");
}

#[test]
fn failed_listing_keeps_the_old_directory() {
    let mut p = PickerScreen::new("/home/me".into(), Ok(home_listing()));
    let (_, load) = p.handle_key(KeyEvent { code: KeyCode::Down, ctrl: false });
    assert!(load.is_none());
    let (_, load) = p.handle_key(KeyEvent { code: KeyCode::Right, ctrl: false });
    p.dir_loaded(load.unwrap(), Err("permission denied".into()));
    assert_eq!(p.cwd, "/home/me");
    assert_eq!(p.error.as_deref(), Some("/home/me/Docs: permission denied"));
}

#[test]
fn filter_mode_types_and_esc_keeps_filter() {
    let mut p = PickerScreen::new("/home/me".into(), Ok(home_listing()));
    p.handle_key(key('/'));
    assert!(p.filtering);
    p.handle_key(key('n'));
    p.handle_key(key('o'));
    assert_eq!(p.filter, "no");
    assert_eq!(names(&p), vec!["notes.txt"]);
    p.handle_key(KeyEvent { code: KeyCode::Esc, ctrl: false });
    assert!(!p.filtering);
    assert_eq!(p.filter, "no");
    let (action, _) = p.handle_key(key('q'));
    assert!(matches!(action, Action::PickFile(None)));
}

#[test]
fn parent_selection_compares_paths_not_text() {
    // A trailing slash names the same directory.
    let mut p = PickerScreen::new("/home/me/Docs/".into(), Ok(vec![]));
    let (_, load) = p.handle_key(key('h'));
    let load = load.unwrap();
    assert_eq!(load.dir, "/home/me");
    p.dir_loaded(load, Ok(home_listing()));
    assert_eq!(names(&p)[p.selected], "Docs");
}
