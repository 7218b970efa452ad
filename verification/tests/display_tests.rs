use no_more_termius::display::{
    delete_kind, delete_prompt, entry_label, entry_size, favorite_line, field_text, form_title, help_key_width,
    import_prompt, list_empty_message, list_footer, masked, overwrite_dir, overwrite_sizes, pane_title, picker_title,
    transfer_progress, transfer_title,
};
use no_more_termius::form::FormScreen;
use no_more_termius::help::for_list;
use no_more_termius::list::ListScreen;
use no_more_termius::model::Connection;
use no_more_termius::pane::{FsEntry, PaneState};
use no_more_termius::picker::PickerScreen;
use no_more_termius::sftp::PendingTransfer;
use no_more_termius::worker::Direction;

fn entry(name: &str, is_dir: bool, is_symlink: bool, size: u64) -> FsEntry {
    FsEntry { name: name.into(), path: format!("/x/{name}"), is_dir, is_symlink, size }
}

#[test]
fn pane_rows_and_titles() {
    assert_eq!(entry_label(&entry("src", true, false, 0)), "src/");
    assert_eq!(entry_label(&entry("ln", false, true, 0)), "ln@");
    assert_eq!(entry_label(&entry("a.txt", false, false, 0)), "a.txt");
    assert_eq!(entry_size(&entry("src", true, false, 4096)), "");
    assert_eq!(entry_size(&entry("a.txt", false, false, 2048)), "2.0 KB");
    let mut pane = PaneState::new();
    pane.loading = true;
    assert_eq!(pane_title("Local", &pane, false), "Local: / ⟳");
    pane.loading = false;
    pane.filter = "ab".into();
    assert_eq!(pane_title("Local", &pane, false), "Local: / [/ab]");
    pane.filter.clear();
    assert_eq!(pane_title("Local", &pane, true), "Local: / [/]");
}

#[test]
fn list_texts() {
    let mut l = ListScreen::new();
    assert!(list_footer(&l).starts_with("Enter connect"));
    l.searching = true;
    assert!(list_footer(&l).starts_with("type to filter"));
    l.status = Some("Deleted \"a\"".into());
    assert_eq!(list_footer(&l), "Deleted \"a\"");
    assert_eq!(list_empty_message(true), "No matches");
    assert!(list_empty_message(false).starts_with("No connections yet"));
    let c = Connection {
        name: "web".into(),
        host: "h".into(),
        port: 22,
        user: None,
        identity_file: None,
        sftp_dir: None,
        favorite: false,
        last_used: None,
    };
    assert_eq!(delete_prompt(std::slice::from_ref(&c), 0), "Delete \"web\"? This cannot be undone.");
    assert_eq!(delete_prompt(std::slice::from_ref(&c), 3), "Delete \"?\"? This cannot be undone.");
    assert_eq!(import_prompt(12), "Import 12 host(s) from ~/.ssh/config?");
}

#[test]
fn form_and_picker_texts() {
    let mut f = FormScreen::new_add();
    assert_eq!(form_title(&f), "New connection");
    assert_eq!(field_text(&f, 4), "(optional — Ctrl-o to browse)");
    assert_eq!(field_text(&f, 0), "");
    assert_eq!(favorite_line(&f), "  [ ] Favorite  (Space toggles)");
    f.favorite = true;
    f.editing = Some(0);
    assert_eq!(favorite_line(&f), "  [★] Favorite  (Space toggles)");
    assert_eq!(form_title(&f), "Edit connection");
    let mut p = PickerScreen::new("/home/me".into(), Ok(vec![]));
    assert_eq!(picker_title(&p), " Pick key file — /home/me ");
    p.filtering = true;
    assert_eq!(picker_title(&p), " Pick key file — /home/me [/] ");
}

#[test]
fn sftp_prompt_texts() {
    assert_eq!(masked("abc"), "•••");
    assert_eq!(masked(""), "");
    let p = PendingTransfer {
        direction: Direction::Upload,
        src: "/l/a".into(),
        name: "a".into(),
        src_size: 1536,
        dst: "/srv/a".into(),
        existing_size: 10,
    };
    assert_eq!(overwrite_dir(&p), "/srv");
    assert_eq!(overwrite_sizes(&p), "existing: 10 B   new: 1.5 KB");
    assert_eq!(transfer_title(Direction::Download, "a"), "Downloading a");
    assert_eq!(transfer_progress(0, 2048), "0 B / 2.0 KB  —  Esc cancels");
    assert_eq!(delete_kind(&entry("d", true, false, 0)), "directory (must be empty)");
    assert_eq!(delete_kind(&entry("l", false, true, 0)), "symlink");
    assert_eq!(delete_kind(&entry("f", false, false, 0)), "file");
}

#[test]
fn help_key_column_fits_the_longest_key() {
    assert_eq!(help_key_width(&for_list()), "j/k  ↑/↓".chars().count());
}
