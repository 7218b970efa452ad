use no_more_termius::pane::{human_size, is_valid_entry_name, remote_preview_supported, sort_entries, FsEntry, PaneState};

fn entry(name: &str, is_dir: bool) -> FsEntry {
    FsEntry {
        name: name.into(),
        path: format!("/tmp/{name}"),
        is_dir,
        is_symlink: false,
        size: 42,
    }
}

fn pane_with(names: &[(&str, bool)], show_hidden: bool) -> PaneState {
    let mut pane = PaneState::new();
    let entries = names.iter().map(|(n, d)| entry(n, *d)).collect();
    pane.set_listing("/tmp".into(), entries, show_hidden);
    pane
}

fn visible_names(pane: &PaneState) -> Vec<&str> {
    pane.filtered.iter().map(|&i| pane.entries[i].name.as_str()).collect()
}

#[test]
fn dirs_first_case_insensitive_with_parent_pinned() {
    let pane = pane_with(&[("zeta.txt", false), ("Alpha", true), ("beta", true), ("a.txt", false)], true);
    assert_eq!(visible_names(&pane), vec!["..", "Alpha", "beta", "a.txt", "zeta.txt"]);
}

#[test]
fn root_has_no_parent_entry() {
    let mut pane = PaneState::new();
    pane.set_listing("/".into(), vec![entry("etc", true)], true);
    assert_eq!(visible_names(&pane), vec!["etc"]);
}

#[test]
fn hidden_toggle() {
    let mut pane = pane_with(&[(".secret", false), ("open.txt", false)], true);
    assert_eq!(visible_names(&pane), vec!["..", ".secret", "open.txt"]);
    pane.filter.clear();
    pane.apply_filter(false);
    assert_eq!(visible_names(&pane), vec!["..", "open.txt"]);
}

#[test]
fn filter_excludes_parent_and_resets_selection() {
    let mut pane = pane_with(&[("deploy.log", false), ("readme.md", false)], true);
    pane.selected = 2;
    pane.filter = "dep".into();
    pane.apply_filter(true);
    assert_eq!(visible_names(&pane), vec!["deploy.log"]);
    assert_eq!(pane.selected, 0);
}

#[test]
fn selection_clamps() {
    let mut pane = pane_with(&[("a", false), ("b", false)], true);
    pane.move_selection(-5);
    assert_eq!(pane.selected, 0);
    pane.move_selection(100);
    assert_eq!(pane.selected, 2); // .., a, b
}

#[test]
fn remote_preview_whitelist() {
    assert!(remote_preview_supported("photo.PNG"));
    assert!(remote_preview_supported("notes.md"));
    assert!(remote_preview_supported("doc.pdf"));
    assert!(!remote_preview_supported("archive.tar.gz"));
    assert!(!remote_preview_supported("binary"));
    assert!(!remote_preview_supported("app.exe"));
}

#[test]
fn entry_name_validation() {
    assert!(is_valid_entry_name("file.txt"));
    assert!(is_valid_entry_name(".hidden"));
    assert!(!is_valid_entry_name(""));
    assert!(!is_valid_entry_name("a/b"));
    assert!(!is_valid_entry_name("."));
    assert!(!is_valid_entry_name(".."));
}

#[test]
fn human_sizes() {
    assert_eq!(human_size(0), "0 B");
    assert_eq!(human_size(1023), "1023 B");
    assert_eq!(human_size(1024), "1.0 KB");
    assert_eq!(human_size(1536), "1.5 KB");
    assert_eq!(human_size(5 * 1024 * 1024), "5.0 MB");
    assert_eq!(human_size(3 * 1024 * 1024 * 1024), "3.0 GB");
}

#[test]
fn human_sizes_round_like_format() {
    // 1126 / 1024 = 1.0996..., printed with one decimal.
    assert_eq!(human_size(1126), "1.1 KB");
    // 1075 / 1024 = 1.0498..., which rounds down.
    assert_eq!(human_size(1075), "1.0 KB");
    assert_eq!(human_size(2 * 1024 * 1024 * 1024 * 1024), "2.0 TB");
}

#[test]
fn sort_is_stable_for_equal_keys() {
    let mut es = vec![entry("b", false), entry("B", false), entry("a", false), entry("dir", true)];
    es[0].path = "/first".into();
    es[1].path = "/second".into();
    sort_entries(&mut es);
    let names: Vec<&str> = es.iter().map(|e| e.name.as_str()).collect();
    assert_eq!(names, vec!["dir", "a", "b", "B"]);
}

#[test]
fn select_last_and_first() {
    let mut pane = pane_with(&[("a", false), ("b", false), ("c", false)], true);
    pane.select_last();
    assert_eq!(pane.selected, 3);
    assert_eq!(pane.selected_entry().unwrap().name, "c");
    pane.select_first();
    assert_eq!(pane.selected_entry().unwrap().name, "..");
    assert_eq!(pane.selected_entry().unwrap().path, "/");
}
