use no_more_termius::keys::{KeyCode, KeyEvent};
use no_more_termius::pane::{FsEntry, Side};
use no_more_termius::sftp::{Modal, Phase, SftpCommand, SftpScreen};
use no_more_termius::worker::{Direction, SftpEvent, SftpRequest};

fn entry(dir: &str, name: &str, is_dir: bool, size: u64) -> FsEntry {
    FsEntry { name: name.into(), path: format!("{dir}/{name}"), is_dir, is_symlink: false, size }
}

fn key(c: char) -> KeyEvent {
    KeyEvent { code: KeyCode::Char(c), ctrl: false }
}

fn special(code: KeyCode) -> KeyEvent {
    KeyEvent { code, ctrl: false }
}

/// A connected browser: local home with one file, remote /srv with one file.
fn ready() -> SftpScreen {
    let mut s = SftpScreen::new("web".into(), None, "/home/me".into(), vec![entry("/home/me", "a.txt", false, 10)]);
    let cmds = s.on_event(SftpEvent::Connected { remote_home: "/srv".into() });
    assert!(matches!(&cmds[..], [SftpCommand::Send(SftpRequest::ReadDir(p))] if p == "/srv"));
    s.on_event(SftpEvent::DirListing { path: "/srv".into(), result: Ok(vec![entry("/srv", "b.bin", false, 2048)]) });
    assert!(matches!(s.phase, Phase::Ready));
    s
}

#[test]
fn upload_checks_the_destination_first() {
    let mut s = ready();
    s.on_key(key('j')); // past ".."
    let cmds = s.on_key(special(KeyCode::Enter));
    assert_eq!(cmds.len(), 1);
    assert!(matches!(&cmds[0], SftpCommand::Send(SftpRequest::StatRemote(p)) if p == "/srv/a.txt"));
}

#[test]
fn existing_destination_asks_before_overwriting() {
    let mut s = ready();
    s.on_key(key('j'));
    s.on_key(special(KeyCode::Enter));
    let cmds = s.on_event(SftpEvent::StatResult { exists: true, is_dir: false, size: 7 });
    assert!(cmds.is_empty());
    match &s.modal {
        Some(Modal::ConfirmOverwrite(p)) => {
            assert_eq!(p.dst, "/srv/a.txt");
            assert_eq!(p.existing_size, 7);
        },
        _ => panic!("expected the overwrite prompt"),
    }
    // Enter is the default answer: no.
    let cmds = s.on_key(special(KeyCode::Enter));
    assert!(cmds.is_empty());
    assert!(s.modal.is_none());
    assert_eq!(s.status.as_deref(), Some("overwrite declined"));
}

#[test]
fn confirmed_overwrite_starts_the_transfer() {
    let mut s = ready();
    s.on_key(key('j'));
    s.on_key(special(KeyCode::Enter));
    s.on_event(SftpEvent::StatResult { exists: true, is_dir: false, size: 7 });
    let cmds = s.on_key(key('y'));
    assert_eq!(cmds.len(), 2);
    assert!(matches!(cmds[0], SftpCommand::SetCancel(false)));
    assert!(matches!(&cmds[1], SftpCommand::Send(SftpRequest::Upload { local, remote }) if local == "/home/me/a.txt" && remote == "/srv/a.txt"));
    assert!(matches!(s.modal, Some(Modal::Transfer { .. })));
}

#[test]
fn free_destination_starts_at_once_and_directory_is_refused() {
    let mut s = ready();
    s.on_key(key('j'));
    s.on_key(special(KeyCode::Enter));
    let cmds = s.on_event(SftpEvent::StatResult { exists: false, is_dir: false, size: 0 });
    assert_eq!(cmds.len(), 2);
    let mut s = ready();
    s.on_key(key('j'));
    s.on_key(special(KeyCode::Enter));
    let cmds = s.on_event(SftpEvent::StatResult { exists: true, is_dir: true, size: 0 });
    assert!(cmds.is_empty());
    assert_eq!(s.status.as_deref(), Some("cannot overwrite: /srv/a.txt is a directory"));
}

#[test]
fn download_looks_up_the_local_destination() {
    let mut s = ready();
    s.on_key(special(KeyCode::Tab));
    assert!(matches!(s.active, Side::Remote));
    s.on_key(key('j'));
    let mut cmds = s.on_key(special(KeyCode::Enter));
    let p = match cmds.pop() {
        Some(SftpCommand::StatLocal(p)) => p,
        _ => panic!("expected a local lookup"),
    };
    assert_eq!(p.dst, "/home/me/b.bin");
    assert!(matches!(p.direction, Direction::Download));
    let cmds = s.local_stat_done(p, Some((false, 3)));
    assert!(cmds.is_empty());
    assert!(matches!(s.modal, Some(Modal::ConfirmOverwrite(_))));
}

#[test]
fn transfer_done_reports_and_refreshes() {
    let mut s = ready();
    let cmds = s.on_event(SftpEvent::TransferDone { direction: Direction::Upload, name: "a.txt".into(), bytes: 1536 });
    assert_eq!(s.status.as_deref(), Some("Uploaded a.txt (1.5 KB)"));
    assert!(matches!(&cmds[..], [SftpCommand::Send(SftpRequest::ReadDir(p))] if p == "/srv"));
    assert!(s.remote.loading);
}

#[test]
fn q_leaves_and_help_is_blocked_while_filtering() {
    let mut s = ready();
    assert!(s.help_allowed());
    s.on_key(key('/'));
    assert!(!s.help_allowed());
    s.on_key(special(KeyCode::Esc));
    s.on_key(key('q'));
    assert!(s.exit_requested());
}

#[test]
fn status_counter_moves_on_repeated_messages() {
    let mut s = ready();
    let before = s.status_seq;
    s.on_event(SftpEvent::OpFinished(Err("x".into())));
    s.on_event(SftpEvent::OpFinished(Err("x".into())));
    assert_eq!(s.status_seq, before + 2);
}

#[test]
fn rename_refuses_invalid_names() {
    let mut s = ready();
    s.on_key(key('j'));
    s.on_key(key('R'));
    assert!(matches!(s.modal, Some(Modal::Rename { .. })));
    for _ in 0.."a.txt".len() {
        s.on_key(special(KeyCode::Backspace));
    }
    for c in "a/b".chars() {
        s.on_key(key(c));
    }
    let cmds = s.on_key(special(KeyCode::Enter));
    assert!(cmds.is_empty());
    assert_eq!(s.status.as_deref(), Some("invalid name: \"a/b\""));
}

#[test]
fn local_rename_asks_the_application() {
    let mut s = ready();
    s.on_key(key('j'));
    s.on_key(key('R'));
    s.on_key(special(KeyCode::Backspace));
    s.on_key(special(KeyCode::Backspace));
    s.on_key(special(KeyCode::Backspace));
    s.on_key(key('m'));
    s.on_key(key('d'));
    let cmds = s.on_key(special(KeyCode::Enter));
    assert!(matches!(&cmds[..], [SftpCommand::RenameLocal { from, to, new_name }]
        if from == "/home/me/a.txt" && to == "/home/me/a.md" && new_name == "a.md"));
}

#[test]
fn remote_preview_limits() {
    let mut s = ready();
    s.on_key(special(KeyCode::Tab));
    s.on_key(key('j'));
    // b.bin: not a previewable type.
    let cmds = s.on_key(key(' '));
    assert!(cmds.is_empty());
    assert_eq!(s.status.as_deref(), Some("remote preview supports images, text files and pdf"));

    s.on_event(SftpEvent::DirListing {
        path: "/srv".into(),
        result: Ok(vec![entry("/srv", "big.png", false, 20 * 1024 * 1024), entry("/srv", "small.txt", false, 10)]),
    });
    s.on_key(key('j'));
    let cmds = s.on_key(key(' '));
    assert!(cmds.is_empty());
    assert_eq!(s.status.as_deref(), Some("too large to preview (20.0 MB, max 10.0 MB)"));
    s.on_key(key('j'));
    let cmds = s.on_key(key(' '));
    assert!(matches!(&cmds[..], [SftpCommand::PreparePreview { remote, name, size }]
        if remote == "/srv/small.txt" && name == "small.txt" && *size == 10));
}

#[test]
fn remote_pane_opens_in_the_start_directory() {
    let mut s = SftpScreen::new("web".into(), Some("logs".into()), "/home/me".into(), vec![]);
    let cmds = s.on_event(SftpEvent::Connected { remote_home: "/srv".into() });
    assert!(matches!(&cmds[..], [SftpCommand::Send(SftpRequest::ReadDir(p))] if p == "/srv/logs"));
    assert!(matches!(s.phase, Phase::Ready));
    assert!(s.remote.loading);

    let mut s = SftpScreen::new("web".into(), Some("/var/www".into()), "/home/me".into(), vec![]);
    let cmds = s.on_event(SftpEvent::Connected { remote_home: "/srv".into() });
    assert!(matches!(&cmds[..], [SftpCommand::Send(SftpRequest::ReadDir(p))] if p == "/var/www"));

    let mut s = SftpScreen::new("web".into(), Some("~".into()), "/home/me".into(), vec![]);
    let cmds = s.on_event(SftpEvent::Connected { remote_home: "/srv".into() });
    assert!(matches!(&cmds[..], [SftpCommand::Send(SftpRequest::ReadDir(p))] if p == "/srv"));
}
