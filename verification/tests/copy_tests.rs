use no_more_termius::copy::{copy_step, CopyAction, CopyEvent, CopyState, TransferError};

#[test]
fn clean_copy_renames_the_part_file() {
    let mut st = CopyState::new("/a/b/file.txt");
    assert_eq!(st.part, "/a/b/file.txt.part");
    assert!(matches!(copy_step(&mut st, CopyEvent::Opened(Ok(()))), CopyAction::ReadChunk));
    assert!(matches!(copy_step(&mut st, CopyEvent::Read(Ok(10))), CopyAction::WriteChunk(10)));
    assert!(matches!(copy_step(&mut st, CopyEvent::Written(Ok(()))), CopyAction::ReadChunk));
    assert_eq!(st.sent, 10);
    assert!(matches!(copy_step(&mut st, CopyEvent::Read(Ok(5))), CopyAction::WriteChunk(5)));
    assert!(matches!(copy_step(&mut st, CopyEvent::Written(Ok(()))), CopyAction::ReadChunk));
    match copy_step(&mut st, CopyEvent::Read(Ok(0))) {
        CopyAction::Finalize(p) => assert_eq!(p, "/a/b/file.txt.part"),
        _ => panic!("expected finalize"),
    }
    assert!(matches!(copy_step(&mut st, CopyEvent::Finalized(Ok(()))), CopyAction::Done(Ok(15))));
}

#[test]
fn cancel_and_failures_remove_the_part_file() {
    let mut st = CopyState::new("/x/f");
    copy_step(&mut st, CopyEvent::Opened(Ok(())));
    assert!(matches!(copy_step(&mut st, CopyEvent::Cancelled), CopyAction::RemovePart(ref p) if p == "/x/f.part"));
    assert!(matches!(copy_step(&mut st, CopyEvent::Removed), CopyAction::Done(Err(TransferError::Cancelled))));

    let mut st = CopyState::new("/x/f");
    copy_step(&mut st, CopyEvent::Opened(Ok(())));
    copy_step(&mut st, CopyEvent::Read(Ok(3)));
    assert!(matches!(copy_step(&mut st, CopyEvent::Written(Err("disk full".into()))), CopyAction::RemovePart(_)));
    match copy_step(&mut st, CopyEvent::Removed) {
        CopyAction::Done(Err(TransferError::Failed(e))) => assert_eq!(e, "write: disk full"),
        _ => panic!("expected failure"),
    }
    assert_eq!(st.sent, 0);

    let mut st = CopyState::new("/x/f");
    copy_step(&mut st, CopyEvent::Opened(Ok(())));
    assert!(matches!(copy_step(&mut st, CopyEvent::Read(Err("io".into()))), CopyAction::RemovePart(_)));
    assert!(matches!(copy_step(&mut st, CopyEvent::Removed), CopyAction::Done(Err(TransferError::Failed(ref e))) if e == "read: io"));
}

#[test]
fn open_and_rename_failures_end_the_copy() {
    let mut st = CopyState::new("/x/f");
    assert!(matches!(copy_step(&mut st, CopyEvent::Opened(Err("no such file".into()))), CopyAction::Done(Err(TransferError::Failed(ref e))) if e == "no such file"));
    let mut st = CopyState::new("/x/f");
    copy_step(&mut st, CopyEvent::Opened(Ok(())));
    copy_step(&mut st, CopyEvent::Read(Ok(0)));
    assert!(matches!(copy_step(&mut st, CopyEvent::Finalized(Err("busy".into()))), CopyAction::Done(Err(TransferError::Failed(ref e))) if e == "busy"));
    assert!(st.expects(&CopyEvent::Removed) == false);
}
