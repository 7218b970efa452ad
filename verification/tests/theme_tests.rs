use no_more_termius::graphics::EncodedImage;
use no_more_termius::help::{centered_rect, Rect};
use no_more_termius::theme::{image_modal_area, status_is_error};

#[test]
fn error_statuses() {
    assert!(status_is_error("transfer failed: timeout"));
    assert!(status_is_error("cannot overwrite: /x is a directory"));
    assert!(status_is_error("some error here"));
    assert!(!status_is_error("Uploaded a.txt (1.0 KB)"));
    assert!(!status_is_error(""));
}

#[test]
fn centered_boxes() {
    let area = Rect { x: 0, y: 0, width: 80, height: 24 };
    assert!(centered_rect(20, 10, area) == Rect { x: 30, y: 7, width: 20, height: 10 });
    // Shrunk to fit.
    assert!(centered_rect(200, 100, area) == Rect { x: 0, y: 0, width: 80, height: 24 });
    let img = EncodedImage { b64: String::new(), cols: 10, rows: 4 };
    assert!(image_modal_area(&img, area) == Rect { x: 34, y: 9, width: 12, height: 6 });
}
