use wheely_fast::scroll::{reports_frame_stats, scroll_offset, scroll_tiles};

#[test]
fn reports_every_hundred_frames() {
    assert!(reports_frame_stats(0));
    assert!(!reports_frame_stats(1));
    assert!(!reports_frame_stats(99));
    assert!(reports_frame_stats(100));
    assert!(reports_frame_stats(2500));
}

#[test]
fn scroll_column_and_offset() {
    let t = scroll_tiles();
    assert_eq!(t.len(), 150);
    assert_eq!(t[0], (190, 0));
    assert_eq!(t[2], (190, -900));
    assert_eq!(scroll_offset(12345), 1234);
}
