use remote_log::wire::{build_body, build_line, fmt_u32, level_label, Level};
use remote_log::writer::{build_lost_warning, build_reached_warning};

#[test]
fn decimal_rendering() {
    assert_eq!(fmt_u32(0), b"0".to_vec());
    assert_eq!(fmt_u32(7), b"7".to_vec());
    assert_eq!(fmt_u32(10), b"10".to_vec());
    assert_eq!(fmt_u32(1234), b"1234".to_vec());
    assert_eq!(fmt_u32(u32::MAX), b"4294967295".to_vec());
}

#[test]
fn level_labels() {
    assert_eq!(level_label(Level::Error), b"ERROR".to_vec());
    assert_eq!(level_label(Level::Warn), b"WARN".to_vec());
    assert_eq!(level_label(Level::Info), b"INFO".to_vec());
    assert_eq!(level_label(Level::Debug), b"DEBUG".to_vec());
    assert_eq!(level_label(Level::Trace), b"TRACE".to_vec());
}

#[test]
fn body_with_source_location() {
    let body = build_body(Level::Error, &Some(("src/main.rs".to_string(), 42)), "boom");
    assert_eq!(body, b"[ERROR] src/main.rs:42 boom".to_vec());
}

#[test]
fn body_without_source_location() {
    let body = build_body(Level::Info, &None, "hello");
    assert_eq!(body, b"[INFO] hello".to_vec());
}

#[test]
fn framed_line_appends_newline() {
    let header = vec![1u8, 2u8];
    let ts = b"2024-01-01T00:00:00+00:00".to_vec();
    let msg = b"m".to_vec();
    let line = build_line(&header, &ts, "host", "tag", 7, &msg);
    let mut expected = vec![1u8, 2u8];
    expected.extend_from_slice(b"2024-01-01T00:00:00+00:00 host tag[7]: m\n");
    assert_eq!(line, expected);
}

#[test]
fn framed_line_keeps_existing_newline() {
    let header: Vec<u8> = Vec::new();
    let ts = b"T".to_vec();
    let msg = b"m\n".to_vec();
    let line = build_line(&header, &ts, "h", "t", 1, &msg);
    assert_eq!(line, b"T h t[1]: m\n".to_vec());
    assert_eq!(line.iter().filter(|&&b| b == b'\n').count(), 1);
}

#[test]
fn warning_lines_exact() {
    assert_eq!(
        build_lost_warning(2),
        b"[WARN] Log threshold exceeded, lost 2 logs.".to_vec()
    );
    assert_eq!(
        build_reached_warning(3),
        b"[WARN] Log threshold is exceeding, current config is 3.".to_vec()
    );
}
