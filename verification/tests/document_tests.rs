use mips_language_server::document::{ContentChange, Document, DocumentError, document_line};
use mips_language_server::tree::{Position, TextRange, byte_offset};

fn pos(line: u32, character: u32) -> Position {
    Position { line, character }
}

fn range(sl: u32, sc: u32, el: u32, ec: u32) -> TextRange {
    TextRange { start: pos(sl, sc), end: pos(el, ec) }
}

fn incremental(r: TextRange, text: &str) -> ContentChange {
    ContentChange { range: Some(r), text: text.as_bytes().to_vec() }
}

fn full(text: &str) -> ContentChange {
    ContentChange { range: None, text: text.as_bytes().to_vec() }
}

#[test]
fn byte_offset_sums_lines() {
    let text = b"add $t0, $t1, $t2\nsub $t3, $t4, $t5\n".to_vec();
    assert_eq!(byte_offset(&text, pos(0, 0)), 0);
    assert_eq!(byte_offset(&text, pos(0, 4)), 4);
    assert_eq!(byte_offset(&text, pos(1, 0)), 18);
    assert_eq!(byte_offset(&text, pos(1, 3)), 21);
}

#[test]
fn document_line_extraction() {
    let text = b"add $t0\nsub $t1\r\nlast".to_vec();
    assert_eq!(document_line(&text, 0).unwrap(), b"add $t0".to_vec());
    assert_eq!(document_line(&text, 1).unwrap(), b"sub $t1".to_vec());
    assert_eq!(document_line(&text, 2).unwrap(), b"last".to_vec());
    assert!(document_line(&text, 3).is_none());
    assert!(document_line(&Vec::new(), 0).is_none());
}

#[test]
fn open_records_text_and_version() {
    let doc = Document::open(b"add $t0, $t1, $t2\n".to_vec(), 1);
    assert_eq!(doc.version, 1);
    assert_eq!(doc.text, b"add $t0, $t1, $t2\n".to_vec());
}

#[test]
fn incremental_change_splices_text() {
    let mut doc = Document::open(b"add $t0, $t1, $t2\n".to_vec(), 1);
    // Replace "add" with "sub".
    let r = doc.apply_changes(2, vec![incremental(range(0, 0, 0, 3), "sub")]);
    assert!(r.is_ok());
    assert_eq!(doc.text, b"sub $t0, $t1, $t2\n".to_vec());
    assert_eq!(doc.version, 2);
}

#[test]
fn batched_changes_apply_in_order() {
    let mut doc = Document::open(b"add $t0\n".to_vec(), 1);
    let r = doc.apply_changes(
        2,
        vec![
            incremental(range(0, 0, 0, 3), "sub"),
            incremental(range(0, 4, 0, 7), "$t9"),
        ],
    );
    assert!(r.is_ok());
    assert_eq!(doc.text, b"sub $t9\n".to_vec());
}

/// Monotonicity: a change notification with a version at or below the stored
/// one leaves text and tree untouched.
#[test]
fn stale_version_is_discarded() {
    let mut doc = Document::open(b"add $t0\n".to_vec(), 5);
    let r = doc.apply_changes(5, vec![full("sub $t1\n")]);
    assert!(r.is_ok());
    assert_eq!(doc.text, b"add $t0\n".to_vec());
    assert_eq!(doc.version, 5);
    let r = doc.apply_changes(4, vec![full("sub $t1\n")]);
    assert!(r.is_ok());
    assert_eq!(doc.text, b"add $t0\n".to_vec());
    assert_eq!(doc.version, 5);
}

#[test]
fn newer_version_advances() {
    let mut doc = Document::open(b"add $t0\n".to_vec(), 1);
    doc.apply_changes(7, vec![full("sub $t1\n")]).unwrap();
    assert_eq!(doc.version, 7);
    assert_eq!(doc.text, b"sub $t1\n".to_vec());
}

/// Reapplying the identical full-text change twice leaves the document in
/// the state a from-scratch parse of that text produces.
#[test]
fn full_change_twice_is_idempotent() {
    let mut doc = Document::open(b"add $t0\n".to_vec(), 1);
    doc.apply_changes(2, vec![full("sub $t1, $t2, $t3\n")]).unwrap();
    let text_once = doc.text.clone();
    doc.apply_changes(3, vec![full("sub $t1, $t2, $t3\n")]).unwrap();
    assert_eq!(doc.text, text_once);
    assert_eq!(doc.version, 3);
}

/// A change whose computed end offset is not strictly below the text length
/// is dropped as corrupt; the document keeps its last consistent state.
#[test]
fn corrupt_range_is_dropped() {
    let mut doc = Document::open(b"add\n".to_vec(), 1);
    let r = doc.apply_changes(2, vec![incremental(range(0, 0, 9, 9), "x")]);
    assert_eq!(r.unwrap_err(), DocumentError::OffsetCorruption);
    assert_eq!(doc.text, b"add\n".to_vec());
    // The version still advances: the notification itself was consumed.
    assert_eq!(doc.version, 2);
}

#[test]
fn corrupt_change_does_not_stop_later_ones() {
    let mut doc = Document::open(b"add $t0\n".to_vec(), 1);
    let r = doc.apply_changes(
        2,
        vec![
            incremental(range(0, 0, 9, 9), "x"),
            incremental(range(0, 0, 0, 3), "sub"),
        ],
    );
    assert_eq!(r.unwrap_err(), DocumentError::OffsetCorruption);
    assert_eq!(doc.text, b"sub $t0\n".to_vec());
}
