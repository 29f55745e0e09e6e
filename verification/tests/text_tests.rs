use wgsl_lsp::diagnostics::decode_span_offset;
use wgsl_lsp::text::calc_position;
use wgsl_lsp::text::calc_range;
use wgsl_lsp::text::find_in;
use wgsl_lsp::text::Position;

#[test]
fn position_at_start() {
    let p = calc_position("fn f() { }".as_bytes(), 0);
    assert_eq!(p, Position { line: 0, character: 0 });
}

#[test]
fn position_counts_lines_and_characters() {
    let p = calc_position("ab\ncd".as_bytes(), 4);
    assert_eq!(p, Position { line: 1, character: 1 });
}

#[test]
fn position_at_line_break() {
    let src = "one\ntwo\nthree".as_bytes();
    assert_eq!(calc_position(src, 3), Position { line: 0, character: 3 });
    assert_eq!(calc_position(src, 4), Position { line: 1, character: 0 });
    assert_eq!(calc_position(src, 8), Position { line: 2, character: 0 });
}

#[test]
fn position_counts_characters_not_bytes() {
    // "\u{e1}" encodes as two bytes; the column is a character count.
    let src = "\u{e1}\n\u{e1}b".as_bytes();
    assert_eq!(src.len(), 6);
    let p = calc_position(src, 6);
    assert_eq!(p, Position { line: 1, character: 2 });
}

#[test]
fn position_clamps_past_end() {
    let p = calc_position("ab".as_bytes(), 100);
    assert_eq!(p, Position { line: 0, character: 2 });
}

#[test]
fn range_spans_positions() {
    let r = calc_range("ab\ncd".as_bytes(), 1, 4);
    assert_eq!(r.start, Position { line: 0, character: 1 });
    assert_eq!(r.end, Position { line: 1, character: 1 });
}

#[test]
fn find_in_first_occurrence() {
    assert_eq!(find_in("hello world world".as_bytes(), "world".as_bytes()), Some(6));
    assert_eq!(find_in("hello".as_bytes(), "xyz".as_bytes()), None);
    assert_eq!(find_in("abc".as_bytes(), "".as_bytes()), Some(0));
    assert_eq!(find_in("ab".as_bytes(), "abc".as_bytes()), None);
}

#[test]
fn span_decoding_round_trips() {
    // A packed span holds the module index above bit 21 and an offset into
    // the concatenated buffer below; decoding against the file's base
    // offset must recover the local offset exactly.
    let source_offset: usize = 57;
    let local: usize = 100;
    let packed = (3usize << 21) | (local + source_offset);
    assert_eq!(decode_span_offset(packed, source_offset), local);
    let packed_end = (3usize << 21) | (local + 8 + source_offset);
    assert_eq!(decode_span_offset(packed_end, source_offset), local + 8);
}

#[test]
fn span_decoding_saturates_at_zero() {
    assert_eq!(decode_span_offset(5, 10), 0);
}
