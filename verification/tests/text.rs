use taskboard::text::is_blank;

#[test]
fn the_empty_text_is_blank() {
    assert!(is_blank(""));
}

#[test]
fn white_space_is_blank() {
    assert!(is_blank(" "));
    assert!(is_blank(" \t\r\n"));
    assert!(is_blank("\u{a0}\u{2003}\u{3000}"));
}

#[test]
fn a_text_with_a_letter_is_not_blank() {
    assert!(!is_blank("Buy milk"));
    assert!(!is_blank("  x  "));
    assert!(!is_blank("\u{200b}"));
}
