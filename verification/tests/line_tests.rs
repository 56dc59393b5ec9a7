use line_editor::line::Line;

#[test]
fn test_insert_character() {
    let mut line: Line = Line::from("test insert character ");
    let line_width = line.fragments.len();
    line.insert_character('!', line_width);
    assert_eq!(line_width.saturating_add(1), line.fragments.len());
}

#[test]
fn test_suppr_character() {
    let mut line: Line = Line::from("test suppr character");
    let line_width = line.grapheme_count();
    line.delete(0);
    assert_eq!(line_width.saturating_sub(1), line.fragments.len());
}

#[test]
fn test_supp_character_out_of_line() {
    let mut line: Line = Line::from("test suppr character");
    let line_width = line.grapheme_count();
    line.delete(line.grapheme_count());
    assert_eq!(line_width, line.fragments.len());
    line.delete(line.grapheme_count().saturating_add(10));
    assert_eq!(line_width, line.fragments.len());
}

#[test]
fn test_tab() {
    let mut line: Line = Line::from("a");
    assert_eq!(line.grapheme_count(), 1);
    line.insert_character('\t', 0);
    assert_eq!(line.grapheme_count(), 2);
}

#[test]
fn plain_text_round_trips() {
    let text = "plain ascii text, with space and\ttab";
    let line = Line::from(text);
    assert_eq!(line.to_string(), text);
}

#[test]
fn accented_text_round_trips() {
    let text = "re\u{301}sume\u{301}";
    let line = Line::from(text);
    assert_eq!(line.to_string(), text);
}

#[test]
fn grapheme_count_counts_clusters_not_chars() {
    let line = Line::from("e\u{301}");
    assert_eq!(line.grapheme_count(), 1);
    let flags = Line::from("a\u{310}e\u{301}o\u{308}\u{332}");
    assert_eq!(flags.grapheme_count(), 3);
}

#[test]
fn split_then_append_restores_text() {
    let text = "hello world";
    for k in 0..=text.len() {
        let mut line = Line::from(text);
        let suffix = line.split_at(k);
        line.append(&suffix);
        assert_eq!(line.to_string(), text);
    }
}

#[test]
fn split_past_end_keeps_line() {
    let mut line = Line::from("abc");
    let suffix = line.split_at(7);
    assert_eq!(line.to_string(), "abc");
    assert_eq!(suffix.grapheme_count(), 0);
}

#[test]
fn width_until_is_monotonic() {
    let line = Line::from("a\u{3042}b\u{3044}c");
    let mut previous = 0;
    for k in 0..=line.grapheme_count() + 2 {
        let w = line.width_until(k);
        assert!(w >= previous);
        previous = w;
    }
}

#[test]
fn width_until_counts_full_width_as_two() {
    let line = Line::from("a\u{3042}b");
    assert_eq!(line.width_until(0), 0);
    assert_eq!(line.width_until(1), 1);
    assert_eq!(line.width_until(2), 3);
    assert_eq!(line.width_until(3), 4);
}

#[test]
fn insert_builds_expected_text() {
    let mut line = Line::from("ab");
    line.insert_character('x', 1);
    assert_eq!(line.to_string(), "axb");
    let mut end = Line::from("ab");
    end.insert_character('x', 9);
    assert_eq!(end.to_string(), "abx");
}

#[test]
fn visible_graphemes_plain_slice() {
    let line = Line::from("abcdef");
    assert_eq!(line.get_visible_graphemes(1..4), "bcd");
    assert_eq!(line.get_visible_graphemes(0..6), "abcdef");
    assert_eq!(line.get_visible_graphemes(4..4), "");
    assert_eq!(line.get_visible_graphemes(5..2), "");
}

#[test]
fn visible_graphemes_marks_straddling_fragment() {
    // One half of the full-width character lies outside the range on either
    // side, so an ellipsis marker stands in for it.
    let line = Line::from("\u{3042}\u{3044}");
    assert_eq!(line.get_visible_graphemes(1..3), "\u{22ef}\u{22ef}");
    assert_eq!(line.get_visible_graphemes(1..4), "\u{22ef}\u{3044}");
    assert_eq!(line.get_visible_graphemes(0..4), "\u{3042}\u{3044}");
    assert_eq!(line.get_visible_graphemes(0..3), "\u{3042}\u{22ef}");
}

#[test]
fn replacement_glyphs_render_instead_of_graphemes() {
    // A non-space whitespace renders as the visible-space marker, a control
    // character as the control marker, a zero-width cluster as a dot.
    let nbsp = Line::from("\u{a0}");
    assert_eq!(nbsp.get_visible_graphemes(0..5), "\u{2423}");
    let bell = Line::from("\u{7}");
    assert_eq!(bell.get_visible_graphemes(0..5), "\u{25af}");
    let zero_width = Line::from("\u{200d}");
    assert_eq!(zero_width.get_visible_graphemes(0..5), ".");
    let plain = Line::from("x y");
    assert_eq!(plain.get_visible_graphemes(0..5), "x y");
}
