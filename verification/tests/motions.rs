use vi_command::model::{Motion, Span};
use vi_command::motion::{
    find_line_end, lines_span, motion_span, motion_target, selection_span, step,
};

fn chars(s: &str) -> Vec<char> {
    s.chars().collect()
}

fn span(start: usize, end: usize) -> Span {
    Span { start, end }
}

#[test]
fn left_and_right_stay_on_the_line() {
    let text = chars("ab\ncd");
    assert_eq!(step(&text, 1, Motion::Left), 0);
    assert_eq!(step(&text, 0, Motion::Left), 0);
    assert_eq!(step(&text, 3, Motion::Left), 3);
    assert_eq!(step(&text, 0, Motion::Right), 1);
    assert_eq!(step(&text, 1, Motion::Right), 2);
    assert_eq!(step(&text, 2, Motion::Right), 2);
    assert_eq!(step(&text, 5, Motion::Right), 5);
    assert_eq!(motion_target(&text, 0, Motion::Right, 9), 2);
}

#[test]
fn up_and_down_keep_the_column() {
    let text = chars("abcd\nx\nefgh");
    assert_eq!(step(&text, 3, Motion::Down), 6);
    assert_eq!(step(&text, 0, Motion::Down), 5);
    assert_eq!(step(&text, 5, Motion::Down), 7);
    assert_eq!(step(&text, 9, Motion::Down), 9);
    assert_eq!(step(&text, 9, Motion::Up), 6);
    assert_eq!(step(&text, 7, Motion::Up), 5);
    assert_eq!(step(&text, 5, Motion::Up), 0);
    assert_eq!(step(&text, 2, Motion::Up), 2);
    assert_eq!(motion_target(&text, 0, Motion::Down, 2), 7);
}

#[test]
fn word_motions() {
    let text = chars("foo, bar  baz");
    assert_eq!(step(&text, 0, Motion::WordForward), 3);
    assert_eq!(step(&text, 3, Motion::WordForward), 5);
    assert_eq!(step(&text, 5, Motion::WordForward), 10);
    assert_eq!(step(&text, 10, Motion::WordForward), 13);
    assert_eq!(step(&text, 13, Motion::WordForward), 13);
    assert_eq!(step(&text, 0, Motion::BigWordForward), 5);
    assert_eq!(step(&text, 12, Motion::WordBackward), 10);
    assert_eq!(step(&text, 10, Motion::WordBackward), 5);
    assert_eq!(step(&text, 5, Motion::WordBackward), 3);
    assert_eq!(step(&text, 3, Motion::WordBackward), 0);
    assert_eq!(step(&text, 0, Motion::WordBackward), 0);
    assert_eq!(step(&text, 5, Motion::BigWordBackward), 0);
    assert_eq!(step(&text, 0, Motion::WordEnd), 2);
    assert_eq!(step(&text, 2, Motion::WordEnd), 3);
    assert_eq!(step(&text, 3, Motion::WordEnd), 7);
    assert_eq!(step(&text, 0, Motion::BigWordEnd), 3);
    assert_eq!(step(&text, 12, Motion::WordEnd), 12);
    assert_eq!(step(&text, 11, Motion::WordEndBackward), 7);
    assert_eq!(step(&text, 6, Motion::WordEndBackward), 3);
    assert_eq!(step(&text, 1, Motion::WordEndBackward), 1);
    assert_eq!(motion_target(&text, 0, Motion::WordForward, 3), 10);
    assert_eq!(motion_target(&text, 0, Motion::WordForward, u32::MAX), 13);
}

#[test]
fn line_motions() {
    let text = chars("ab\n  cd \n\nef");
    assert_eq!(step(&text, 6, Motion::LineStart), 3);
    assert_eq!(step(&text, 6, Motion::FirstNonBlank), 5);
    assert_eq!(step(&text, 3, Motion::LineEnd), 7);
    assert_eq!(step(&text, 9, Motion::LineEnd), 9);
    assert_eq!(step(&text, 9, Motion::FirstNonBlank), 9);
    assert_eq!(step(&text, 6, Motion::BufferStart), 0);
    assert_eq!(step(&text, 0, Motion::BufferEnd), 10);
    assert_eq!(find_line_end(&text, 3), 8);
    assert_eq!(find_line_end(&text, 10), 12);
}

#[test]
fn paragraph_motions_stop_at_empty_lines() {
    let text = chars("ab\ncd\n\nef\n\ngh");
    assert_eq!(step(&text, 0, Motion::ParagraphForward), 6);
    assert_eq!(step(&text, 6, Motion::ParagraphForward), 10);
    assert_eq!(step(&text, 10, Motion::ParagraphForward), 13);
    assert_eq!(step(&text, 12, Motion::ParagraphBackward), 10);
    assert_eq!(step(&text, 10, Motion::ParagraphBackward), 6);
    assert_eq!(step(&text, 6, Motion::ParagraphBackward), 0);
}

#[test]
fn matching_bracket_jumps_both_ways() {
    let text = chars("f(a[1], {b})x");
    assert_eq!(step(&text, 1, Motion::MatchingBracket), 11);
    assert_eq!(step(&text, 11, Motion::MatchingBracket), 1);
    assert_eq!(step(&text, 3, Motion::MatchingBracket), 5);
    assert_eq!(step(&text, 10, Motion::MatchingBracket), 8);
    assert_eq!(step(&text, 0, Motion::MatchingBracket), 0);
    assert_eq!(step(&chars("(("), 0, Motion::MatchingBracket), 0);
}

#[test]
fn character_searches_stay_on_the_line() {
    let text = chars("abcabc\nabc");
    assert_eq!(step(&text, 0, Motion::FindForward('c')), 2);
    assert_eq!(step(&text, 2, Motion::FindForward('c')), 5);
    assert_eq!(step(&text, 5, Motion::FindForward('c')), 5);
    assert_eq!(step(&text, 0, Motion::FindForward('a')), 3);
    assert_eq!(step(&text, 0, Motion::TillForward('c')), 1);
    assert_eq!(step(&text, 5, Motion::FindBackward('a')), 3);
    assert_eq!(step(&text, 3, Motion::FindBackward('a')), 0);
    assert_eq!(step(&text, 5, Motion::TillBackward('a')), 4);
    assert_eq!(step(&text, 7, Motion::FindBackward('c')), 7);
    assert_eq!(motion_target(&text, 0, Motion::FindForward('c'), 2), 5);
    assert_eq!(motion_target(&text, 0, Motion::FindForward('c'), 3), 5);
}

#[test]
fn spans_of_motions() {
    let text = chars("foo bar\nbaz qux\nend");
    assert_eq!(motion_span(&text, 0, Motion::WordForward, 1), span(0, 4));
    assert_eq!(motion_span(&text, 0, Motion::WordEnd, 1), span(0, 3));
    assert_eq!(motion_span(&text, 4, Motion::WordBackward, 1), span(0, 4));
    assert_eq!(motion_span(&text, 0, Motion::LineEnd, 1), span(0, 7));
    assert_eq!(motion_span(&text, 5, Motion::LineStart, 1), span(0, 5));
    assert_eq!(motion_span(&text, 9, Motion::Down, 1), span(8, 19));
    assert_eq!(motion_span(&text, 9, Motion::Up, 1), span(0, 16));
    assert_eq!(motion_span(&text, 9, Motion::BufferStart, 1), span(0, 16));
    assert_eq!(motion_span(&text, 9, Motion::BufferEnd, 1), span(8, 19));
    assert_eq!(motion_span(&text, 0, Motion::FindForward('z'), 1), span(0, 0));
    assert_eq!(motion_span(&text, 99, Motion::Left, 1), span(18, 19));
    assert_eq!(motion_span(&[], 0, Motion::WordForward, 1), span(0, 0));
}

#[test]
fn spans_of_lines_and_selections() {
    let text = chars("one\ntwo\nthree");
    assert_eq!(lines_span(&text, 5, 1), span(4, 8));
    assert_eq!(lines_span(&text, 5, 2), span(4, 13));
    assert_eq!(lines_span(&text, 5, 9), span(4, 13));
    assert_eq!(lines_span(&text, 0, 0), span(0, 4));
    assert_eq!(lines_span(&text, 99, 1), span(8, 13));
    assert_eq!(selection_span(&text, 1, 5, false), span(1, 6));
    assert_eq!(selection_span(&text, 5, 1, false), span(1, 6));
    assert_eq!(selection_span(&text, 5, 5, false), span(5, 6));
    assert_eq!(selection_span(&text, 1, 5, true), span(0, 8));
    assert_eq!(selection_span(&text, 9, 99, true), span(8, 13));
    assert_eq!(selection_span(&text, 13, 13, false), span(13, 13));
}

#[test]
fn positions_past_the_end_are_the_end() {
    let text = chars("ab\ncd");
    assert_eq!(step(&text, 99, Motion::Left), 4);
    assert_eq!(step(&text, 99, Motion::LineStart), 3);
    assert_eq!(step(&text, 99, Motion::WordForward), 5);
    assert_eq!(find_line_end(&text, 99), 5);
    assert_eq!(motion_target(&text, 99, Motion::Up, 1), 2);
}

#[test]
fn which_motions_are_inclusive() {
    for motion in [
        Motion::WordEnd,
        Motion::BigWordEnd,
        Motion::WordEndBackward,
        Motion::LineEnd,
        Motion::MatchingBracket,
        Motion::FindForward('a'),
        Motion::TillForward('a'),
        Motion::Up,
        Motion::Down,
        Motion::BufferStart,
        Motion::BufferEnd,
    ] {
        assert!(motion.is_inclusive());
    }
    for motion in [
        Motion::Left,
        Motion::Right,
        Motion::WordForward,
        Motion::WordBackward,
        Motion::BigWordForward,
        Motion::BigWordBackward,
        Motion::LineStart,
        Motion::FirstNonBlank,
        Motion::ParagraphForward,
        Motion::ParagraphBackward,
        Motion::FindBackward('a'),
        Motion::TillBackward('a'),
    ] {
        assert!(!motion.is_inclusive());
    }
}
