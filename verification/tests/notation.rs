use vi_command::keys::{
    chars_of, parse_key_chars, parse_key_events, KeyCode, KeyEvent, NotationError, ALT, CONTROL,
    META, SHIFT,
};

fn key(code: KeyCode, modifiers: u8) -> KeyEvent {
    KeyEvent { code, modifiers }
}

#[test]
fn parse_key_seq() {
    assert_eq!(
        parse_key_events("<C-S-C><A-M-ESC>\\<ESC\\>\\\\<CR>").unwrap(),
        vec![
            key(KeyCode::Char('C'), CONTROL | SHIFT),
            key(KeyCode::Esc, META | ALT),
            key(KeyCode::Char('<'), 0),
            key(KeyCode::Char('E'), 0),
            key(KeyCode::Char('S'), 0),
            key(KeyCode::Char('C'), 0),
            key(KeyCode::Char('>'), 0),
            key(KeyCode::Char('\\'), 0),
            key(KeyCode::Enter, 0),
        ]
    );
}

#[test]
fn modifier_bits_are_distinct() {
    assert_eq!(SHIFT, 1);
    assert_eq!(CONTROL, 2);
    assert_eq!(ALT, 4);
    assert_eq!(META, 32);
    assert_eq!(CONTROL | SHIFT | ALT | META, 39);
}

#[test]
fn empty_notation_is_no_keys() {
    assert_eq!(parse_key_events(""), Ok(vec![]));
}

#[test]
fn plain_characters_are_keys() {
    assert_eq!(
        parse_key_events("d2w"),
        Ok(vec![
            key(KeyCode::Char('d'), 0),
            key(KeyCode::Char('2'), 0),
            key(KeyCode::Char('w'), 0),
        ])
    );
}

#[test]
fn unescaped_closing_bracket_is_a_character() {
    assert_eq!(parse_key_events(">"), Ok(vec![key(KeyCode::Char('>'), 0)]));
}

#[test]
fn named_keys_in_brackets() {
    assert_eq!(
        parse_key_events("<ESC><CR>"),
        Ok(vec![key(KeyCode::Esc, 0), key(KeyCode::Enter, 0)])
    );
}

#[test]
fn repeated_modifier_folds_to_one_bit() {
    assert_eq!(
        parse_key_events("<C-C-x>"),
        Ok(vec![key(KeyCode::Char('x'), CONTROL)])
    );
}

#[test]
fn modifiers_in_any_order() {
    assert_eq!(parse_key_events("<S-C-x>"), parse_key_events("<C-S-x>"));
    assert_eq!(
        parse_key_events("<M-A-S-C-CR>"),
        Ok(vec![key(KeyCode::Enter, CONTROL | SHIFT | ALT | META)])
    );
}

#[test]
fn modified_dash_and_closing_bracket() {
    assert_eq!(
        parse_key_events("<C-->"),
        Ok(vec![key(KeyCode::Char('-'), CONTROL)])
    );
    assert_eq!(
        parse_key_events("<C->>"),
        Ok(vec![key(KeyCode::Char('>'), CONTROL)])
    );
    assert_eq!(
        parse_key_events("<C-\\<>"),
        Ok(vec![key(KeyCode::Char('<'), CONTROL)])
    );
}

#[test]
fn special_name_wins_over_character_after_modifier() {
    assert_eq!(
        parse_key_events("<C-CR>"),
        Ok(vec![key(KeyCode::Enter, CONTROL)])
    );
    assert_eq!(
        parse_key_events("<S-E>"),
        Ok(vec![key(KeyCode::Char('E'), SHIFT)])
    );
}

#[test]
fn notation_errors_name_the_failing_index() {
    assert_eq!(parse_key_events("<C-S->"), Err(NotationError { at: 0 }));
    assert_eq!(parse_key_events("<X>"), Err(NotationError { at: 0 }));
    assert_eq!(parse_key_events("<C-x"), Err(NotationError { at: 0 }));
    assert_eq!(parse_key_events("<"), Err(NotationError { at: 0 }));
    assert_eq!(parse_key_events("a\\b"), Err(NotationError { at: 1 }));
    assert_eq!(parse_key_events("ab\\"), Err(NotationError { at: 2 }));
    assert_eq!(parse_key_events("ab<ESC"), Err(NotationError { at: 2 }));
    assert_eq!(parse_key_events("<C-xy>"), Err(NotationError { at: 0 }));
    assert_eq!(parse_key_events("<ESC><esc>"), Err(NotationError { at: 5 }));
}

#[test]
fn escapes_round_trip() {
    assert_eq!(
        parse_key_events("\\<\\>\\\\"),
        Ok(vec![
            key(KeyCode::Char('<'), 0),
            key(KeyCode::Char('>'), 0),
            key(KeyCode::Char('\\'), 0),
        ])
    );
}

#[test]
fn non_ascii_characters_count_as_one_key() {
    assert_eq!(
        parse_key_events("é<C-ß>"),
        Ok(vec![
            key(KeyCode::Char('é'), 0),
            key(KeyCode::Char('ß'), CONTROL),
        ])
    );
    assert_eq!(parse_key_events("éé<"), Err(NotationError { at: 2 }));
}

#[test]
fn chars_of_keeps_every_character() {
    assert_eq!(chars_of("a<é>"), vec!['a', '<', 'é', '>']);
    assert_eq!(chars_of(""), Vec::<char>::new());
}

#[test]
fn parse_key_chars_agrees_with_parse_key_events() {
    let text = "<C-S-C>x\\<<CR>";
    assert_eq!(parse_key_chars(&chars_of(text)), parse_key_events(text));
}
