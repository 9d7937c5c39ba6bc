use vi_command::keys::{parse_key_events, KeyEvent};
use vi_command::model::{
    Command, EditAction, Mode, Motion, Operator, Outcome, PendingState, Span, Target, TextObject,
};
use vi_command::text_object::remove_span;
use vi_command::vi::Vi;

fn keys(s: &str) -> Vec<KeyEvent> {
    parse_key_events(s).unwrap()
}

fn chars(s: &str) -> Vec<char> {
    s.chars().collect()
}

fn idle() -> PendingState {
    PendingState { count_buffer: None, pending_operator: None, pending_register: None }
}

fn in_mode(mode: Mode) -> Vi {
    Vi { mode, pending: idle(), anchor: 0 }
}

fn span(start: usize, end: usize) -> Span {
    Span { start, end }
}

/// A small editor around the state machine: it keeps the text, the cursor
/// and one register, and carries out the actions it is given.
struct Editor {
    vi: Vi,
    text: Vec<char>,
    cursor: usize,
    register: Vec<char>,
    buffer: Vec<KeyEvent>,
    outcomes: Vec<Outcome>,
    actions: Vec<EditAction>,
}

fn editor(mode: Mode, text: &str, cursor: usize) -> Editor {
    Editor {
        vi: Vi::new(mode),
        text: chars(text),
        cursor,
        register: Vec::new(),
        buffer: Vec::new(),
        outcomes: Vec::new(),
        actions: Vec::new(),
    }
}

fn apply(ed: &mut Editor, action: EditAction) {
    match action {
        EditAction::MoveCursor(to) => ed.cursor = to,
        EditAction::Select(_) => {}
        EditAction::Delete { span, .. } => {
            ed.register = remove_span(&mut ed.text, span);
            ed.cursor = span.start;
        }
        EditAction::Yank { span, .. } => ed.register = ed.text[span.start..span.end].to_vec(),
        EditAction::InsertText(c) => {
            ed.text.insert(ed.cursor, c);
            ed.cursor += 1;
        }
        EditAction::Overwrite(c) => {
            if ed.cursor < ed.text.len() {
                ed.text[ed.cursor] = c;
            }
        }
        EditAction::SwitchMode(_) => {}
    }
}

fn type_keys(ed: &mut Editor, notation: &str) {
    for key in keys(notation) {
        ed.buffer.push(key);
        let (outcome, actions) = ed.vi.feed(&ed.buffer, &ed.text, ed.cursor);
        if outcome != Outcome::Pending {
            ed.buffer.clear();
        }
        ed.outcomes.push(outcome);
        for action in actions {
            apply(ed, action);
            ed.actions.push(action);
        }
    }
}

fn text_of(ed: &Editor) -> String {
    ed.text.iter().collect()
}

#[test]
fn new_state_has_nothing_pending() {
    assert_eq!(Vi::new(Mode::Insert), in_mode(Mode::Insert));
    assert_eq!(Vi::new(Mode::Normal), in_mode(Mode::Normal));
    assert_eq!(Vi::new(Mode::OperatorPending), in_mode(Mode::Normal));
}

#[test]
fn visual_motion_delete_ends_in_normal() {
    let mut ed = editor(Mode::Normal, "foo bar", 0);
    type_keys(&mut ed, "vwd");
    assert_eq!(ed.outcomes, vec![Outcome::Applied, Outcome::Applied, Outcome::Applied]);
    assert_eq!(
        ed.actions,
        vec![
            EditAction::SwitchMode(Mode::Visual),
            EditAction::MoveCursor(4),
            EditAction::Select(span(0, 5)),
            EditAction::Delete { span: span(0, 5), register: '"' },
            EditAction::SwitchMode(Mode::Normal),
        ]
    );
    assert_eq!(text_of(&ed), "ar");
    assert_eq!(ed.vi.mode, Mode::Normal);
    assert_eq!(ed.vi.pending, idle());
}

#[test]
fn visual_selection_runs_from_the_anchor_either_way() {
    let mut ed = editor(Mode::Normal, "foo bar baz", 4);
    type_keys(&mut ed, "vb");
    assert_eq!(ed.vi.anchor, 4);
    assert_eq!(ed.actions[1..], [EditAction::MoveCursor(0), EditAction::Select(span(0, 5))]);
    type_keys(&mut ed, "y");
    assert_eq!(ed.register, chars("foo b"));
    assert_eq!(text_of(&ed), "foo bar baz");
    assert_eq!(ed.vi.mode, Mode::Normal);
}

#[test]
fn visual_line_takes_whole_lines() {
    let mut ed = editor(Mode::Normal, "one\ntwo\nthree", 5);
    type_keys(&mut ed, "<S-V>");
    assert_eq!(ed.vi.mode, Mode::VisualLine);
    type_keys(&mut ed, "k");
    assert_eq!(ed.actions[1..], [EditAction::MoveCursor(1), EditAction::Select(span(0, 8))]);
    assert_eq!(ed.vi.mode, Mode::VisualLine);
    type_keys(&mut ed, "d");
    assert_eq!(text_of(&ed), "three");
    assert_eq!(ed.vi.mode, Mode::Normal);
}

#[test]
fn operator_then_escape_changes_nothing() {
    let mut vi = Vi::new(Mode::Normal);
    let text = chars("foo bar");
    let (first, none) = vi.feed(&keys("d"), &text, 0);
    assert_eq!(first, Outcome::Pending);
    assert_eq!(none, vec![]);
    assert_eq!(vi.mode, Mode::OperatorPending);
    assert_eq!(vi.pending.pending_operator, Some(Operator::Delete));
    let (second, actions) = vi.feed(&keys("d<ESC>"), &text, 0);
    assert_eq!(second, Outcome::Cancelled);
    assert_eq!(actions, vec![]);
    assert_eq!(vi, in_mode(Mode::Normal));
    let mut ed = editor(Mode::Normal, "foo bar", 0);
    type_keys(&mut ed, "d<ESC>");
    assert_eq!(text_of(&ed), "foo bar");
    assert_eq!(ed.vi, in_mode(Mode::Normal));
}

#[test]
fn escape_leaves_every_mode_for_normal() {
    for mode in [Mode::Insert, Mode::Visual, Mode::VisualLine, Mode::Replace] {
        let mut vi = in_mode(mode);
        let (outcome, actions) = vi.feed(&keys("<ESC>"), &[], 0);
        assert_eq!(outcome, Outcome::Cancelled);
        assert_eq!(actions, vec![EditAction::SwitchMode(Mode::Normal)]);
        assert_eq!(vi, in_mode(Mode::Normal));
    }
    let mut vi = in_mode(Mode::Normal);
    assert_eq!(vi.feed(&keys("2<ESC>"), &[], 0), (Outcome::Cancelled, vec![]));
    assert_eq!(vi, in_mode(Mode::Normal));
    let mut again = in_mode(Mode::Visual);
    assert_eq!(again.cancel(), vec![EditAction::SwitchMode(Mode::Normal)]);
    assert_eq!(again, in_mode(Mode::Normal));
}

#[test]
fn count_composition_deletes_six_words() {
    let mut ed = editor(Mode::Normal, "a b c d e f g h", 0);
    type_keys(&mut ed, "2d3w");
    assert_eq!(
        ed.outcomes,
        vec![Outcome::Pending, Outcome::Pending, Outcome::Pending, Outcome::Applied]
    );
    assert_eq!(ed.actions, vec![EditAction::Delete { span: span(0, 12), register: '"' }]);
    assert_eq!(text_of(&ed), "g h");
    assert_eq!(ed.register, chars("a b c d e f "));
    assert_eq!(ed.vi, in_mode(Mode::Normal));
}

#[test]
fn pending_state_follows_the_keys() {
    let mut vi = Vi::new(Mode::Normal);
    let text = chars("x y");
    vi.feed(&keys("\"a"), &text, 0);
    assert_eq!(vi.mode, Mode::Normal);
    assert_eq!(
        vi.pending,
        PendingState { count_buffer: None, pending_operator: None, pending_register: Some('a') }
    );
    vi.feed(&keys("\"a2"), &text, 0);
    assert_eq!(vi.pending.count_buffer, Some(2));
    vi.feed(&keys("\"a2c"), &text, 0);
    assert_eq!(vi.mode, Mode::OperatorPending);
    assert_eq!(
        vi.pending,
        PendingState {
            count_buffer: Some(2),
            pending_operator: Some(Operator::Change),
            pending_register: Some('a'),
        }
    );
    let (outcome, actions) = vi.feed(&keys("\"a2cw"), &text, 0);
    assert_eq!(outcome, Outcome::Applied);
    assert_eq!(
        actions,
        vec![
            EditAction::Delete { span: span(0, 3), register: 'a' },
            EditAction::SwitchMode(Mode::Insert),
        ]
    );
    assert_eq!(vi, in_mode(Mode::Insert));
}

#[test]
fn delete_inner_word_on_blank_is_no_edit() {
    let mut ed = editor(Mode::Normal, "a   b", 2);
    type_keys(&mut ed, "diw");
    assert_eq!(ed.outcomes, vec![Outcome::Pending, Outcome::Pending, Outcome::Applied]);
    assert_eq!(ed.actions, vec![]);
    assert_eq!(text_of(&ed), "a   b");
    assert_eq!(ed.cursor, 2);
    assert_eq!(ed.vi, in_mode(Mode::Normal));
}

#[test]
fn delete_inner_parenthesis_takes_the_innermost_pair() {
    for (cursor, left, taken) in [(4, "a(b()d)e", "c"), (2, "a()e", "b(c)d")] {
        let mut ed = editor(Mode::Normal, "a(b(c)d)e", cursor);
        type_keys(&mut ed, "di(");
        assert_eq!(ed.actions.len(), 1);
        assert_eq!(text_of(&ed), left);
        assert_eq!(ed.register, chars(taken));
        assert_eq!(ed.vi, in_mode(Mode::Normal));
    }
}

#[test]
fn change_and_yank_on_a_word() {
    let mut ed = editor(Mode::Normal, "foo bar", 5);
    type_keys(&mut ed, "ciw");
    assert_eq!(
        ed.actions,
        vec![
            EditAction::Delete { span: span(4, 7), register: '"' },
            EditAction::SwitchMode(Mode::Insert),
        ]
    );
    assert_eq!(ed.vi, in_mode(Mode::Insert));
    type_keys(&mut ed, "baz");
    assert_eq!(text_of(&ed), "foo baz");
    let mut ed = editor(Mode::Normal, "foo bar", 0);
    type_keys(&mut ed, "\"qyaw");
    assert_eq!(ed.actions, vec![EditAction::Yank { span: span(0, 4), register: 'q' }]);
    assert_eq!(ed.register, chars("foo "));
    assert_eq!(ed.vi, in_mode(Mode::Normal));
}

#[test]
fn change_on_a_missing_object_stays_in_normal() {
    let mut ed = editor(Mode::Normal, "abc", 1);
    type_keys(&mut ed, "ci(");
    assert_eq!(ed.actions, vec![]);
    assert_eq!(ed.vi, in_mode(Mode::Normal));
    let mut ed = editor(Mode::Normal, "One. Two.", 1);
    type_keys(&mut ed, "dis");
    assert_eq!(ed.actions, vec![]);
    assert_eq!(text_of(&ed), "One. Two.");
    assert_eq!(ed.vi, in_mode(Mode::Normal));
}

#[test]
fn text_object_in_visual_mode_selects() {
    let mut ed = editor(Mode::Visual, "foo bar", 5);
    type_keys(&mut ed, "iw");
    assert_eq!(ed.outcomes, vec![Outcome::Pending, Outcome::Applied]);
    assert_eq!(ed.actions, vec![EditAction::Select(span(4, 7))]);
    assert_eq!(ed.vi, in_mode(Mode::Visual));
}

#[test]
fn to_reedline_applies_what_is_pending() {
    let text = chars("foo bar");
    let mut vi = Vi {
        mode: Mode::OperatorPending,
        pending: PendingState {
            count_buffer: None,
            pending_operator: Some(Operator::Delete),
            pending_register: Some('k'),
        },
        anchor: 0,
    };
    assert_eq!(
        TextObject::Word.to_reedline(true, &mut vi, &text, 1),
        vec![EditAction::Delete { span: span(0, 3), register: 'k' }]
    );
    assert_eq!(vi, in_mode(Mode::Normal));
    let mut plain = in_mode(Mode::Normal);
    assert_eq!(TextObject::Word.to_reedline(true, &mut plain, &text, 1), vec![]);
    assert_eq!(plain, in_mode(Mode::Normal));
    let mut visual = in_mode(Mode::Visual);
    assert_eq!(
        TextObject::Word.to_reedline(false, &mut visual, &text, 1),
        vec![EditAction::Select(span(0, 4))]
    );
    assert_eq!(visual, in_mode(Mode::Visual));
}

#[test]
fn resolve_bare_motion_moves_the_cursor() {
    let text = chars("a\nb\nc\nd");
    let mut vi = Vi::new(Mode::Normal);
    let cmd = Command { count: Some(3), operator: None, target: Target::Motion(Motion::Down), register: None };
    assert_eq!(vi.resolve(cmd, &text, 0), vec![EditAction::MoveCursor(6)]);
    assert_eq!(vi, in_mode(Mode::Normal));
    let alone = Command { count: None, operator: None, target: Target::Line, register: None };
    assert_eq!(vi.resolve(alone, &text, 0), vec![]);
    let lines = Command { count: Some(2), operator: Some(Operator::Yank), target: Target::Line, register: None };
    assert_eq!(vi.resolve(lines, &text, 3), vec![EditAction::Yank { span: span(2, 6), register: '"' }]);
    assert_eq!(vi, in_mode(Mode::Normal));
}

#[test]
fn doubled_operator_deletes_lines() {
    let mut ed = editor(Mode::Normal, "one\ntwo\nthree\nfour", 5);
    type_keys(&mut ed, "2dd");
    assert_eq!(text_of(&ed), "one\nfour");
    let mut ed = editor(Mode::Normal, "one\ntwo", 5);
    type_keys(&mut ed, "5dd");
    assert_eq!(text_of(&ed), "one\n");
    let mut ed = editor(Mode::Normal, "one\ntwo", 1);
    type_keys(&mut ed, "cc");
    assert_eq!(text_of(&ed), "two");
    assert_eq!(ed.vi.mode, Mode::Insert);
}

#[test]
fn entering_insert_and_typing() {
    let mut ed = editor(Mode::Normal, "", 0);
    type_keys(&mut ed, "ihi<CR><ESC>");
    assert_eq!(
        ed.outcomes,
        vec![Outcome::Applied, Outcome::Applied, Outcome::Applied, Outcome::Applied, Outcome::Cancelled]
    );
    assert_eq!(
        ed.actions,
        vec![
            EditAction::SwitchMode(Mode::Insert),
            EditAction::InsertText('h'),
            EditAction::InsertText('i'),
            EditAction::InsertText('\n'),
            EditAction::SwitchMode(Mode::Normal),
        ]
    );
    assert_eq!(text_of(&ed), "hi\n");
    assert_eq!(ed.vi, in_mode(Mode::Normal));
}

#[test]
fn append_and_open_move_first() {
    let mut ed = editor(Mode::Normal, "ab\ncd", 1);
    type_keys(&mut ed, "ax");
    assert_eq!(
        ed.actions,
        vec![
            EditAction::MoveCursor(2),
            EditAction::SwitchMode(Mode::Insert),
            EditAction::InsertText('x'),
        ]
    );
    assert_eq!(text_of(&ed), "abx\ncd");
    let mut ed = editor(Mode::Normal, "ab\ncd", 0);
    type_keys(&mut ed, "ox");
    assert_eq!(
        ed.actions,
        vec![
            EditAction::MoveCursor(2),
            EditAction::InsertText('\n'),
            EditAction::SwitchMode(Mode::Insert),
            EditAction::InsertText('x'),
        ]
    );
    assert_eq!(text_of(&ed), "ab\nx\ncd");
    assert_eq!(ed.vi, in_mode(Mode::Insert));
}

#[test]
fn replace_mode_and_single_replace() {
    let mut ed = editor(Mode::Normal, "xyz", 0);
    type_keys(&mut ed, "<S-R>a");
    assert_eq!(
        ed.actions,
        vec![EditAction::SwitchMode(Mode::Replace), EditAction::Overwrite('a')]
    );
    assert_eq!(text_of(&ed), "ayz");
    assert_eq!(ed.vi, in_mode(Mode::Replace));
    let mut ed = editor(Mode::Normal, "xyz", 1);
    type_keys(&mut ed, "rq");
    assert_eq!(ed.outcomes, vec![Outcome::Pending, Outcome::Applied]);
    assert_eq!(ed.actions, vec![EditAction::Overwrite('q')]);
    assert_eq!(text_of(&ed), "xqz");
    assert_eq!(ed.vi, in_mode(Mode::Normal));
}

#[test]
fn invalid_keys_are_rejected_and_clear_what_is_pending() {
    let mut ed = editor(Mode::Normal, "abc", 0);
    type_keys(&mut ed, "2dx");
    assert_eq!(ed.outcomes, vec![Outcome::Pending, Outcome::Pending, Outcome::Rejected]);
    assert_eq!(ed.actions, vec![]);
    assert_eq!(ed.vi, in_mode(Mode::Normal));
    let mut insert = in_mode(Mode::Insert);
    assert_eq!(insert.feed(&keys("<C-x>"), &[], 0), (Outcome::Rejected, vec![]));
    assert_eq!(insert, in_mode(Mode::Insert));
}

#[test]
fn empty_buffer_waits() {
    let mut vi = in_mode(Mode::Visual);
    assert_eq!(vi.feed(&[], &[], 0), (Outcome::Pending, vec![]));
    assert_eq!(vi, in_mode(Mode::Visual));
}

#[test]
fn inclusive_motions_take_their_last_character() {
    let mut ed = editor(Mode::Normal, "foo bar", 0);
    type_keys(&mut ed, "de");
    assert_eq!(ed.actions, vec![EditAction::Delete { span: span(0, 3), register: '"' }]);
    assert_eq!(text_of(&ed), " bar");
    let mut ed = editor(Mode::Normal, "foo bar", 0);
    type_keys(&mut ed, "dfb");
    assert_eq!(text_of(&ed), "ar");
    let mut ed = editor(Mode::Normal, "foo bar", 0);
    type_keys(&mut ed, "dtb");
    assert_eq!(text_of(&ed), "bar");
    let mut ed = editor(Mode::Normal, "foo bar", 0);
    type_keys(&mut ed, "dw");
    assert_eq!(text_of(&ed), "bar");
    let mut ed = editor(Mode::Normal, "foo bar", 6);
    type_keys(&mut ed, "db");
    assert_eq!(text_of(&ed), "foo r");
    let mut ed = editor(Mode::Normal, "foo bar", 0);
    type_keys(&mut ed, "dfz");
    assert_eq!(ed.actions, vec![EditAction::Delete { span: span(0, 0), register: '"' }]);
    assert_eq!(text_of(&ed), "foo bar");
}

#[test]
fn a_scripted_line() {
    let mut ed = editor(Mode::Insert, "", 0);
    type_keys(&mut ed, "lls<ESC>^x<ESC><CR>");
    assert_eq!(
        ed.actions,
        vec![
            EditAction::InsertText('l'),
            EditAction::InsertText('l'),
            EditAction::InsertText('s'),
            EditAction::SwitchMode(Mode::Normal),
            EditAction::MoveCursor(0),
        ]
    );
    assert_eq!(ed.outcomes[5], Outcome::Rejected);
    assert_eq!(ed.outcomes[6], Outcome::Cancelled);
    assert_eq!(ed.outcomes[7], Outcome::Rejected);
    assert_eq!(text_of(&ed), "lls");
    assert_eq!(ed.vi, in_mode(Mode::Normal));
}
