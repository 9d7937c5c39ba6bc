//! The mode state machine: what a recognised command does.
//!
//! The editor keeps the keys typed since the last command in a buffer, adds
//! each new key to it and hands the whole buffer to [`Vi::feed`]. The answer
//! says whether to keep the buffer, and which actions to carry out on the
//! text before the next key is taken.

use vstd::prelude::*;
use crate::keys::{KeyCode, KeyEvent};
use crate::model::{
    Command, EditAction, Mode, Motion, Operator, Outcome, ParseResult, PendingState, Span, Target,
    TextObject,
};
use crate::motion::{
    find_line_end, lines_span, motion_span, motion_target, selection_span, spec_line_end,
    spec_lines_span, spec_motion_span, spec_motion_target, spec_selection_span, spec_step, step,
};
use crate::parser::{
    key_char, parse, pending_of, spec_is_visual, spec_key_char, spec_parse, spec_pending,
    spec_plain,
};
use crate::text_object::{clamped, resolve, spec_clamped, spec_resolve_span};

verus! {

/// The state that lasts from key to key: the mode, what has been typed of
/// an unfinished command, and the position at which the selection of a
/// visual mode began.
#[derive(Clone, Copy, Debug, PartialEq, Eq, Structural)]
pub struct Vi {
    pub mode: Mode,
    pub pending: PendingState,
    pub anchor: usize,
}

/// A pair of positions as a span.
pub open spec fn spec_span(pair: (int, int)) -> Span {
    Span { start: pair.0 as usize, end: pair.1 as usize }
}

/// The mode that the user sees: while an operator waits for its target
/// that is still `Normal`.
pub open spec fn spec_base(mode: Mode) -> Mode {
    if mode == Mode::OperatorPending {
        Mode::Normal
    } else {
        mode
    }
}

/// The action that announces a mode, where the user does not see it yet.
pub open spec fn spec_switch(mode: Mode, next: Mode) -> Seq<EditAction> {
    if spec_base(mode) != next {
        seq![EditAction::SwitchMode(next)]
    } else {
        Seq::empty()
    }
}

/// The register that a command addresses: `"` where it names none.
pub open spec fn spec_register_or_default(register: Option<char>) -> char {
    match register {
        Some(c) => c,
        None => '"',
    }
}

/// How often a command is repeated: once where it has no count.
pub open spec fn spec_count_or_one(count: Option<u32>) -> u32 {
    match count {
        Some(n) => n,
        None => 1,
    }
}

/// What an operator does to a span in a mode: the actions, and the mode
/// afterwards. Delete ends in `Normal`, change in `Insert`; yank ends a
/// visual mode and else leaves the mode as the user sees it.
pub open spec fn spec_operate(mode: Mode, op: Operator, span: Span, register: char) -> (
    Seq<EditAction>,
    Mode,
) {
    match op {
        Operator::Delete => (
            seq![EditAction::Delete { span, register }] + spec_switch(mode, Mode::Normal),
            Mode::Normal,
        ),
        Operator::Change => (
            seq![EditAction::Delete { span, register }] + spec_switch(mode, Mode::Insert),
            Mode::Insert,
        ),
        Operator::Yank => {
            let next = if spec_is_visual(mode) {
                Mode::Normal
            } else {
                spec_base(mode)
            };
            (seq![EditAction::Yank { span, register }] + spec_switch(mode, next), next)
        },
    }
}

/// What a text object found at `span` gives. An empty span gives no action
/// and leaves the mode as the user sees it. Without an operator the object
/// becomes the selection in a visual mode and is nothing elsewhere.
pub open spec fn spec_object_outcome(
    mode: Mode,
    op: Option<Operator>,
    register: char,
    span: Span,
) -> (Seq<EditAction>, Mode) {
    if span.start >= span.end {
        (Seq::empty(), spec_base(mode))
    } else {
        match op {
            Some(o) => spec_operate(mode, o, span, register),
            None => if spec_is_visual(mode) {
                (seq![EditAction::Select(span)], mode)
            } else {
                (Seq::empty(), spec_base(mode))
            },
        }
    }
}

/// The span that a command's target covers in a text with a cursor: where
/// the text object lies, from the cursor to where the motion leads, the
/// whole lines counted, or the selection since the anchor. A count does not
/// enlarge a text object.
pub open spec fn spec_target_span(vi: Vi, cmd: Command, text: Seq<char>, cursor: int) -> Span {
    let count = spec_count_or_one(cmd.count) as nat;
    match cmd.target {
        Target::Object(object, inner) => spec_resolve_span(text, cursor, object, inner),
        Target::Motion(motion) => spec_span(spec_motion_span(text, cursor, motion, count)),
        Target::Line => spec_span(spec_lines_span(text, cursor, count)),
        Target::Selection => spec_span(
            spec_selection_span(text, vi.anchor as int, cursor, vi.mode == Mode::VisualLine),
        ),
    }
}

/// What a command gives in a state, on a text with a cursor: the actions,
/// and the state afterwards, in which nothing is pending. An operator acts
/// on the span of its target. A motion alone moves the cursor, and in a
/// visual mode the selection follows it.
pub open spec fn spec_resolve_command(vi: Vi, cmd: Command, text: Seq<char>, cursor: int) -> (
    Seq<EditAction>,
    Vi,
) {
    let register = spec_register_or_default(cmd.register);
    let count = spec_count_or_one(cmd.count) as nat;
    let span = spec_target_span(vi, cmd, text, cursor);
    let (actions, mode) = match cmd.target {
        Target::Object(object, inner) => spec_object_outcome(
            vi.mode,
            cmd.operator,
            register,
            span,
        ),
        Target::Motion(motion) => match cmd.operator {
            Some(o) => spec_operate(vi.mode, o, span, register),
            None => {
                let to = spec_motion_target(text, cursor, motion, count);
                if spec_is_visual(vi.mode) {
                    (
                        seq![
                            EditAction::MoveCursor(to as usize),
                            EditAction::Select(
                                spec_span(
                                    spec_selection_span(
                                        text,
                                        vi.anchor as int,
                                        to,
                                        vi.mode == Mode::VisualLine,
                                    ),
                                ),
                            ),
                        ],
                        vi.mode,
                    )
                } else {
                    (seq![EditAction::MoveCursor(to as usize)], spec_base(vi.mode))
                }
            },
        },
        _ => match cmd.operator {
            Some(o) => spec_operate(vi.mode, o, span, register),
            None => (Seq::empty(), spec_base(vi.mode)),
        },
    };
    (actions, Vi { mode, pending: PendingState::spec_cleared(), anchor: vi.anchor })
}

/// The character that a key types into the text.
pub open spec fn spec_typed(k: KeyEvent) -> Option<char> {
    if k.code == KeyCode::Enter && k.modifiers == 0 {
        Some('\n')
    } else {
        spec_key_char(k)
    }
}

/// The mode that a key of `Normal` mode leads into.
pub open spec fn spec_entry(k: KeyEvent) -> Option<Mode> {
    match spec_key_char(k) {
        Some(c) => if c == 'i' || c == 'a' || c == 'o' {
            Some(Mode::Insert)
        } else if c == 'v' {
            Some(Mode::Visual)
        } else if c == 'V' {
            Some(Mode::VisualLine)
        } else if c == 'R' {
            Some(Mode::Replace)
        } else {
            None
        },
        None => None,
    }
}

/// What comes before the change of mode: `a` steps to the right on the
/// line, and `o` opens a line below the cursor's.
pub open spec fn spec_entry_moves(k: KeyEvent, text: Seq<char>, cursor: int) -> Seq<EditAction> {
    let at = spec_clamped(text, cursor);
    if spec_key_char(k) == Some('a') {
        seq![EditAction::MoveCursor(spec_step(text, at, Motion::Right) as usize)]
    } else if spec_key_char(k) == Some('o') {
        seq![EditAction::MoveCursor(spec_line_end(text, at) as usize), EditAction::InsertText('\n')]
    } else {
        Seq::empty()
    }
}

/// What one more key does. `s` is the key buffer with the new key at its
/// end. Escape cancels whatever is pending. In `Insert` and `Replace` a
/// key types its character. In `Normal` a key may lead into another mode,
/// a visual mode anchoring its selection at the cursor, and `r` with a
/// character overwrites once. Everything else is a command:
/// applied once it is complete, awaited while it is not, refused when it
/// cannot become one.
pub open spec fn spec_feed(vi: Vi, s: Seq<KeyEvent>, text: Seq<char>, cursor: int) -> (
    Outcome,
    Seq<EditAction>,
    Vi,
) {
    let idle = PendingState::spec_cleared();
    if s.len() == 0 {
        (Outcome::Pending, Seq::empty(), vi)
    } else if s.last().code == KeyCode::Esc {
        (
            Outcome::Cancelled,
            spec_switch(vi.mode, Mode::Normal),
            Vi { mode: Mode::Normal, pending: idle, anchor: vi.anchor },
        )
    } else if vi.mode == Mode::Insert {
        match spec_typed(s[0]) {
            Some(c) => (Outcome::Applied, seq![EditAction::InsertText(c)], vi),
            None => (Outcome::Rejected, Seq::empty(), vi),
        }
    } else if vi.mode == Mode::Replace {
        match spec_typed(s[0]) {
            Some(c) => (Outcome::Applied, seq![EditAction::Overwrite(c)], vi),
            None => (Outcome::Rejected, Seq::empty(), vi),
        }
    } else if vi.mode == Mode::Normal && spec_entry(s[0]) is Some {
        let mode = spec_entry(s[0]).unwrap();
        let anchor = if spec_is_visual(mode) {
            spec_clamped(text, cursor) as usize
        } else {
            vi.anchor
        };
        (
            Outcome::Applied,
            spec_entry_moves(s[0], text, cursor) + seq![EditAction::SwitchMode(mode)],
            Vi { mode, pending: idle, anchor },
        )
    } else if vi.mode == Mode::Normal && spec_key_char(s[0]) == Some('r') {
        if s.len() == 1 {
            (Outcome::Pending, Seq::empty(), vi)
        } else {
            match spec_typed(s[1]) {
                Some(c) => (Outcome::Applied, seq![EditAction::Overwrite(c)], vi),
                None => (Outcome::Rejected, Seq::empty(), vi),
            }
        }
    } else {
        match spec_parse(s, vi.mode) {
            ParseResult::Valid(cmd, n) => {
                let (actions, next) = spec_resolve_command(vi, cmd, text, cursor);
                (Outcome::Applied, actions, next)
            },
            ParseResult::Incomplete => {
                let pending = spec_pending(s);
                let mode = if pending.pending_operator is Some && !spec_is_visual(vi.mode) {
                    Mode::OperatorPending
                } else {
                    spec_base(vi.mode)
                };
                (Outcome::Pending, Seq::empty(), Vi { mode, pending, anchor: vi.anchor })
            },
            ParseResult::Invalid => (
                Outcome::Rejected,
                Seq::empty(),
                Vi { mode: spec_base(vi.mode), pending: idle, anchor: vi.anchor },
            ),
        }
    }
}

/// Whether an action changes the text or a register.
pub open spec fn spec_edits(a: EditAction) -> bool {
    a is Delete || a is Yank || a is InsertText || a is Overwrite
}

/// Escape, whatever came before it: the state is `Normal` with nothing
/// pending, the keys are given up, and no action touches the text.
pub proof fn lemma_escape_resets(vi: Vi, s: Seq<KeyEvent>, text: Seq<char>, cursor: int)
    requires
        s.len() > 0,
        s.last().code == KeyCode::Esc,
    ensures
        spec_feed(vi, s, text, cursor).0 == Outcome::Cancelled,
        spec_feed(vi, s, text, cursor).2 == (Vi {
            mode: Mode::Normal,
            pending: PendingState::spec_cleared(),
            anchor: vi.anchor,
        }),
        forall|k: int|
            0 <= k < spec_feed(vi, s, text, cursor).1.len() ==> !spec_edits(
                #[trigger] spec_feed(vi, s, text, cursor).1[k],
            ),
{
}

/// Every command that is resolved leaves nothing pending, and an operator
/// never leaves the state waiting: delete ends in `Normal`, change in
/// `Insert`, unless its text object was not found.
pub proof fn lemma_resolve_settles(vi: Vi, cmd: Command, text: Seq<char>, cursor: int)
    ensures
        spec_resolve_command(vi, cmd, text, cursor).1.pending == PendingState::spec_cleared(),
        spec_resolve_command(vi, cmd, text, cursor).1.mode != Mode::OperatorPending,
        cmd.operator == Some(Operator::Delete) && !(cmd.target is Object) ==> spec_resolve_command(
            vi,
            cmd,
            text,
            cursor,
        ).1.mode == Mode::Normal,
        cmd.operator == Some(Operator::Change) && !(cmd.target is Object) ==> spec_resolve_command(
            vi,
            cmd,
            text,
            cursor,
        ).1.mode == Mode::Insert,
{
}

/// A text object that is not found changes nothing: an operator on it
/// gives no action at all.
pub proof fn lemma_missing_object_is_no_edit(
    vi: Vi,
    cmd: Command,
    text: Seq<char>,
    cursor: int,
    object: TextObject,
    inner: bool,
)
    requires
        cmd.target == Target::Object(object, inner),
        spec_resolve_span(text, cursor, object, inner).start >= spec_resolve_span(
            text,
            cursor,
            object,
            inner,
        ).end,
    ensures
        spec_resolve_command(vi, cmd, text, cursor).0 == Seq::<EditAction>::empty(),
{
}

/// An operator in a visual mode acts on the selection, from the anchor to
/// the cursor with both ends, and ends the visual mode: in `Normal` for
/// delete and yank, in `Insert` for change.
pub proof fn lemma_visual_operator(vi: Vi, cmd: Command, text: Seq<char>, cursor: int)
    requires
        spec_is_visual(vi.mode),
        cmd.operator is Some,
        cmd.target == Target::Selection,
    ensures
        ({
            let (actions, next) = spec_resolve_command(vi, cmd, text, cursor);
            let span = spec_span(
                spec_selection_span(text, vi.anchor as int, cursor, vi.mode == Mode::VisualLine),
            );
            let register = spec_register_or_default(cmd.register);
            &&& next.mode == (if cmd.operator == Some(Operator::Change) {
                Mode::Insert
            } else {
                Mode::Normal
            })
            &&& next.pending == PendingState::spec_cleared()
            &&& actions.len() == 2
            &&& actions[1] == EditAction::SwitchMode(next.mode)
            &&& actions[0] == (if cmd.operator == Some(Operator::Yank) {
                EditAction::Yank { span, register }
            } else {
                EditAction::Delete { span, register }
            })
        }),
{
}

/// From `Normal`, `v`, then a motion, then `d`: the state is `Normal` again
/// with nothing pending, and what was deleted is the selection from where
/// the cursor was at `v` to where the motion led, both ends included.
pub proof fn lemma_visual_delete(
    vi: Vi,
    motion_keys: Seq<KeyEvent>,
    cmd: Command,
    n: usize,
    text: Seq<char>,
    cursor: int,
)
    requires
        vi.mode == Mode::Normal,
        0 <= cursor,
        text.len() <= usize::MAX,
        spec_parse(motion_keys, Mode::Visual) == ParseResult::Valid(cmd, n),
        cmd.operator is None,
        cmd.target is Motion,
        motion_keys.len() > 0,
        motion_keys.last().code != KeyCode::Esc,
    ensures
        ({
            let entered = spec_feed(vi, seq![spec_plain('v')], text, cursor);
            let moved = spec_feed(entered.2, motion_keys, text, cursor);
            let to = spec_motion_target(
                text,
                cursor,
                cmd.target->Motion_0,
                spec_count_or_one(cmd.count) as nat,
            );
            let deleted = spec_feed(moved.2, seq![spec_plain('d')], text, to);
            let selected = spec_span(spec_selection_span(text, spec_clamped(text, cursor), to, false));
            &&& entered.2.mode == Mode::Visual
            &&& moved.2.mode == Mode::Visual
            &&& moved.1 == seq![EditAction::MoveCursor(to as usize), EditAction::Select(selected)]
            &&& deleted.0 == Outcome::Applied
            &&& deleted.1 == seq![
                EditAction::Delete { span: selected, register: '"' },
                EditAction::SwitchMode(Mode::Normal),
            ]
            &&& deleted.2.mode == Mode::Normal
            &&& deleted.2.pending == PendingState::spec_cleared()
        }),
{
    let v = seq![spec_plain('v')];
    let d = seq![spec_plain('d')];
    assert(v[0] == spec_plain('v'));
    assert(d[0] == spec_plain('d'));
    assert(d.last() == spec_plain('d'));
    assert(v.last() == spec_plain('v'));
    let entered = spec_feed(vi, v, text, cursor);
    assert(spec_entry(v[0]) == Some(Mode::Visual));
    assert(entered.2.mode == Mode::Visual);
    assert(entered.2.anchor == spec_clamped(text, cursor) as usize);
    let moved = spec_feed(entered.2, motion_keys, text, cursor);
    assert(moved.2.mode == Mode::Visual);
    assert(moved.2.anchor == entered.2.anchor);
    let gone = Command {
        count: None,
        operator: Some(Operator::Delete),
        target: Target::Selection,
        register: None,
    };
    assert(spec_parse(d, Mode::Visual) == ParseResult::Valid(gone, 1usize));
    let to = spec_motion_target(
        text,
        cursor,
        cmd.target->Motion_0,
        spec_count_or_one(cmd.count) as nat,
    );
    let deleted = spec_feed(moved.2, d, text, to);
    let selected = spec_span(spec_selection_span(text, spec_clamped(text, cursor), to, false));
    assert(deleted.1 =~= seq![
        EditAction::Delete { span: selected, register: '"' },
        EditAction::SwitchMode(Mode::Normal),
    ]);
}

/// From `Normal`, an operator key and then Escape: the operator waits for
/// its target, Escape gives it up, and no action at all is handed out; the
/// state is `Normal` again with nothing pending.
pub proof fn lemma_operator_then_escape(vi: Vi, op: Operator, esc: KeyEvent, text: Seq<char>, cursor: int)
    requires
        vi.mode == Mode::Normal,
        esc.code == KeyCode::Esc,
    ensures
        ({
            let key = spec_plain(op.key());
            let waiting = spec_feed(vi, seq![key], text, cursor);
            let given_up = spec_feed(waiting.2, seq![key, esc], text, cursor);
            &&& waiting.0 == Outcome::Pending
            &&& waiting.1 == Seq::<EditAction>::empty()
            &&& waiting.2.mode == Mode::OperatorPending
            &&& waiting.2.pending == (PendingState {
                count_buffer: None,
                pending_operator: Some(op),
                pending_register: None,
            })
            &&& given_up.0 == Outcome::Cancelled
            &&& given_up.1 == Seq::<EditAction>::empty()
            &&& given_up.2.mode == Mode::Normal
            &&& given_up.2.pending == PendingState::spec_cleared()
        }),
{
    let key = spec_plain(op.key());
    let one = seq![key];
    let two = seq![key, esc];
    assert(one[0] == key && one.last() == key);
    assert(two[0] == key && two[1] == esc && two.last() == esc);
    assert(spec_parse(one, Mode::Normal) is Incomplete);
    assert(spec_pending(one).pending_operator == Some(op));
}

/// Every key leaves a sound state sound.
pub proof fn lemma_feed_keeps_wf(vi: Vi, s: Seq<KeyEvent>, text: Seq<char>, cursor: int)
    requires
        vi.wf(),
    ensures
        spec_feed(vi, s, text, cursor).2.wf(),
{
}

fn base_of(mode: Mode) -> (r: Mode)
    ensures
        r == spec_base(mode),
{
    match mode {
        Mode::OperatorPending => Mode::Normal,
        _ => mode,
    }
}

fn is_visual(mode: Mode) -> (r: bool)
    ensures
        r == spec_is_visual(mode),
{
    match mode {
        Mode::Visual => true,
        Mode::VisualLine => true,
        _ => false,
    }
}

fn push_switch(actions: &mut Vec<EditAction>, mode: Mode, next: Mode)
    ensures
        final(actions)@ == old(actions)@ + spec_switch(mode, next),
{
    if base_of(mode) != next {
        actions.push(EditAction::SwitchMode(next));
        proof {
            assert(actions@ =~= old(actions)@ + spec_switch(mode, next));
        }
    } else {
        proof {
            assert(actions@ =~= old(actions)@ + spec_switch(mode, next));
        }
    }
}

fn operate(mode: Mode, op: Operator, span: Span, register: char) -> (r: (Vec<EditAction>, Mode))
    ensures
        (r.0@, r.1) == spec_operate(mode, op, span, register),
{
    let mut actions: Vec<EditAction> = Vec::new();
    let next: Mode = match op {
        Operator::Delete => {
            actions.push(EditAction::Delete { span, register });
            Mode::Normal
        },
        Operator::Change => {
            actions.push(EditAction::Delete { span, register });
            Mode::Insert
        },
        Operator::Yank => {
            actions.push(EditAction::Yank { span, register });
            if is_visual(mode) {
                Mode::Normal
            } else {
                base_of(mode)
            }
        },
    };
    proof {
        assert(actions@ =~= seq![actions@[0]]);
    }
    push_switch(&mut actions, mode, next);
    (actions, next)
}

fn typed(k: KeyEvent) -> (r: Option<char>)
    ensures
        r == spec_typed(k),
{
    match k.code {
        KeyCode::Enter => {
            if k.modifiers == 0 {
                Some('\n')
            } else {
                None
            }
        },
        _ => key_char(k),
    }
}

fn entry(k: KeyEvent) -> (r: Option<Mode>)
    ensures
        r == spec_entry(k),
{
    match key_char(k) {
        Some(c) => {
            if c == 'i' || c == 'a' || c == 'o' {
                Some(Mode::Insert)
            } else if c == 'v' {
                Some(Mode::Visual)
            } else if c == 'V' {
                Some(Mode::VisualLine)
            } else if c == 'R' {
                Some(Mode::Replace)
            } else {
                None
            }
        },
        None => None,
    }
}

fn entry_moves(k: KeyEvent, text: &[char], cursor: usize) -> (r: Vec<EditAction>)
    ensures
        r@ == spec_entry_moves(k, text@, cursor as int),
{
    let at: usize = clamped(text, cursor);
    match key_char(k) {
        Some(c) => {
            if c == 'a' {
                single(EditAction::MoveCursor(step(text, at, Motion::Right)))
            } else if c == 'o' {
                let end: usize = find_line_end(text, at);
                let mut actions = single(EditAction::MoveCursor(end));
                actions.push(EditAction::InsertText('\n'));
                proof {
                    assert(actions@ =~= seq![
                        EditAction::MoveCursor(end),
                        EditAction::InsertText('\n'),
                    ]);
                }
                actions
            } else {
                none()
            }
        },
        None => none(),
    }
}

fn single(action: EditAction) -> (r: Vec<EditAction>)
    ensures
        r@ == seq![action],
{
    let mut actions: Vec<EditAction> = Vec::new();
    actions.push(action);
    proof {
        assert(actions@ =~= seq![action]);
    }
    actions
}

fn none() -> (r: Vec<EditAction>)
    ensures
        r@ == Seq::<EditAction>::empty(),
{
    let actions: Vec<EditAction> = Vec::new();
    proof {
        assert(actions@ =~= Seq::<EditAction>::empty());
    }
    actions
}

impl TextObject {
    /// Applies what is pending in `vi_state` to this text object, found in
    /// `text` at `cursor`: the actions for the operator and register that
    /// are pending, on the span of the object. Afterwards nothing is
    /// pending. An object that is not found gives no action.
    pub fn to_reedline(&self, inner: bool, vi_state: &mut Vi, text: &[char], cursor: usize) -> (actions:
        Vec<EditAction>)
        ensures
            (actions@, final(vi_state).mode) == spec_object_outcome(
                old(vi_state).mode,
                old(vi_state).pending.pending_operator,
                spec_register_or_default(old(vi_state).pending.pending_register),
                spec_resolve_span(text@, cursor as int, *self, inner),
            ),
            final(vi_state).pending == PendingState::spec_cleared(),
            final(vi_state).anchor == old(vi_state).anchor,
    {
        let span: Span = resolve(text, cursor, *self, inner);
        let mode: Mode = vi_state.mode;
        let register: char = match vi_state.pending.pending_register {
            Some(c) => c,
            None => '"',
        };
        let op: Option<Operator> = vi_state.pending.pending_operator;
        vi_state.pending = PendingState::cleared();
        if span.start >= span.end {
            vi_state.mode = base_of(mode);
            return none();
        }
        match op {
            Some(o) => {
                let (actions, next) = operate(mode, o, span, register);
                vi_state.mode = next;
                actions
            },
            None => {
                if is_visual(mode) {
                    single(EditAction::Select(span))
                } else {
                    vi_state.mode = base_of(mode);
                    none()
                }
            },
        }
    }
}

impl Vi {
    /// The state is sound: it waits for a target only while an operator is
    /// pending.
    pub open spec fn wf(self) -> bool {
        self.mode == Mode::OperatorPending ==> self.pending.pending_operator is Some
    }

    /// A state in `mode` with nothing pending. `OperatorPending` is no
    /// mode to start in and is taken as `Normal`.
    pub fn new(mode: Mode) -> (r: Vi)
        ensures
            r == (Vi { mode: spec_base(mode), pending: PendingState::spec_cleared(), anchor: 0 }),
            r.wf(),
    {
        Vi { mode: base_of(mode), pending: PendingState::cleared(), anchor: 0 }
    }

    /// Gives up whatever is pending and returns to `Normal`.
    pub fn cancel(&mut self) -> (actions: Vec<EditAction>)
        ensures
            actions@ == spec_switch(old(self).mode, Mode::Normal),
            *final(self) == (Vi {
                mode: Mode::Normal,
                pending: PendingState::spec_cleared(),
                anchor: old(self).anchor,
            }),
    {
        let mut actions: Vec<EditAction> = Vec::new();
        proof {
            assert(actions@ =~= Seq::<EditAction>::empty());
            assert(Seq::<EditAction>::empty() + spec_switch(self.mode, Mode::Normal) =~= spec_switch(
                self.mode,
                Mode::Normal,
            ));
        }
        push_switch(&mut actions, self.mode, Mode::Normal);
        self.mode = Mode::Normal;
        self.pending = PendingState::cleared();
        actions
    }

    /// Resolves a recognised command on a text with a cursor: the actions
    /// that carry it out, in order, and the state afterwards. The count
    /// defaults to one and the register to `"`.
    pub fn resolve(&mut self, cmd: Command, text: &[char], cursor: usize) -> (actions: Vec<
        EditAction,
    >)
        ensures
            (actions@, *final(self)) == spec_resolve_command(*old(self), cmd, text@, cursor as int),
    {
        let mode: Mode = self.mode;
        let register: char = match cmd.register {
            Some(c) => c,
            None => '"',
        };
        let count: u32 = match cmd.count {
            Some(n) => n,
            None => 1,
        };
        self.pending = PendingState {
            count_buffer: cmd.count,
            pending_operator: cmd.operator,
            pending_register: cmd.register,
        };
        let lines: bool = match mode {
            Mode::VisualLine => true,
            _ => false,
        };
        let span: Span = match cmd.target {
            Target::Object(object, inner) => {
                return object.to_reedline(inner, self, text, cursor);
            },
            Target::Motion(motion) => {
                if cmd.operator.is_none() {
                    self.pending = PendingState::cleared();
                    let to: usize = motion_target(text, cursor, motion, count);
                    let mut actions = single(EditAction::MoveCursor(to));
                    if is_visual(mode) {
                        let selected: Span = selection_span(text, self.anchor, to, lines);
                        actions.push(EditAction::Select(selected));
                        proof {
                            assert(actions@ =~= seq![
                                EditAction::MoveCursor(to),
                                EditAction::Select(selected),
                            ]);
                        }
                    } else {
                        self.mode = base_of(mode);
                    }
                    return actions;
                }
                motion_span(text, cursor, motion, count)
            },
            Target::Line => lines_span(text, cursor, count),
            Target::Selection => selection_span(text, self.anchor, cursor, lines),
        };
        self.pending = PendingState::cleared();
        match cmd.operator {
            Some(o) => {
                let (actions, next) = operate(mode, o, span, register);
                self.mode = next;
                actions
            },
            None => {
                self.mode = base_of(mode);
                none()
            },
        }
    }

    /// Takes one more key: `buffer` is the key buffer with the new key at
    /// its end. The answer says what became of the buffer and which actions
    /// are to be carried out on the text, in order, before the next key.
    pub fn feed(&mut self, buffer: &[KeyEvent], text: &[char], cursor: usize) -> (r: (
        Outcome,
        Vec<EditAction>,
    ))
        ensures
            (r.0, r.1@, *final(self)) == spec_feed(*old(self), buffer@, text@, cursor as int),
    {
        let n: usize = buffer.len();
        if n == 0 {
            return (Outcome::Pending, none());
        }
        match buffer[n - 1].code {
            KeyCode::Esc => {
                let actions = self.cancel();
                return (Outcome::Cancelled, actions);
            },
            _ => {},
        }
        let mode: Mode = self.mode;
        match mode {
            Mode::Insert => {
                return match typed(buffer[0]) {
                    Some(c) => (Outcome::Applied, single(EditAction::InsertText(c))),
                    None => (Outcome::Rejected, none()),
                };
            },
            Mode::Replace => {
                return match typed(buffer[0]) {
                    Some(c) => (Outcome::Applied, single(EditAction::Overwrite(c))),
                    None => (Outcome::Rejected, none()),
                };
            },
            Mode::Normal => {
                match entry(buffer[0]) {
                    Some(next) => {
                        if is_visual(next) {
                            self.anchor = clamped(text, cursor);
                        }
                        self.mode = next;
                        self.pending = PendingState::cleared();
                        let mut actions = entry_moves(buffer[0], text, cursor);
                        actions.push(EditAction::SwitchMode(next));
                        return (Outcome::Applied, actions);
                    },
                    None => {},
                }
                match key_char(buffer[0]) {
                    Some(c) => {
                        if c == 'r' {
                            if n == 1 {
                                return (Outcome::Pending, none());
                            }
                            return match typed(buffer[1]) {
                                Some(x) => (Outcome::Applied, single(EditAction::Overwrite(x))),
                                None => (Outcome::Rejected, none()),
                            };
                        }
                    },
                    None => {},
                }
            },
            _ => {},
        }
        match parse(buffer, mode) {
            ParseResult::Valid(cmd, _) => {
                let actions = self.resolve(cmd, text, cursor);
                (Outcome::Applied, actions)
            },
            ParseResult::Incomplete => {
                let pending = pending_of(buffer);
                if pending.pending_operator.is_some() && !is_visual(mode) {
                    self.mode = Mode::OperatorPending;
                } else {
                    self.mode = base_of(mode);
                }
                self.pending = pending;
                (Outcome::Pending, none())
            },
            ParseResult::Invalid => {
                self.mode = base_of(mode);
                self.pending = PendingState::cleared();
                (Outcome::Rejected, none())
            },
        }
    }
}

} // verus!
