//! The command model: modes, operators, motions, text objects, commands and
//! the primitive edit actions that resolving a command gives.

use vstd::prelude::*;

verus! {

/// The editing mode that is currently active.
#[derive(Clone, Copy, Debug, PartialEq, Eq, Structural)]
pub enum Mode {
    Normal,
    Insert,
    Visual,
    VisualLine,
    Replace,
    OperatorPending,
}

/// The outcome of trying to recognise a production at the front of a key
/// sequence. `Valid` holds the recognised value and the number of keys it
/// took; `Incomplete` says that the keys ran out before the production was
/// finished; `Invalid` says that no further key can mend the sequence.
#[derive(Clone, Copy, Debug, PartialEq, Eq, Structural)]
pub enum ParseResult<T> {
    Valid(T, usize),
    Incomplete,
    Invalid,
}

/// The closed set of text objects. `Sentence`, `Paragraph` and `Tag` are
/// recognised by the grammar and always span nothing.
#[derive(Clone, Copy, Debug, PartialEq, Eq, Structural)]
pub enum TextObject {
    Word,
    BigWord,
    Sentence,
    Paragraph,
    Parenthesis,
    Bracket,
    CurlyBrace,
    AngleBracket,
    DoubleQuote,
    SingleQuote,
    BackTick,
    Tag,
}

/// A cursor movement.
#[derive(Clone, Copy, Debug, PartialEq, Eq, Structural)]
pub enum Motion {
    Left,
    Right,
    Up,
    Down,
    WordForward,
    WordBackward,
    WordEnd,
    BigWordForward,
    BigWordBackward,
    BigWordEnd,
    LineStart,
    FirstNonBlank,
    LineEnd,
    BufferStart,
    BufferEnd,
    WordEndBackward,
    ParagraphForward,
    ParagraphBackward,
    MatchingBracket,
    FindForward(char),
    FindBackward(char),
    TillForward(char),
    TillBackward(char),
}

/// An operator, which acts on the span that its target gives.
#[derive(Clone, Copy, Debug, PartialEq, Eq, Structural)]
pub enum Operator {
    Delete,
    Change,
    Yank,
}

/// What a command acts on.
#[derive(Clone, Copy, Debug, PartialEq, Eq, Structural)]
pub enum Target {
    /// A cursor movement.
    Motion(Motion),
    /// A text object and its inner flag (`true` for `i`, `false` for `a`).
    Object(TextObject, bool),
    /// The whole current line: a doubled operator key (`dd`, `cc`, `yy`).
    Line,
    /// The current selection: an operator key in a visual mode.
    Selection,
}

/// A fully recognised command.
#[derive(Clone, Copy, Debug, PartialEq, Eq, Structural)]
pub struct Command {
    pub count: Option<u32>,
    pub operator: Option<Operator>,
    pub target: Target,
    pub register: Option<char>,
}

/// What has been typed of a command that is not yet complete.
#[derive(Clone, Copy, Debug, PartialEq, Eq, Structural)]
pub struct PendingState {
    pub count_buffer: Option<u32>,
    pub pending_operator: Option<Operator>,
    pub pending_register: Option<char>,
}

/// A contiguous range `[start, end)` of a buffer.
#[derive(Clone, Copy, Debug, PartialEq, Eq, Structural)]
pub struct Span {
    pub start: usize,
    pub end: usize,
}

/// A primitive action for the buffer and the display to carry out.
#[derive(Clone, Copy, Debug, PartialEq, Eq, Structural)]
pub enum EditAction {
    /// Put the cursor at a position.
    MoveCursor(usize),
    /// Make a span the selection.
    Select(Span),
    /// Remove a span and keep what was removed in a register.
    Delete { span: Span, register: char },
    /// Copy a span into a register.
    Yank { span: Span, register: char },
    /// Insert one character at the cursor.
    InsertText(char),
    /// Put one character in place of the one under the cursor.
    Overwrite(char),
    /// Make a mode the active one.
    SwitchMode(Mode),
}

/// What became of the key buffer after one key.
#[derive(Clone, Copy, Debug, PartialEq, Eq, Structural)]
pub enum Outcome {
    /// The keys were a command; its actions are to be carried out and the
    /// key buffer emptied.
    Applied,
    /// The keys begin a command; the key buffer is kept.
    Pending,
    /// The keys are no command; the key buffer is emptied.
    Rejected,
    /// Escape was pressed; the key buffer is emptied.
    Cancelled,
}

impl Motion {
    /// Whether the character that the motion ends on belongs to the range
    /// of an operator. The motions to the end of a word or of the line, the
    /// forward searches for a character and the jump to the matching
    /// bracket take it in; so do the motions by whole lines. All others
    /// stop short of it.
    pub open spec fn spec_is_inclusive(self) -> bool {
        match self {
            Motion::WordEnd => true,
            Motion::BigWordEnd => true,
            Motion::WordEndBackward => true,
            Motion::LineEnd => true,
            Motion::MatchingBracket => true,
            Motion::FindForward(_) => true,
            Motion::TillForward(_) => true,
            Motion::Up => true,
            Motion::Down => true,
            Motion::BufferStart => true,
            Motion::BufferEnd => true,
            _ => false,
        }
    }

    /// Whether the character that the motion ends on belongs to the range
    /// of an operator.
    pub fn is_inclusive(self) -> (r: bool)
        ensures
            r == self.spec_is_inclusive(),
    {
        match self {
            Motion::WordEnd => true,
            Motion::BigWordEnd => true,
            Motion::WordEndBackward => true,
            Motion::LineEnd => true,
            Motion::MatchingBracket => true,
            Motion::FindForward(_) => true,
            Motion::TillForward(_) => true,
            Motion::Up => true,
            Motion::Down => true,
            Motion::BufferStart => true,
            Motion::BufferEnd => true,
            _ => false,
        }
    }
}

impl Operator {
    /// The key that names the operator.
    pub open spec fn key(self) -> char {
        match self {
            Operator::Delete => 'd',
            Operator::Change => 'c',
            Operator::Yank => 'y',
        }
    }
}

impl PendingState {
    /// The state in which nothing is pending.
    pub open spec fn spec_cleared() -> PendingState {
        PendingState { count_buffer: None, pending_operator: None, pending_register: None }
    }

    /// The state in which nothing is pending.
    pub fn cleared() -> (r: PendingState)
        ensures
            r == PendingState::spec_cleared(),
    {
        PendingState { count_buffer: None, pending_operator: None, pending_register: None }
    }
}

} // verus!
