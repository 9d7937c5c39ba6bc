//! The incremental recogniser of commands.
//!
//! A command is an optional register (`"` and a name), an optional count,
//! and then either a motion, or an operator with an optional second count
//! and a target: a motion, a text object, or the operator's own key again
//! for whole lines. In a visual mode an operator acts on the selection at
//! once, and a text object may stand without an operator.
//!
//! The recogniser reads the whole buffer on every call. Keys that follow a
//! complete command are not looked at, so an answer other than `Incomplete`
//! never changes when keys are appended.

use vstd::prelude::*;
use crate::keys::{KeyCode, KeyEvent, SHIFT};
use crate::model::{
    Command, Mode, Motion, Operator, ParseResult, PendingState, Target, TextObject,
};

verus! {

/// The character of a key that was typed without control, alt or meta.
pub open spec fn spec_key_char(k: KeyEvent) -> Option<char> {
    match k.code {
        KeyCode::Char(c) => if k.modifiers == 0 || k.modifiers == SHIFT {
            Some(c)
        } else {
            None
        },
        _ => None,
    }
}

/// Whether a character names a register.
pub open spec fn spec_is_register_name(c: char) -> bool {
    ('a' <= c && c <= 'z') || ('A' <= c && c <= 'Z') || ('0' <= c && c <= '9') || c == '"'
}

/// The value of a digit key, if the key is one.
pub open spec fn spec_digit(k: KeyEvent) -> Option<nat> {
    match spec_key_char(k) {
        Some(c) => if '0' <= c && c <= '9' {
            Some((c as u32 - '0' as u32) as nat)
        } else {
            None
        },
        None => None,
    }
}

/// The run of digit keys from `i`: the decimal number that `acc` and the
/// run spell, and the index after the run.
pub open spec fn spec_digits(s: Seq<KeyEvent>, i: int, acc: nat) -> (nat, int)
    decreases s.len() - i,
{
    if 0 <= i < s.len() {
        match spec_digit(s[i]) {
            Some(d) => spec_digits(s, i + 1, acc * 10 + d),
            None => (acc, i),
        }
    } else {
        (acc, i)
    }
}

/// A number as a count: counts beyond `u32::MAX` stay at `u32::MAX`.
pub open spec fn spec_clamp(n: nat) -> u32 {
    if n > u32::MAX {
        u32::MAX
    } else {
        n as u32
    }
}

/// The product of the count before an operator and the count after it.
pub open spec fn spec_combine(a: Option<u32>, b: Option<u32>) -> Option<u32> {
    match (a, b) {
        (None, None) => None,
        (Some(x), None) => Some(x),
        (None, Some(y)) => Some(y),
        (Some(x), Some(y)) => Some(spec_clamp((x * y) as nat)),
    }
}

/// The operator that a key names.
pub open spec fn spec_operator(k: KeyEvent) -> Option<Operator> {
    match spec_key_char(k) {
        Some(c) => if c == 'd' {
            Some(Operator::Delete)
        } else if c == 'c' {
            Some(Operator::Change)
        } else if c == 'y' {
            Some(Operator::Yank)
        } else {
            None
        },
        None => None,
    }
}

/// The motion that a single character names.
pub open spec fn spec_simple_motion(c: char) -> Option<Motion> {
    if c == 'h' {
        Some(Motion::Left)
    } else if c == 'l' {
        Some(Motion::Right)
    } else if c == 'k' {
        Some(Motion::Up)
    } else if c == 'j' {
        Some(Motion::Down)
    } else if c == 'w' {
        Some(Motion::WordForward)
    } else if c == 'b' {
        Some(Motion::WordBackward)
    } else if c == 'e' {
        Some(Motion::WordEnd)
    } else if c == 'W' {
        Some(Motion::BigWordForward)
    } else if c == 'B' {
        Some(Motion::BigWordBackward)
    } else if c == 'E' {
        Some(Motion::BigWordEnd)
    } else if c == '0' {
        Some(Motion::LineStart)
    } else if c == '^' {
        Some(Motion::FirstNonBlank)
    } else if c == '$' {
        Some(Motion::LineEnd)
    } else if c == 'G' {
        Some(Motion::BufferEnd)
    } else if c == '}' {
        Some(Motion::ParagraphForward)
    } else if c == '{' {
        Some(Motion::ParagraphBackward)
    } else if c == '%' {
        Some(Motion::MatchingBracket)
    } else {
        None
    }
}

/// The motion that a character search key and its argument name.
pub open spec fn spec_find_motion(c: char, x: char) -> Option<Motion> {
    if c == 'f' {
        Some(Motion::FindForward(x))
    } else if c == 'F' {
        Some(Motion::FindBackward(x))
    } else if c == 't' {
        Some(Motion::TillForward(x))
    } else if c == 'T' {
        Some(Motion::TillBackward(x))
    } else {
        None
    }
}

/// The motion that follows `g`.
pub open spec fn spec_g_motion(x: char) -> Option<Motion> {
    if x == 'g' {
        Some(Motion::BufferStart)
    } else if x == 'e' {
        Some(Motion::WordEndBackward)
    } else {
        None
    }
}

/// The text object that a character names.
pub open spec fn spec_object_letter(c: char) -> Option<TextObject> {
    if c == 'w' {
        Some(TextObject::Word)
    } else if c == 'W' {
        Some(TextObject::BigWord)
    } else if c == 's' {
        Some(TextObject::Sentence)
    } else if c == 'p' {
        Some(TextObject::Paragraph)
    } else if c == '(' || c == ')' || c == 'b' {
        Some(TextObject::Parenthesis)
    } else if c == '[' || c == ']' {
        Some(TextObject::Bracket)
    } else if c == '{' || c == '}' || c == 'B' {
        Some(TextObject::CurlyBrace)
    } else if c == '<' || c == '>' {
        Some(TextObject::AngleBracket)
    } else if c == '"' {
        Some(TextObject::DoubleQuote)
    } else if c == '\'' {
        Some(TextObject::SingleQuote)
    } else if c == '`' {
        Some(TextObject::BackTick)
    } else if c == 't' {
        Some(TextObject::Tag)
    } else {
        None
    }
}

/// The register prefix at `i`: `"` and a register name, or nothing.
pub open spec fn spec_register(s: Seq<KeyEvent>, i: int) -> ParseResult<Option<char>> {
    if !(0 <= i < s.len()) {
        ParseResult::Incomplete
    } else if spec_key_char(s[i]) == Some('"') {
        if i + 1 >= s.len() {
            ParseResult::Incomplete
        } else {
            match spec_key_char(s[i + 1]) {
                Some(c) => if spec_is_register_name(c) {
                    ParseResult::Valid(Some(c), 2)
                } else {
                    ParseResult::Invalid
                },
                None => ParseResult::Invalid,
            }
        }
    } else {
        ParseResult::Valid(None, 0)
    }
}

/// The count at `i`: a run of digits that does not start with `0` and that
/// another key ends, or nothing. While the run reaches the end of the keys,
/// more digits may come.
pub open spec fn spec_count(s: Seq<KeyEvent>, i: int) -> ParseResult<Option<u32>> {
    if !(0 <= i < s.len()) {
        ParseResult::Incomplete
    } else if spec_digit(s[i]) is Some && spec_digit(s[i]) != Some(0nat) {
        let (n, j) = spec_digits(s, i, 0);
        if j >= s.len() {
            ParseResult::Incomplete
        } else {
            ParseResult::Valid(Some(spec_clamp(n)), (j - i) as usize)
        }
    } else {
        ParseResult::Valid(None, 0)
    }
}

/// The count that the digits from `i` on spell so far, whether or not
/// another key has ended them, and the index after them.
pub open spec fn spec_count_so_far(s: Seq<KeyEvent>, i: int) -> (Option<u32>, int) {
    if 0 <= i < s.len() && spec_digit(s[i]) is Some && spec_digit(s[i]) != Some(0nat) {
        (Some(spec_clamp(spec_digits(s, i, 0).0)), spec_digits(s, i, 0).1)
    } else {
        (None, i)
    }
}

/// The motion at `i`.
pub open spec fn spec_motion(s: Seq<KeyEvent>, i: int) -> ParseResult<Motion> {
    if !(0 <= i < s.len()) {
        ParseResult::Incomplete
    } else {
        match spec_key_char(s[i]) {
            None => ParseResult::Invalid,
            Some(c) => if c == 'g' {
                if i + 1 >= s.len() {
                    ParseResult::Incomplete
                } else {
                    match spec_key_char(s[i + 1]) {
                        Some(x) => match spec_g_motion(x) {
                            Some(m) => ParseResult::Valid(m, 2),
                            None => ParseResult::Invalid,
                        },
                        None => ParseResult::Invalid,
                    }
                }
            } else if c == 'f' || c == 'F' || c == 't' || c == 'T' {
                if i + 1 >= s.len() {
                    ParseResult::Incomplete
                } else {
                    match spec_key_char(s[i + 1]) {
                        Some(x) => match spec_find_motion(c, x) {
                            Some(m) => ParseResult::Valid(m, 2),
                            None => ParseResult::Invalid,
                        },
                        None => ParseResult::Invalid,
                    }
                }
            } else {
                match spec_simple_motion(c) {
                    Some(m) => ParseResult::Valid(m, 1),
                    None => ParseResult::Invalid,
                }
            },
        }
    }
}

/// The text object that the key at `i` names.
pub open spec fn spec_text_object(s: Seq<KeyEvent>, i: int) -> ParseResult<TextObject> {
    if !(0 <= i < s.len()) {
        ParseResult::Incomplete
    } else {
        match spec_key_char(s[i]) {
            Some(c) => match spec_object_letter(c) {
                Some(o) => ParseResult::Valid(o, 1),
                None => ParseResult::Invalid,
            },
            None => ParseResult::Invalid,
        }
    }
}

/// The target at `i`. Where `objects` holds, `i` or `a` opens a text object;
/// everything else is a motion.
pub open spec fn spec_target(s: Seq<KeyEvent>, i: int, objects: bool) -> ParseResult<Target> {
    if !(0 <= i < s.len()) {
        ParseResult::Incomplete
    } else if objects && (spec_key_char(s[i]) == Some('i') || spec_key_char(s[i]) == Some('a')) {
        match spec_text_object(s, i + 1) {
            ParseResult::Valid(o, n) => ParseResult::Valid(
                Target::Object(o, spec_key_char(s[i]) == Some('i')),
                2,
            ),
            ParseResult::Incomplete => ParseResult::Incomplete,
            ParseResult::Invalid => ParseResult::Invalid,
        }
    } else {
        match spec_motion(s, i) {
            ParseResult::Valid(m, n) => ParseResult::Valid(Target::Motion(m), n),
            ParseResult::Incomplete => ParseResult::Incomplete,
            ParseResult::Invalid => ParseResult::Invalid,
        }
    }
}

/// What follows an operator key outside the visual modes, from `q`: a
/// second count, and then the operator's key again or a target.
pub open spec fn spec_after_operator(
    s: Seq<KeyEvent>,
    q: int,
    op: Operator,
    count: Option<u32>,
    register: Option<char>,
) -> ParseResult<Command> {
    match spec_count(s, q) {
        ParseResult::Valid(second, n) => {
            let r = q + n;
            let both = spec_combine(count, second);
            if !(0 <= r < s.len()) {
                ParseResult::Incomplete
            } else if spec_key_char(s[r]) == Some(op.key()) {
                ParseResult::Valid(
                    Command { count: both, operator: Some(op), target: Target::Line, register },
                    (r + 1) as usize,
                )
            } else {
                match spec_target(s, r, true) {
                    ParseResult::Valid(t, m) => ParseResult::Valid(
                        Command { count: both, operator: Some(op), target: t, register },
                        (r + m) as usize,
                    ),
                    ParseResult::Incomplete => ParseResult::Incomplete,
                    ParseResult::Invalid => ParseResult::Invalid,
                }
            }
        },
        ParseResult::Incomplete => ParseResult::Incomplete,
        ParseResult::Invalid => ParseResult::Invalid,
    }
}

/// Whether commands are read in a mode at all.
pub open spec fn spec_reads_commands(mode: Mode) -> bool {
    mode != Mode::Insert && mode != Mode::Replace
}

/// Whether a mode is one of the two visual modes.
pub open spec fn spec_is_visual(mode: Mode) -> bool {
    mode == Mode::Visual || mode == Mode::VisualLine
}

/// The classification of a key buffer in a mode.
pub open spec fn spec_parse(s: Seq<KeyEvent>, mode: Mode) -> ParseResult<Command> {
    if !spec_reads_commands(mode) {
        ParseResult::Invalid
    } else {
        match spec_register(s, 0) {
            ParseResult::Valid(register, n0) => match spec_count(s, n0 as int) {
                ParseResult::Valid(count, n1) => {
                    let p = n0 + n1;
                    if !(0 <= p < s.len()) {
                        ParseResult::Incomplete
                    } else {
                        match spec_operator(s[p]) {
                            Some(op) => if spec_is_visual(mode) {
                                ParseResult::Valid(
                                    Command {
                                        count,
                                        operator: Some(op),
                                        target: Target::Selection,
                                        register,
                                    },
                                    (p + 1) as usize,
                                )
                            } else {
                                spec_after_operator(s, p + 1, op, count, register)
                            },
                            None => match spec_target(s, p, spec_is_visual(mode)) {
                                ParseResult::Valid(t, m) => ParseResult::Valid(
                                    Command { count, operator: None, target: t, register },
                                    (p + m) as usize,
                                ),
                                ParseResult::Incomplete => ParseResult::Incomplete,
                                ParseResult::Invalid => ParseResult::Invalid,
                            },
                        }
                    }
                },
                ParseResult::Incomplete => ParseResult::Incomplete,
                ParseResult::Invalid => ParseResult::Invalid,
            },
            ParseResult::Incomplete => ParseResult::Incomplete,
            ParseResult::Invalid => ParseResult::Invalid,
        }
    }
}

/// What the keys of an unfinished command have fixed so far: the
/// register, the operator, and the product of the counts typed.
pub open spec fn spec_pending(s: Seq<KeyEvent>) -> PendingState {
    match spec_register(s, 0) {
        ParseResult::Valid(register, n0) => {
            let (first, p) = spec_count_so_far(s, n0 as int);
            if 0 <= p < s.len() && spec_operator(s[p]) is Some {
                PendingState {
                    count_buffer: spec_combine(first, spec_count_so_far(s, p + 1).0),
                    pending_operator: spec_operator(s[p]),
                    pending_register: register,
                }
            } else {
                PendingState {
                    count_buffer: first,
                    pending_operator: None,
                    pending_register: register,
                }
            }
        },
        _ => PendingState::spec_cleared(),
    }
}

/// A run of digits ends at or after its start and inside the keys.
proof fn lemma_digits_end(s: Seq<KeyEvent>, i: int, acc: nat)
    requires
        0 <= i <= s.len(),
    ensures
        i <= spec_digits(s, i, acc).1 <= s.len(),
    decreases s.len() - i,
{
    if i < s.len() {
        match spec_digit(s[i]) {
            Some(d) => lemma_digits_end(s, i + 1, acc * 10 + d),
            None => {},
        }
    }
}

/// A run of digits that another key ends is read alike in every extension
/// of the keys.
proof fn lemma_digits_stable(s: Seq<KeyEvent>, t: Seq<KeyEvent>, i: int, acc: nat)
    requires
        s.is_prefix_of(t),
        0 <= i <= s.len(),
        spec_digits(s, i, acc).1 < s.len(),
    ensures
        spec_digits(t, i, acc) == spec_digits(s, i, acc),
    decreases s.len() - i,
{
    lemma_digits_end(s, i, acc);
    assert(i < s.len());
    assert(t[i] == s[i]);
    match spec_digit(s[i]) {
        Some(d) => lemma_digits_stable(s, t, i + 1, acc * 10 + d),
        None => {},
    }
}

/// Once a sub-recogniser has answered `Valid` or `Invalid`, appended keys do
/// not change its answer.
pub proof fn lemma_parts_stable(s: Seq<KeyEvent>, t: Seq<KeyEvent>, i: int)
    requires
        s.is_prefix_of(t),
        0 <= i,
    ensures
        !(spec_register(s, i) is Incomplete) ==> spec_register(t, i) == spec_register(s, i),
        !(spec_count(s, i) is Incomplete) ==> spec_count(t, i) == spec_count(s, i),
        !(spec_motion(s, i) is Incomplete) ==> spec_motion(t, i) == spec_motion(s, i),
        !(spec_text_object(s, i) is Incomplete) ==> spec_text_object(t, i) == spec_text_object(
            s,
            i,
        ),
        forall|objects: bool|
            !(#[trigger] spec_target(s, i, objects) is Incomplete) ==> spec_target(t, i, objects)
                == spec_target(s, i, objects),
{
    assert(forall|k: int| 0 <= k < s.len() ==> t[k] == s[k]);
    if i < s.len() {
        if spec_digit(s[i]) is Some && spec_digit(s[i]) != Some(0nat) {
            lemma_digits_end(s, i, 0);
            if spec_digits(s, i, 0).1 < s.len() {
                lemma_digits_stable(s, t, i, 0);
            }
        }
    }
}

/// Once what follows an operator has been classified as `Valid` or
/// `Invalid`, appended keys do not change the answer.
proof fn lemma_after_operator_stable(
    s: Seq<KeyEvent>,
    t: Seq<KeyEvent>,
    q: int,
    op: Operator,
    count: Option<u32>,
    register: Option<char>,
)
    requires
        s.is_prefix_of(t),
        0 <= q,
        !(spec_after_operator(s, q, op, count, register) is Incomplete),
    ensures
        spec_after_operator(t, q, op, count, register) == spec_after_operator(
            s,
            q,
            op,
            count,
            register,
        ),
{
    assert(forall|k: int| 0 <= k < s.len() ==> t[k] == s[k]);
    lemma_parts_stable(s, t, q);
    match spec_count(s, q) {
        ParseResult::Valid(second, n) => {
            lemma_parts_stable(s, t, q + n);
        },
        _ => {},
    }
}

/// A buffer that has been classified as `Valid` or `Invalid` is classified
/// alike with any keys appended: only `Incomplete` can change.
pub proof fn lemma_parse_stable(s: Seq<KeyEvent>, t: Seq<KeyEvent>, mode: Mode)
    requires
        s.is_prefix_of(t),
        !(spec_parse(s, mode) is Incomplete),
    ensures
        spec_parse(t, mode) == spec_parse(s, mode),
{
    if spec_reads_commands(mode) {
        assert(forall|k: int| 0 <= k < s.len() ==> t[k] == s[k]);
        lemma_parts_stable(s, t, 0);
        match spec_register(s, 0) {
            ParseResult::Valid(register, n0) => {
                lemma_parts_stable(s, t, n0 as int);
                match spec_count(s, n0 as int) {
                    ParseResult::Valid(count, n1) => {
                        let p = n0 + n1;
                        lemma_parts_stable(s, t, p);
                        match spec_operator(s[p]) {
                            Some(op) => {
                                if !spec_is_visual(mode) {
                                    lemma_after_operator_stable(s, t, p + 1, op, count, register);
                                }
                            },
                            None => {},
                        }
                    },
                    _ => {},
                }
            },
            _ => {},
        }
    }
}

/// Prefix monotonicity: a buffer that is `Invalid` stays `Invalid` whatever
/// keys are appended to it.
pub proof fn lemma_invalid_is_final(s: Seq<KeyEvent>, t: Seq<KeyEvent>, mode: Mode)
    requires
        s.is_prefix_of(t),
        spec_parse(s, mode) is Invalid,
    ensures
        spec_parse(t, mode) is Invalid,
{
    lemma_parse_stable(s, t, mode);
}

/// Classification depends on the keys and the mode alone: equal buffers in
/// one mode are classified alike, however often they are read.
pub proof fn lemma_parse_repeatable(s: Seq<KeyEvent>, t: Seq<KeyEvent>, mode: Mode)
    requires
        s =~= t,
    ensures
        spec_parse(s, mode) == spec_parse(t, mode),
{
}

/// A command is `Valid` only with a target: it took at least one key, all
/// of them from the buffer, and outside the visual modes an operator took
/// at least one key more than its own.
pub proof fn lemma_valid_takes_keys(s: Seq<KeyEvent>, mode: Mode)
    requires
        spec_parse(s, mode) is Valid,
        s.len() <= usize::MAX,
    ensures
        0 < spec_parse(s, mode)->Valid_1 <= s.len(),
        spec_parse(s, mode)->Valid_0.operator is Some && !spec_is_visual(mode) ==> 2 <= spec_parse(
            s,
            mode,
        )->Valid_1,
        spec_parse(s, mode)->Valid_0.operator is Some && spec_is_visual(mode) ==> spec_parse(
            s,
            mode,
        )->Valid_0.target == Target::Selection,
        spec_parse(s, mode)->Valid_0.target is Object ==> spec_is_visual(mode) || spec_parse(
            s,
            mode,
        )->Valid_0.operator is Some,
{
    match spec_register(s, 0) {
        ParseResult::Valid(register, n0) => {
            match spec_count(s, n0 as int) {
                ParseResult::Valid(count, n1) => {
                    if n1 > 0 {
                        lemma_digits_end(s, n0 as int, 0);
                    }
                    let p = n0 + n1;
                    match spec_operator(s[p]) {
                        Some(op) => {
                            if !spec_is_visual(mode) {
                                match spec_count(s, p + 1) {
                                    ParseResult::Valid(second, n2) => {
                                        if n2 > 0 {
                                            lemma_digits_end(s, p + 1, 0);
                                        }
                                    },
                                    _ => {},
                                }
                            }
                        },
                        None => {},
                    }
                },
                _ => {},
            }
        },
        _ => {},
    }
}

/// Counts compose by multiplication: a command with a count before its
/// operator and a count before its target has their product as its count,
/// kept at `u32::MAX` where the product is larger.
pub proof fn lemma_counts_multiply(
    s: Seq<KeyEvent>,
    q: int,
    op: Operator,
    first: u32,
    second: u32,
    n: usize,
    register: Option<char>,
)
    requires
        spec_count(s, q) == ParseResult::Valid(Some(second), n),
        spec_after_operator(s, q, op, Some(first), register) is Valid,
    ensures
        spec_after_operator(s, q, op, Some(first), register)->Valid_0.count == Some(
            spec_clamp((first * second) as nat),
        ),
        spec_after_operator(s, q, op, Some(first), register)->Valid_0.operator == Some(op),
        first * second <= u32::MAX ==> spec_after_operator(
            s,
            q,
            op,
            Some(first),
            register,
        )->Valid_0.count == Some((first * second) as u32),
{
}

/// The key that types a character without any modifier.
pub open spec fn spec_plain(c: char) -> KeyEvent {
    KeyEvent { code: KeyCode::Char(c), modifiers: 0 }
}

/// Keys that complete a target cut short at `i`: `g` after `g`, else `w`,
/// which is a motion, a text object and the argument of a search alike.
pub open spec fn spec_target_completion(s: Seq<KeyEvent>, i: int) -> Seq<KeyEvent> {
    if 0 <= i < s.len() && spec_key_char(s[i]) == Some('g') {
        seq![spec_plain('g')]
    } else {
        seq![spec_plain('w')]
    }
}

/// Keys that complete an `Incomplete` buffer to a command.
pub open spec fn spec_completion(s: Seq<KeyEvent>, mode: Mode) -> Seq<KeyEvent> {
    match spec_register(s, 0) {
        ParseResult::Valid(register, n0) => match spec_count(s, n0 as int) {
            ParseResult::Valid(count, n1) => {
                let p = n0 + n1;
                if 0 <= p < s.len() && spec_operator(s[p]) is Some && !spec_is_visual(mode) {
                    match spec_count(s, p + 1) {
                        ParseResult::Valid(second, n2) => spec_target_completion(s, p + 1 + n2),
                        _ => seq![spec_plain('w')],
                    }
                } else {
                    spec_target_completion(s, p)
                }
            },
            _ => seq![spec_plain('w')],
        },
        _ => if s.len() == 0 {
            seq![spec_plain('w')]
        } else {
            seq![spec_plain('a'), spec_plain('w')]
        },
    }
}

proof fn lemma_digits_extend(s: Seq<KeyEvent>, k: KeyEvent, i: int, acc: nat)
    requires
        0 <= i <= s.len(),
        spec_digits(s, i, acc).1 >= s.len(),
        spec_digit(k) is None,
    ensures
        spec_digits(s.push(k), i, acc) == (spec_digits(s, i, acc).0, s.len() as int),
    decreases s.len() - i,
{
    if i < s.len() {
        assert(s.push(k)[i] == s[i]);
        match spec_digit(s[i]) {
            Some(d) => lemma_digits_extend(s, k, i + 1, acc * 10 + d),
            None => {},
        }
    } else {
        assert(s.push(k)[i] == k);
    }
}

/// A count cut short at `i` is ended by `w`, and `w` is read next.
proof fn lemma_count_completes(s: Seq<KeyEvent>, i: int)
    requires
        0 <= i <= s.len(),
        s.len() < usize::MAX,
        spec_count(s, i) is Incomplete,
    ensures
        spec_count(s.push(spec_plain('w')), i) is Valid,
        i + spec_count(s.push(spec_plain('w')), i)->Valid_1 == s.len(),
{
    let t = s.push(spec_plain('w'));
    if i < s.len() {
        assert(t[i] == s[i]);
        lemma_digits_extend(s, spec_plain('w'), i, 0);
    } else {
        assert(t[i] == spec_plain('w'));
    }
}

/// A target cut short at `i` is completed by one more key.
proof fn lemma_target_completes(s: Seq<KeyEvent>, i: int, objects: bool)
    requires
        0 <= i <= s.len(),
        spec_target(s, i, objects) is Incomplete,
    ensures
        spec_target(s + spec_target_completion(s, i), i, objects) is Valid,
{
    let t = s + spec_target_completion(s, i);
    assert(forall|k: int| 0 <= k < s.len() ==> t[k] == s[k]);
    assert(t[s.len() as int] == spec_target_completion(s, i)[0]);
}

/// `Incomplete` is the beginning of a command: keys can be appended that
/// make the buffer `Valid`.
pub proof fn lemma_incomplete_can_complete(s: Seq<KeyEvent>, mode: Mode)
    requires
        spec_parse(s, mode) is Incomplete,
        s.len() + 2 < usize::MAX,
    ensures
        s.is_prefix_of(s + spec_completion(s, mode)),
        spec_parse(s + spec_completion(s, mode), mode) is Valid,
{
    let more = spec_completion(s, mode);
    let t = s + more;
    assert(s =~= t.subrange(0, s.len() as int));
    assert(forall|k: int| 0 <= k < s.len() ==> t[k] == s[k]);
    let w = spec_plain('w');
    lemma_parts_stable(s, t, 0);
    match spec_register(s, 0) {
        ParseResult::Valid(register, n0) => {
            lemma_parts_stable(s, t, n0 as int);
            match spec_count(s, n0 as int) {
                ParseResult::Valid(count, n1) => {
                    let p = n0 + n1;
                    lemma_digits_end(s, n0 as int, 0);
                    assert(0 <= p < s.len());
                    lemma_parts_stable(s, t, p);
                    if spec_operator(s[p]) is Some && !spec_is_visual(mode) {
                        lemma_parts_stable(s, t, p + 1);
                        match spec_count(s, p + 1) {
                            ParseResult::Valid(second, n2) => {
                                let r = p + 1 + n2;
                                lemma_digits_end(s, p + 1, 0);
                                assert(p + 1 <= r < s.len());
                                lemma_parts_stable(s, t, r);
                                lemma_target_completes(s, r, true);
                            },
                            _ => {
                                assert(t =~= s.push(w));
                                lemma_count_completes(s, p + 1);
                                assert(t[s.len() as int] == w);
                            },
                        }
                    } else {
                        lemma_target_completes(s, p, spec_is_visual(mode));
                    }
                },
                _ => {
                    assert(t =~= s.push(w));
                    lemma_count_completes(s, n0 as int);
                    assert(t[s.len() as int] == w);
                },
            }
        },
        _ => {
            if s.len() == 0 {
                assert(t[0] == w);
            } else {
                assert(t[1] == spec_plain('a'));
                assert(t[2] == w);
            }
        },
    }
}

/// The character of a key that was typed without control, alt or meta.
pub fn key_char(k: KeyEvent) -> (r: Option<char>)
    ensures
        r == spec_key_char(k),
{
    match k.code {
        KeyCode::Char(c) => {
            if k.modifiers == 0 || k.modifiers == SHIFT {
                Some(c)
            } else {
                None
            }
        },
        _ => None,
    }
}

fn key_is(k: KeyEvent, c: char) -> (r: bool)
    ensures
        r == (spec_key_char(k) == Some(c)),
{
    match key_char(k) {
        Some(x) => x == c,
        None => false,
    }
}

fn digit_of(k: KeyEvent) -> (r: Option<u32>)
    ensures
        match r {
            Some(d) => spec_digit(k) == Some(d as nat) && d <= 9,
            None => spec_digit(k) is None,
        },
{
    match key_char(k) {
        Some(c) => {
            if '0' <= c && c <= '9' {
                Some(c as u32 - '0' as u32)
            } else {
                None
            }
        },
        None => None,
    }
}

/// Recognises a register prefix at `pos`.
pub fn parse_register(input: &[KeyEvent], pos: usize) -> (r: ParseResult<Option<char>>)
    ensures
        r == spec_register(input@, pos as int),
{
    if pos >= input.len() {
        ParseResult::Incomplete
    } else if key_is(input[pos], '"') {
        if input.len() - pos <= 1 {
            ParseResult::Incomplete
        } else {
            match key_char(input[pos + 1]) {
                Some(c) => {
                    if ('a' <= c && c <= 'z') || ('A' <= c && c <= 'Z') || ('0' <= c && c <= '9')
                        || c == '"' {
                        ParseResult::Valid(Some(c), 2)
                    } else {
                        ParseResult::Invalid
                    }
                },
                None => ParseResult::Invalid,
            }
        }
    } else {
        ParseResult::Valid(None, 0)
    }
}

/// Reads the digits of a count from `pos` on: the count so far, and the
/// index after the digits. Digits past `u32::MAX` leave the count at
/// `u32::MAX`.
pub fn scan_count(input: &[KeyEvent], pos: usize) -> (r: (Option<u32>, usize))
    ensures
        (r.0, r.1 as int) == spec_count_so_far(input@, pos as int),
        pos < input@.len() ==> pos <= r.1 <= input@.len(),
        r.0 is Some ==> pos < r.1,
{
    if pos >= input.len() {
        return (None, pos);
    }
    match digit_of(input[pos]) {
        Some(first) => {
            if first == 0 {
                return (None, pos);
            }
        },
        None => {
            return (None, pos);
        },
    }
    let mut acc: u32 = 0;
    let mut j: usize = pos;
    let ghost mut n: nat = 0;
    while j < input.len()
        invariant
            pos <= j <= input.len(),
            pos < input.len(),
            j == pos ==> n == 0,
            spec_digit(input@[pos as int]) is Some,
            spec_digit(input@[pos as int]) != Some(0nat),
            acc == spec_clamp(n),
            spec_digits(input@, pos as int, 0) == spec_digits(input@, j as int, n),
        decreases input.len() - j,
    {
        match digit_of(input[j]) {
            Some(d) => {
                let wide: u64 = acc as u64 * 10 + d as u64;
                acc = if wide > u32::MAX as u64 {
                    u32::MAX
                } else {
                    wide as u32
                };
                proof {
                    n = n * 10 + d as nat;
                }
                j = j + 1;
            },
            None => {
                return (Some(acc), j);
            },
        }
    }
    (Some(acc), j)
}

/// Recognises a count at `pos`: `Incomplete` while the digits reach the end
/// of the keys, since more may come.
pub fn parse_count(input: &[KeyEvent], pos: usize) -> (r: ParseResult<Option<u32>>)
    ensures
        r == spec_count(input@, pos as int),
        match r {
            ParseResult::Valid(_, n) => pos + n < input@.len(),
            _ => true,
        },
{
    if pos >= input.len() {
        return ParseResult::Incomplete;
    }
    let (count, end) = scan_count(input, pos);
    if count.is_none() {
        ParseResult::Valid(None, 0)
    } else if end >= input.len() {
        ParseResult::Incomplete
    } else {
        ParseResult::Valid(count, end - pos)
    }
}

/// What the keys of an unfinished command have fixed so far.
pub fn pending_of(input: &[KeyEvent]) -> (r: PendingState)
    ensures
        r == spec_pending(input@),
{
    match parse_register(input, 0) {
        ParseResult::Valid(register, n0) => {
            let (first, p) = scan_count(input, n0);
            if p < input.len() {
                match operator_of(input[p]) {
                    Some(op) => {
                        let (second, _) = scan_count(input, p + 1);
                        return PendingState {
                            count_buffer: combine_counts(first, second),
                            pending_operator: Some(op),
                            pending_register: register,
                        };
                    },
                    None => {},
                }
            }
            PendingState { count_buffer: first, pending_operator: None, pending_register: register }
        },
        _ => PendingState::cleared(),
    }
}

/// The product of two counts, an absent count standing for one; products
/// past `u32::MAX` stay at `u32::MAX`.
pub fn combine_counts(a: Option<u32>, b: Option<u32>) -> (r: Option<u32>)
    ensures
        r == spec_combine(a, b),
{
    match (a, b) {
        (None, None) => None,
        (Some(x), None) => Some(x),
        (None, Some(y)) => Some(y),
        (Some(x), Some(y)) => {
            assert(x as u64 * y as u64 <= 0xffff_ffff * 0xffff_ffff) by (nonlinear_arith)
                requires
                    x <= 0xffff_ffff,
                    y <= 0xffff_ffff,
            ;
            let wide: u64 = x as u64 * y as u64;
            if wide > u32::MAX as u64 {
                Some(u32::MAX)
            } else {
                Some(wide as u32)
            }
        },
    }
}

fn operator_of(k: KeyEvent) -> (r: Option<Operator>)
    ensures
        r == spec_operator(k),
{
    match key_char(k) {
        Some(c) => {
            if c == 'd' {
                Some(Operator::Delete)
            } else if c == 'c' {
                Some(Operator::Change)
            } else if c == 'y' {
                Some(Operator::Yank)
            } else {
                None
            }
        },
        None => None,
    }
}

fn operator_key(op: Operator) -> (r: char)
    ensures
        r == op.key(),
{
    match op {
        Operator::Delete => 'd',
        Operator::Change => 'c',
        Operator::Yank => 'y',
    }
}

fn simple_motion(c: char) -> (r: Option<Motion>)
    ensures
        r == spec_simple_motion(c),
{
    if c == 'h' {
        Some(Motion::Left)
    } else if c == 'l' {
        Some(Motion::Right)
    } else if c == 'k' {
        Some(Motion::Up)
    } else if c == 'j' {
        Some(Motion::Down)
    } else if c == 'w' {
        Some(Motion::WordForward)
    } else if c == 'b' {
        Some(Motion::WordBackward)
    } else if c == 'e' {
        Some(Motion::WordEnd)
    } else if c == 'W' {
        Some(Motion::BigWordForward)
    } else if c == 'B' {
        Some(Motion::BigWordBackward)
    } else if c == 'E' {
        Some(Motion::BigWordEnd)
    } else if c == '0' {
        Some(Motion::LineStart)
    } else if c == '^' {
        Some(Motion::FirstNonBlank)
    } else if c == '$' {
        Some(Motion::LineEnd)
    } else if c == 'G' {
        Some(Motion::BufferEnd)
    } else if c == '}' {
        Some(Motion::ParagraphForward)
    } else if c == '{' {
        Some(Motion::ParagraphBackward)
    } else if c == '%' {
        Some(Motion::MatchingBracket)
    } else {
        None
    }
}

fn object_letter(c: char) -> (r: Option<TextObject>)
    ensures
        r == spec_object_letter(c),
{
    if c == 'w' {
        Some(TextObject::Word)
    } else if c == 'W' {
        Some(TextObject::BigWord)
    } else if c == 's' {
        Some(TextObject::Sentence)
    } else if c == 'p' {
        Some(TextObject::Paragraph)
    } else if c == '(' || c == ')' || c == 'b' {
        Some(TextObject::Parenthesis)
    } else if c == '[' || c == ']' {
        Some(TextObject::Bracket)
    } else if c == '{' || c == '}' || c == 'B' {
        Some(TextObject::CurlyBrace)
    } else if c == '<' || c == '>' {
        Some(TextObject::AngleBracket)
    } else if c == '"' {
        Some(TextObject::DoubleQuote)
    } else if c == '\'' {
        Some(TextObject::SingleQuote)
    } else if c == '`' {
        Some(TextObject::BackTick)
    } else if c == 't' {
        Some(TextObject::Tag)
    } else {
        None
    }
}

/// Recognises a motion at `pos`: one key, or `g`, `f`, `F`, `t` or `T` and
/// the key that completes it.
pub fn parse_motion(input: &[KeyEvent], pos: usize) -> (r: ParseResult<Motion>)
    ensures
        r == spec_motion(input@, pos as int),
        match r {
            ParseResult::Valid(_, n) => 0 < n && pos + n <= input@.len(),
            _ => true,
        },
{
    if pos >= input.len() {
        return ParseResult::Incomplete;
    }
    match key_char(input[pos]) {
        None => ParseResult::Invalid,
        Some(c) => {
            if c == 'g' || c == 'f' || c == 'F' || c == 't' || c == 'T' {
                if input.len() - pos <= 1 {
                    ParseResult::Incomplete
                } else {
                    match key_char(input[pos + 1]) {
                        Some(x) => {
                            let m = if c == 'g' {
                                if x == 'g' {
                                    Some(Motion::BufferStart)
                                } else if x == 'e' {
                                    Some(Motion::WordEndBackward)
                                } else {
                                    None
                                }
                            } else if c == 'f' {
                                Some(Motion::FindForward(x))
                            } else if c == 'F' {
                                Some(Motion::FindBackward(x))
                            } else if c == 't' {
                                Some(Motion::TillForward(x))
                            } else {
                                Some(Motion::TillBackward(x))
                            };
                            match m {
                                Some(m) => ParseResult::Valid(m, 2),
                                None => ParseResult::Invalid,
                            }
                        },
                        None => ParseResult::Invalid,
                    }
                }
            } else {
                match simple_motion(c) {
                    Some(m) => ParseResult::Valid(m, 1),
                    None => ParseResult::Invalid,
                }
            }
        },
    }
}

/// Recognises the letter of a text object at `pos`: `Incomplete` where the
/// keys end before it, `Invalid` where the key names no text object.
pub fn parse_text_object(input: &[KeyEvent], pos: usize) -> (r: ParseResult<TextObject>)
    ensures
        r == spec_text_object(input@, pos as int),
{
    if pos >= input.len() {
        return ParseResult::Incomplete;
    }
    match key_char(input[pos]) {
        Some(c) => match object_letter(c) {
            Some(o) => ParseResult::Valid(o, 1),
            None => ParseResult::Invalid,
        },
        None => ParseResult::Invalid,
    }
}

/// Recognises a target at `pos`: with `objects`, `i` or `a` and the letter
/// of a text object; else a motion.
pub fn parse_target(input: &[KeyEvent], pos: usize, objects: bool) -> (r: ParseResult<Target>)
    ensures
        r == spec_target(input@, pos as int, objects),
        match r {
            ParseResult::Valid(_, n) => 0 < n && pos + n <= input@.len(),
            _ => true,
        },
{
    if pos >= input.len() {
        return ParseResult::Incomplete;
    }
    let inner: bool = key_is(input[pos], 'i');
    if objects && (inner || key_is(input[pos], 'a')) {
        match parse_text_object(input, pos + 1) {
            ParseResult::Valid(o, _) => ParseResult::Valid(Target::Object(o, inner), 2),
            ParseResult::Incomplete => ParseResult::Incomplete,
            ParseResult::Invalid => ParseResult::Invalid,
        }
    } else {
        match parse_motion(input, pos) {
            ParseResult::Valid(m, n) => ParseResult::Valid(Target::Motion(m), n),
            ParseResult::Incomplete => ParseResult::Incomplete,
            ParseResult::Invalid => ParseResult::Invalid,
        }
    }
}

fn parse_after_operator(
    input: &[KeyEvent],
    q: usize,
    op: Operator,
    count: Option<u32>,
    register: Option<char>,
) -> (r: ParseResult<Command>)
    ensures
        r == spec_after_operator(input@, q as int, op, count, register),
{
    if q >= input.len() {
        return ParseResult::Incomplete;
    }
    match parse_count(input, q) {
        ParseResult::Valid(second, n) => {
            let at: usize = q + n;
            let both = combine_counts(count, second);
            if key_is(input[at], operator_key(op)) {
                ParseResult::Valid(
                    Command { count: both, operator: Some(op), target: Target::Line, register },
                    at + 1,
                )
            } else {
                match parse_target(input, at, true) {
                    ParseResult::Valid(t, m) => ParseResult::Valid(
                        Command { count: both, operator: Some(op), target: t, register },
                        at + m,
                    ),
                    ParseResult::Incomplete => ParseResult::Incomplete,
                    ParseResult::Invalid => ParseResult::Invalid,
                }
            }
        },
        ParseResult::Incomplete => ParseResult::Incomplete,
        ParseResult::Invalid => ParseResult::Invalid,
    }
}

/// Classifies a key buffer in a mode: `Valid` with the command at its front
/// and the number of keys the command took, `Incomplete` while the keys are
/// the beginning of a command, `Invalid` once no further key can make them
/// one. Nothing but the buffer and the mode is read, and nothing is changed.
pub fn parse(buffer: &[KeyEvent], mode: Mode) -> (r: ParseResult<Command>)
    ensures
        r == spec_parse(buffer@, mode),
{
    let visual: bool = match mode {
        Mode::Insert => {
            return ParseResult::Invalid;
        },
        Mode::Replace => {
            return ParseResult::Invalid;
        },
        Mode::Visual => true,
        Mode::VisualLine => true,
        Mode::Normal => false,
        Mode::OperatorPending => false,
    };
    match parse_register(buffer, 0) {
        ParseResult::Valid(register, n0) => match parse_count(buffer, n0) {
            ParseResult::Valid(count, n1) => {
                let p: usize = n0 + n1;
                match operator_of(buffer[p]) {
                    Some(op) => {
                        if visual {
                            ParseResult::Valid(
                                Command {
                                    count,
                                    operator: Some(op),
                                    target: Target::Selection,
                                    register,
                                },
                                p + 1,
                            )
                        } else {
                            parse_after_operator(buffer, p + 1, op, count, register)
                        }
                    },
                    None => match parse_target(buffer, p, visual) {
                        ParseResult::Valid(t, m) => ParseResult::Valid(
                            Command { count, operator: None, target: t, register },
                            p + m,
                        ),
                        ParseResult::Incomplete => ParseResult::Incomplete,
                        ParseResult::Invalid => ParseResult::Invalid,
                    },
                }
            },
            ParseResult::Incomplete => ParseResult::Incomplete,
            ParseResult::Invalid => ParseResult::Invalid,
        },
        ParseResult::Incomplete => ParseResult::Incomplete,
        ParseResult::Invalid => ParseResult::Invalid,
    }
}

} // verus!
