//! Where a motion leads in a buffer, and the span that an operator takes
//! with it.
//!
//! A position is an index into the text, at most its length. One step of a
//! motion never leaves the text; a motion that cannot go on stays where it
//! is, and a repeated motion stops there.

use vstd::prelude::*;
use crate::model::{Motion, Span};
use crate::text_object::{
    clamped, find_char, find_closer, find_opener, is_blank, line_start, spec_clamped, spec_closer,
    spec_find, spec_is_blank, spec_is_word_char, spec_line_start, spec_opener,
};

verus! {

/// The kind of a character for the word motions: 0 for a blank, 1 for a
/// word character (with `big`, for every other character), 2 for the rest.
pub open spec fn spec_kind(c: char, big: bool) -> int {
    if spec_is_blank(c) {
        0
    } else if big || spec_is_word_char(c) {
        1
    } else {
        2
    }
}

/// End of the run of characters of kind `k` that starts at `p`.
pub open spec fn spec_skip(text: Seq<char>, p: int, k: int, big: bool) -> int
    decreases text.len() - p,
{
    if 0 <= p < text.len() && spec_kind(text[p], big) == k {
        spec_skip(text, p + 1, k, big)
    } else {
        p
    }
}

/// Start of the run of characters of kind `k` that ends just before `p`.
pub open spec fn spec_skip_back(text: Seq<char>, p: int, k: int, big: bool) -> int
    decreases p,
{
    if 0 < p <= text.len() && spec_kind(text[p - 1], big) == k {
        spec_skip_back(text, p - 1, k, big)
    } else {
        p
    }
}

/// The index of the line end at or after `p`, or the length of the text.
pub open spec fn spec_line_end(text: Seq<char>, p: int) -> int {
    spec_find(text, '\n', p, text.len() as int)
}

/// Start of the next word: past the run under the cursor and the blanks
/// after it.
pub open spec fn spec_word_forward(text: Seq<char>, pos: int, big: bool) -> int {
    if !(0 <= pos < text.len()) {
        pos
    } else {
        let k = spec_kind(text[pos], big);
        let a = if k != 0 {
            spec_skip(text, pos, k, big)
        } else {
            pos
        };
        spec_skip(text, a, 0, big)
    }
}

/// Start of the word before the cursor: back over blanks, then to the start
/// of the run before them.
pub open spec fn spec_word_backward(text: Seq<char>, pos: int, big: bool) -> int {
    let a = spec_skip_back(text, pos, 0, big);
    if 0 < a <= text.len() {
        spec_skip_back(text, a, spec_kind(text[a - 1], big), big)
    } else {
        a
    }
}

/// Last character of the next run after the cursor; the cursor itself
/// where none follows.
pub open spec fn spec_word_end(text: Seq<char>, pos: int, big: bool) -> int {
    let a = spec_skip(text, pos + 1, 0, big);
    if 0 <= a < text.len() {
        spec_skip(text, a, spec_kind(text[a], big), big) - 1
    } else {
        pos
    }
}

/// Last character of the run before the one under the cursor; the cursor
/// itself where none comes before.
pub open spec fn spec_word_end_backward(text: Seq<char>, pos: int, big: bool) -> int {
    let start = if 0 <= pos < text.len() && spec_kind(text[pos], big) != 0 {
        spec_skip_back(text, pos, spec_kind(text[pos], big), big)
    } else {
        pos
    };
    let a = spec_skip_back(text, start, 0, big);
    if a > 0 {
        a - 1
    } else {
        pos
    }
}

/// End of the spaces and tabs from `p` on, before `end`.
pub open spec fn spec_skip_indent(text: Seq<char>, p: int, end: int) -> int
    decreases end - p,
{
    if 0 <= p < end <= text.len() && (text[p] == ' ' || text[p] == '\t') {
        spec_skip_indent(text, p + 1, end)
    } else {
        p
    }
}

/// One line up, in the same column or at the end of a shorter line.
pub open spec fn spec_up(text: Seq<char>, pos: int) -> int {
    let s = spec_line_start(text, pos);
    if s <= 0 {
        pos
    } else {
        let before = spec_line_start(text, s - 1);
        if before + (pos - s) > s - 1 {
            s - 1
        } else {
            before + (pos - s)
        }
    }
}

/// One line down, in the same column or at the end of a shorter line.
pub open spec fn spec_down(text: Seq<char>, pos: int) -> int {
    let s = spec_line_start(text, pos);
    let e = spec_line_end(text, pos);
    if e >= text.len() {
        pos
    } else {
        let after = spec_line_end(text, e + 1);
        if e + 1 + (pos - s) > after {
            after
        } else {
            e + 1 + (pos - s)
        }
    }
}

/// Whether an empty line starts at `p`.
pub open spec fn spec_is_empty_line(text: Seq<char>, p: int) -> bool {
    0 <= p < text.len() && text[p] == '\n' && (p == 0 || text[p - 1] == '\n')
}

/// The first empty line from `p` on, or the end of the text.
pub open spec fn spec_next_empty_line(text: Seq<char>, p: int) -> int
    decreases text.len() - p,
{
    if !(0 <= p < text.len()) {
        text.len() as int
    } else if spec_is_empty_line(text, p) {
        p
    } else {
        spec_next_empty_line(text, p + 1)
    }
}

/// The last empty line before `p`, or the start of the text.
pub open spec fn spec_last_empty_line(text: Seq<char>, p: int) -> int
    decreases p,
{
    if !(0 < p <= text.len()) {
        0
    } else if spec_is_empty_line(text, p - 1) {
        p - 1
    } else {
        spec_last_empty_line(text, p - 1)
    }
}

/// The last index from `start` on, before `p`, that holds `c`.
pub open spec fn spec_find_last(text: Seq<char>, c: char, start: int, p: int) -> Option<int>
    decreases p,
{
    if !(0 <= start < p <= text.len()) {
        None
    } else if text[p - 1] == c {
        Some(p - 1)
    } else {
        spec_find_last(text, c, start, p - 1)
    }
}

/// The bracket that matches the one under the cursor; the cursor itself
/// where it is on no bracket or the bracket has no match.
pub open spec fn spec_matching(text: Seq<char>, pos: int) -> int {
    if !(0 <= pos < text.len()) {
        pos
    } else {
        let c = text[pos];
        let found = if c == '(' {
            spec_closer(text, '(', ')', pos + 1, 0)
        } else if c == '[' {
            spec_closer(text, '[', ']', pos + 1, 0)
        } else if c == '{' {
            spec_closer(text, '{', '}', pos + 1, 0)
        } else if c == ')' {
            spec_opener(text, '(', ')', pos, 0)
        } else if c == ']' {
            spec_opener(text, '[', ']', pos, 0)
        } else if c == '}' {
            spec_opener(text, '{', '}', pos, 0)
        } else {
            None
        };
        match found {
            Some(m) => m,
            None => pos,
        }
    }
}

/// Where one step of a motion leads from `pos`. The searches for a
/// character and the moves to the left and right stay on the line.
pub open spec fn spec_step(text: Seq<char>, pos: int, motion: Motion) -> int {
    let s = spec_line_start(text, pos);
    let e = spec_line_end(text, pos);
    match motion {
        Motion::Left => if pos > s {
            pos - 1
        } else {
            pos
        },
        Motion::Right => if pos < e {
            pos + 1
        } else {
            pos
        },
        Motion::Up => spec_up(text, pos),
        Motion::Down => spec_down(text, pos),
        Motion::WordForward => spec_word_forward(text, pos, false),
        Motion::WordBackward => spec_word_backward(text, pos, false),
        Motion::WordEnd => spec_word_end(text, pos, false),
        Motion::BigWordForward => spec_word_forward(text, pos, true),
        Motion::BigWordBackward => spec_word_backward(text, pos, true),
        Motion::BigWordEnd => spec_word_end(text, pos, true),
        Motion::LineStart => s,
        Motion::FirstNonBlank => spec_skip_indent(text, s, e),
        Motion::LineEnd => if e > s {
            e - 1
        } else {
            s
        },
        Motion::BufferStart => 0,
        Motion::BufferEnd => spec_line_start(text, text.len() as int),
        Motion::WordEndBackward => spec_word_end_backward(text, pos, false),
        Motion::ParagraphForward => spec_next_empty_line(text, pos + 1),
        Motion::ParagraphBackward => spec_last_empty_line(text, pos),
        Motion::MatchingBracket => spec_matching(text, pos),
        Motion::FindForward(c) => {
            let f = spec_find(text, c, pos + 1, e);
            if pos < f < e {
                f
            } else {
                pos
            }
        },
        Motion::TillForward(c) => {
            let f = spec_find(text, c, pos + 1, e);
            if pos < f < e {
                f - 1
            } else {
                pos
            }
        },
        Motion::FindBackward(c) => match spec_find_last(text, c, s, pos) {
            Some(f) => f,
            None => pos,
        },
        Motion::TillBackward(c) => match spec_find_last(text, c, s, pos) {
            Some(f) => f + 1,
            None => pos,
        },
    }
}

/// Where a motion leads when it is repeated `n` times; it stops early
/// where a step no longer moves.
pub open spec fn spec_repeat(text: Seq<char>, pos: int, motion: Motion, n: nat) -> int
    decreases n,
{
    if n == 0 {
        pos
    } else {
        let next = spec_step(text, pos, motion);
        if next == pos {
            pos
        } else {
            spec_repeat(text, next, motion, (n - 1) as nat)
        }
    }
}

/// Where a motion with a count leads from a cursor.
pub open spec fn spec_motion_target(text: Seq<char>, cursor: int, motion: Motion, count: nat)
    -> int {
    spec_repeat(text, spec_clamped(text, cursor), motion, count)
}

/// Whether a motion goes by whole lines.
pub open spec fn spec_is_linewise(motion: Motion) -> bool {
    motion is Up || motion is Down || motion is BufferStart || motion is BufferEnd
}

/// The span that an operator takes with a motion: from the cursor to the
/// target, whichever comes first; with the character at the far end for an
/// inclusive motion; and the whole lines of both for a motion by lines. A
/// motion within the line that does not move takes nothing.
pub open spec fn spec_motion_span(text: Seq<char>, cursor: int, motion: Motion, count: nat) -> (
    int,
    int,
) {
    let at = spec_clamped(text, cursor);
    let to = spec_motion_target(text, cursor, motion, count);
    let lo = if at <= to {
        at
    } else {
        to
    };
    let hi = if at <= to {
        to
    } else {
        at
    };
    if spec_is_linewise(motion) {
        let e = spec_line_end(text, hi);
        (
            spec_line_start(text, lo),
            if e < text.len() {
                e + 1
            } else {
                e
            },
        )
    } else if to == at {
        (at, at)
    } else if motion.spec_is_inclusive() && hi < text.len() {
        (lo, hi + 1)
    } else {
        (lo, hi)
    }
}

/// Index after `n` lines from the line start `p` on: after the `n`th line
/// end, or the length of the text where fewer lines are left.
pub open spec fn spec_lines_end(text: Seq<char>, p: int, n: nat) -> int
    decreases n,
{
    let e = spec_line_end(text, p);
    if !(0 <= p <= e < text.len()) {
        text.len() as int
    } else if n <= 1 {
        e + 1
    } else {
        spec_lines_end(text, e + 1, (n - 1) as nat)
    }
}

/// The span of `count` whole lines from the cursor's line on.
pub open spec fn spec_lines_span(text: Seq<char>, cursor: int, count: nat) -> (int, int) {
    let s = spec_line_start(text, spec_clamped(text, cursor));
    (s, spec_lines_end(text, s, count))
}

/// The span selected between an anchor and the cursor, both included; with
/// `lines`, the whole lines of both.
pub open spec fn spec_selection_span(text: Seq<char>, anchor: int, cursor: int, lines: bool) -> (
    int,
    int,
) {
    let a = spec_clamped(text, anchor);
    let c = spec_clamped(text, cursor);
    let lo = if a <= c {
        a
    } else {
        c
    };
    let hi = if a <= c {
        c
    } else {
        a
    };
    if lines {
        let e = spec_line_end(text, hi);
        (
            spec_line_start(text, lo),
            if e < text.len() {
                e + 1
            } else {
                e
            },
        )
    } else if hi < text.len() {
        (lo, hi + 1)
    } else {
        (lo, hi)
    }
}

/// The index of the line end at or after `p`, or the length of the text;
/// a position past the end is taken as the end.
pub fn find_line_end(text: &[char], p: usize) -> (r: usize)
    ensures
        r == spec_line_end(text@, spec_clamped(text@, p as int)),
        r <= text@.len(),
        p <= text@.len() ==> p <= r,
{
    let at: usize = clamped(text, p);
    find_char(text, '\n', at, text.len())
}

fn kind(c: char, big: bool) -> (r: u8)
    ensures
        r as int == spec_kind(c, big),
{
    if is_blank(c) {
        0
    } else if big || ('a' <= c && c <= 'z') || ('A' <= c && c <= 'Z') || ('0' <= c && c <= '9')
        || c == '_' {
        1
    } else {
        2
    }
}

fn skip(text: &[char], p: usize, k: u8, big: bool) -> (r: usize)
    requires
        p <= text@.len(),
    ensures
        r == spec_skip(text@, p as int, k as int, big),
        p <= r <= text@.len(),
{
    let mut q: usize = p;
    while q < text.len() && kind(text[q], big) == k
        invariant
            p <= q <= text.len(),
            spec_skip(text@, p as int, k as int, big) == spec_skip(text@, q as int, k as int, big),
        decreases text.len() - q,
    {
        q = q + 1;
    }
    q
}

fn skip_back(text: &[char], p: usize, k: u8, big: bool) -> (r: usize)
    requires
        p <= text@.len(),
    ensures
        r == spec_skip_back(text@, p as int, k as int, big),
        r <= p,
{
    let mut q: usize = p;
    while q > 0 && kind(text[q - 1], big) == k
        invariant
            q <= p <= text.len(),
            spec_skip_back(text@, p as int, k as int, big) == spec_skip_back(
                text@,
                q as int,
                k as int,
                big,
            ),
        decreases q,
    {
        q = q - 1;
    }
    q
}

fn word_forward(text: &[char], pos: usize, big: bool) -> (r: usize)
    requires
        pos <= text@.len(),
    ensures
        r == spec_word_forward(text@, pos as int, big),
        r <= text@.len(),
{
    if pos >= text.len() {
        return pos;
    }
    let k: u8 = kind(text[pos], big);
    let a: usize = if k != 0 {
        skip(text, pos, k, big)
    } else {
        pos
    };
    skip(text, a, 0, big)
}

fn word_backward(text: &[char], pos: usize, big: bool) -> (r: usize)
    requires
        pos <= text@.len(),
    ensures
        r == spec_word_backward(text@, pos as int, big),
        r <= text@.len(),
{
    let a: usize = skip_back(text, pos, 0, big);
    if a > 0 {
        skip_back(text, a, kind(text[a - 1], big), big)
    } else {
        a
    }
}

fn word_end(text: &[char], pos: usize, big: bool) -> (r: usize)
    requires
        pos <= text@.len(),
    ensures
        r == spec_word_end(text@, pos as int, big),
        r <= text@.len(),
{
    if pos >= text.len() {
        return pos;
    }
    let a: usize = skip(text, pos + 1, 0, big);
    if a < text.len() {
        let b: usize = skip(text, a, kind(text[a], big), big);
        b - 1
    } else {
        pos
    }
}

fn word_end_backward(text: &[char], pos: usize, big: bool) -> (r: usize)
    requires
        pos <= text@.len(),
    ensures
        r == spec_word_end_backward(text@, pos as int, big),
        r <= text@.len(),
{
    let start: usize = if pos < text.len() && kind(text[pos], big) != 0 {
        skip_back(text, pos, kind(text[pos], big), big)
    } else {
        pos
    };
    let a: usize = skip_back(text, start, 0, big);
    if a > 0 {
        a - 1
    } else {
        pos
    }
}

fn skip_indent(text: &[char], p: usize, end: usize) -> (r: usize)
    requires
        p <= end <= text@.len(),
    ensures
        r == spec_skip_indent(text@, p as int, end as int),
        p <= r <= end,
{
    let mut q: usize = p;
    while q < end && (text[q] == ' ' || text[q] == '\t')
        invariant
            p <= q <= end <= text.len(),
            spec_skip_indent(text@, p as int, end as int) == spec_skip_indent(
                text@,
                q as int,
                end as int,
            ),
        decreases end - q,
    {
        q = q + 1;
    }
    q
}

fn is_empty_line(text: &[char], p: usize) -> (r: bool)
    ensures
        r == spec_is_empty_line(text@, p as int),
{
    p < text.len() && text[p] == '\n' && (p == 0 || text[p - 1] == '\n')
}

fn next_empty_line(text: &[char], p: usize) -> (r: usize)
    ensures
        r == spec_next_empty_line(text@, p as int),
        r <= text@.len(),
{
    let mut q: usize = p;
    while q < text.len()
        invariant
            spec_next_empty_line(text@, p as int) == spec_next_empty_line(text@, q as int),
        decreases text.len() - q,
    {
        if is_empty_line(text, q) {
            return q;
        }
        q = q + 1;
    }
    text.len()
}

fn last_empty_line(text: &[char], p: usize) -> (r: usize)
    requires
        p <= text@.len(),
    ensures
        r == spec_last_empty_line(text@, p as int),
        r <= text@.len(),
{
    let mut q: usize = p;
    while q > 0
        invariant
            q <= p <= text.len(),
            spec_last_empty_line(text@, p as int) == spec_last_empty_line(text@, q as int),
        decreases q,
    {
        if is_empty_line(text, q - 1) {
            return q - 1;
        }
        q = q - 1;
    }
    0
}

fn find_last(text: &[char], c: char, start: usize, p: usize) -> (r: Option<usize>)
    requires
        p <= text@.len(),
    ensures
        match r {
            Some(f) => spec_find_last(text@, c, start as int, p as int) == Some(f as int) && start
                <= f < p,
            None => spec_find_last(text@, c, start as int, p as int) is None,
        },
{
    let mut q: usize = p;
    while q > start
        invariant
            q <= p <= text.len(),
            spec_find_last(text@, c, start as int, p as int) == spec_find_last(
                text@,
                c,
                start as int,
                q as int,
            ),
        decreases q,
    {
        if text[q - 1] == c {
            return Some(q - 1);
        }
        q = q - 1;
    }
    None
}

fn matching(text: &[char], pos: usize) -> (r: usize)
    requires
        pos <= text@.len(),
    ensures
        r == spec_matching(text@, pos as int),
        r <= text@.len(),
{
    if pos >= text.len() {
        return pos;
    }
    let c: char = text[pos];
    let found: Option<usize> = if c == '(' {
        find_closer(text, '(', ')', pos + 1)
    } else if c == '[' {
        find_closer(text, '[', ']', pos + 1)
    } else if c == '{' {
        find_closer(text, '{', '}', pos + 1)
    } else if c == ')' {
        find_opener(text, '(', ')', pos)
    } else if c == ']' {
        find_opener(text, '[', ']', pos)
    } else if c == '}' {
        find_opener(text, '{', '}', pos)
    } else {
        None
    };
    match found {
        Some(m) => m,
        None => pos,
    }
}

/// Where one step of a motion leads from a position in the text; a
/// position past the end is taken as the end.
pub fn step(text: &[char], from: usize, motion: Motion) -> (r: usize)
    ensures
        r == spec_step(text@, spec_clamped(text@, from as int), motion),
        r <= text@.len(),
{
    let pos: usize = clamped(text, from);
    let s: usize = line_start(text, pos);
    let e: usize = find_char(text, '\n', pos, text.len());
    match motion {
        Motion::Left => {
            if pos > s {
                pos - 1
            } else {
                pos
            }
        },
        Motion::Right => {
            if pos < e {
                pos + 1
            } else {
                pos
            }
        },
        Motion::Up => {
            if s == 0 {
                pos
            } else {
                let before: usize = line_start(text, s - 1);
                if pos - s > s - 1 - before {
                    s - 1
                } else {
                    before + (pos - s)
                }
            }
        },
        Motion::Down => {
            if e >= text.len() {
                pos
            } else {
                let after: usize = find_char(text, '\n', e + 1, text.len());
                if pos - s > after - (e + 1) {
                    after
                } else {
                    e + 1 + (pos - s)
                }
            }
        },
        Motion::WordForward => word_forward(text, pos, false),
        Motion::WordBackward => word_backward(text, pos, false),
        Motion::WordEnd => word_end(text, pos, false),
        Motion::BigWordForward => word_forward(text, pos, true),
        Motion::BigWordBackward => word_backward(text, pos, true),
        Motion::BigWordEnd => word_end(text, pos, true),
        Motion::LineStart => s,
        Motion::FirstNonBlank => skip_indent(text, s, e),
        Motion::LineEnd => {
            if e > s {
                e - 1
            } else {
                s
            }
        },
        Motion::BufferStart => 0,
        Motion::BufferEnd => line_start(text, text.len()),
        Motion::WordEndBackward => word_end_backward(text, pos, false),
        Motion::ParagraphForward => {
            if pos >= text.len() {
                text.len()
            } else {
                next_empty_line(text, pos + 1)
            }
        },
        Motion::ParagraphBackward => last_empty_line(text, pos),
        Motion::MatchingBracket => matching(text, pos),
        Motion::FindForward(c) => {
            if pos >= e {
                pos
            } else {
                let f: usize = find_char(text, c, pos + 1, e);
                if f < e {
                    f
                } else {
                    pos
                }
            }
        },
        Motion::TillForward(c) => {
            if pos >= e {
                pos
            } else {
                let f: usize = find_char(text, c, pos + 1, e);
                if f < e {
                    f - 1
                } else {
                    pos
                }
            }
        },
        Motion::FindBackward(c) => match find_last(text, c, s, pos) {
            Some(f) => f,
            None => pos,
        },
        Motion::TillBackward(c) => match find_last(text, c, s, pos) {
            Some(f) => f + 1,
            None => pos,
        },
    }
}

/// Where a motion with a count leads from a cursor: the step is repeated
/// `count` times, or until it no longer moves.
pub fn motion_target(text: &[char], cursor: usize, motion: Motion, count: u32) -> (r: usize)
    ensures
        r == spec_motion_target(text@, cursor as int, motion, count as nat),
        r <= text@.len(),
{
    let at: usize = clamped(text, cursor);
    let mut pos: usize = at;
    let mut left: u32 = count;
    while left > 0
        invariant
            pos <= text.len(),
            at == spec_clamped(text@, cursor as int),
            spec_repeat(text@, at as int, motion, count as nat) == spec_repeat(
                text@,
                pos as int,
                motion,
                left as nat,
            ),
        decreases left,
    {
        let next: usize = step(text, pos, motion);
        if next == pos {
            return pos;
        }
        pos = next;
        left = left - 1;
    }
    pos
}

/// The span of the text that an operator takes with a motion and a count
/// from a cursor.
pub fn motion_span(text: &[char], cursor: usize, motion: Motion, count: u32) -> (r: Span)
    ensures
        (r.start as int, r.end as int) == spec_motion_span(
            text@,
            cursor as int,
            motion,
            count as nat,
        ),
        r.start <= r.end <= text@.len(),
{
    let at: usize = clamped(text, cursor);
    let to: usize = motion_target(text, cursor, motion, count);
    let lo: usize = if at <= to {
        at
    } else {
        to
    };
    let hi: usize = if at <= to {
        to
    } else {
        at
    };
    let linewise: bool = match motion {
        Motion::Up => true,
        Motion::Down => true,
        Motion::BufferStart => true,
        Motion::BufferEnd => true,
        _ => false,
    };
    if linewise {
        let e: usize = find_char(text, '\n', hi, text.len());
        let start: usize = line_start(text, lo);
        if e < text.len() {
            Span { start, end: e + 1 }
        } else {
            Span { start, end: e }
        }
    } else if to == at {
        Span { start: at, end: at }
    } else if motion.is_inclusive() && hi < text.len() {
        Span { start: lo, end: hi + 1 }
    } else {
        Span { start: lo, end: hi }
    }
}

/// The span of `count` whole lines from the cursor's line on, each with
/// its line end.
pub fn lines_span(text: &[char], cursor: usize, count: u32) -> (r: Span)
    ensures
        (r.start as int, r.end as int) == spec_lines_span(text@, cursor as int, count as nat),
        r.start <= r.end <= text@.len(),
{
    let at: usize = clamped(text, cursor);
    let s: usize = line_start(text, at);
    let mut p: usize = s;
    let mut left: u32 = count;
    loop
        invariant
            s <= p <= text.len(),
            s == spec_line_start(text@, spec_clamped(text@, cursor as int)),
            spec_lines_end(text@, s as int, count as nat) == spec_lines_end(
                text@,
                p as int,
                left as nat,
            ),
        decreases left,
    {
        let e: usize = find_char(text, '\n', p, text.len());
        if e >= text.len() {
            return Span { start: s, end: text.len() };
        }
        if left <= 1 {
            return Span { start: s, end: e + 1 };
        }
        p = e + 1;
        left = left - 1;
    }
}

/// The span selected between an anchor and the cursor, both included; with
/// `lines`, the whole lines of both.
pub fn selection_span(text: &[char], anchor: usize, cursor: usize, lines: bool) -> (r: Span)
    ensures
        (r.start as int, r.end as int) == spec_selection_span(
            text@,
            anchor as int,
            cursor as int,
            lines,
        ),
        r.start <= r.end <= text@.len(),
{
    let a: usize = clamped(text, anchor);
    let c: usize = clamped(text, cursor);
    let lo: usize = if a <= c {
        a
    } else {
        c
    };
    let hi: usize = if a <= c {
        c
    } else {
        a
    };
    if lines {
        let e: usize = find_char(text, '\n', hi, text.len());
        let start: usize = line_start(text, lo);
        if e < text.len() {
            Span { start, end: e + 1 }
        } else {
            Span { start, end: e }
        }
    } else if hi < text.len() {
        Span { start: lo, end: hi + 1 }
    } else {
        Span { start: lo, end: hi }
    }
}

} // verus!
