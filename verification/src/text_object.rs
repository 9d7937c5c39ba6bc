//! Where a text object lies in a buffer.
//!
//! A buffer is a sequence of characters and a cursor is an index into it; a
//! cursor past the end is taken as the end. Every object gives a span inside
//! the buffer. An object that is not found gives the empty span at the
//! cursor, so that an operator on it changes nothing.

use vstd::prelude::*;
use crate::model::{Span, TextObject};

verus! {

/// Blank characters: space, tab and the line ends.
pub open spec fn spec_is_blank(c: char) -> bool {
    c == ' ' || c == '\t' || c == '\n' || c == '\r'
}

/// Word characters: ASCII letters, digits and the underscore.
pub open spec fn spec_is_word_char(c: char) -> bool {
    ('a' <= c && c <= 'z') || ('A' <= c && c <= 'Z') || ('0' <= c && c <= '9') || c == '_'
}

/// The class of characters that a word (or, with `big`, a big word) is made
/// of.
pub open spec fn spec_in_class(c: char, big: bool) -> bool {
    if big {
        !spec_is_blank(c)
    } else {
        spec_is_word_char(c)
    }
}

/// A cursor, taken as the end of the text where it lies beyond it.
pub open spec fn spec_clamped(text: Seq<char>, cursor: int) -> int {
    if cursor > text.len() {
        text.len() as int
    } else {
        cursor
    }
}

/// Start of the run of class characters that ends just before `p`.
pub open spec fn spec_run_start(text: Seq<char>, p: int, big: bool) -> int
    decreases p,
{
    if 0 < p <= text.len() && spec_in_class(text[p - 1], big) {
        spec_run_start(text, p - 1, big)
    } else {
        p
    }
}

/// End of the run of class characters that starts at `p`.
pub open spec fn spec_run_end(text: Seq<char>, p: int, big: bool) -> int
    decreases text.len() - p,
{
    if 0 <= p < text.len() && spec_in_class(text[p], big) {
        spec_run_end(text, p + 1, big)
    } else {
        p
    }
}

/// End of the run of blanks that starts at `p`.
pub open spec fn spec_blank_end(text: Seq<char>, p: int) -> int
    decreases text.len() - p,
{
    if 0 <= p < text.len() && spec_is_blank(text[p]) {
        spec_blank_end(text, p + 1)
    } else {
        p
    }
}

/// The span of the word at the cursor: the longest run of class characters
/// that holds the character under the cursor or ends just before it; with
/// `inner` false, the blanks after the run as well. Empty at the cursor
/// where no such character touches it.
pub open spec fn spec_word_span(text: Seq<char>, cursor: int, big: bool, inner: bool) -> (
    int,
    int,
) {
    let at = spec_clamped(text, cursor);
    let start = spec_run_start(text, at, big);
    let core = spec_run_end(text, at, big);
    if start == core {
        (at, at)
    } else if inner {
        (start, core)
    } else {
        (start, spec_blank_end(text, core))
    }
}

/// The nearest opener before `end` that no closer before `end` matches,
/// where `depth` closers are still waiting for their openers.
pub open spec fn spec_opener(text: Seq<char>, open: char, close: char, end: int, depth: nat)
    -> Option<int>
    decreases end,
{
    if !(0 < end <= text.len()) {
        None
    } else if text[end - 1] == open {
        if depth == 0 {
            Some(end - 1)
        } else {
            spec_opener(text, open, close, end - 1, (depth - 1) as nat)
        }
    } else if text[end - 1] == close {
        spec_opener(text, open, close, end - 1, depth + 1)
    } else {
        spec_opener(text, open, close, end - 1, depth)
    }
}

/// The nearest closer from `from` on that no opener from `from` on
/// matches, where `depth` openers are still waiting for their closers.
pub open spec fn spec_closer(text: Seq<char>, open: char, close: char, from: int, depth: nat)
    -> Option<int>
    decreases text.len() - from,
{
    if !(0 <= from < text.len()) {
        None
    } else if text[from] == close {
        if depth == 0 {
            Some(from)
        } else {
            spec_closer(text, open, close, from + 1, (depth - 1) as nat)
        }
    } else if text[from] == open {
        spec_closer(text, open, close, from + 1, depth + 1)
    } else {
        spec_closer(text, open, close, from + 1, depth)
    }
}

/// The span of the innermost balanced pair around the cursor. A delimiter
/// under the cursor is the pair's own. With `inner` the span lies between
/// the delimiters, else it holds them.
pub open spec fn spec_bracket_span(
    text: Seq<char>,
    cursor: int,
    open: char,
    close: char,
    inner: bool,
) -> (int, int) {
    let at = spec_clamped(text, cursor);
    let end = if 0 <= at < text.len() && text[at] != close {
        at + 1
    } else {
        at
    };
    match spec_opener(text, open, close, end, 0) {
        None => (at, at),
        Some(o) => match spec_closer(text, open, close, o + 1, 0) {
            None => (at, at),
            Some(c) => if inner {
                (o + 1, c)
            } else {
                (o, c + 1)
            },
        },
    }
}

/// Start of the line that holds `p`.
pub open spec fn spec_line_start(text: Seq<char>, p: int) -> int
    decreases p,
{
    if 0 < p <= text.len() && text[p - 1] != '\n' {
        spec_line_start(text, p - 1)
    } else {
        p
    }
}

/// The first index from `from` on, before `end`, that holds `c`; `end`
/// where none does.
pub open spec fn spec_find(text: Seq<char>, c: char, from: int, end: int) -> int
    decreases end - from,
{
    if 0 <= from < end <= text.len() && text[from] != c {
        spec_find(text, c, from + 1, end)
    } else if from < end {
        from
    } else {
        end
    }
}

/// The quotes of a line pair off from its start. This is the first pair
/// from `from` on whose closing quote is at or after `at`.
pub open spec fn spec_quote_pair(text: Seq<char>, q: char, from: int, end: int, at: int)
    -> Option<(int, int)>
    decreases end - from,
{
    let first = spec_find(text, q, from, end);
    if !(0 <= from <= first < end <= text.len()) {
        None
    } else {
        let second = spec_find(text, q, first + 1, end);
        if !(first < second < end) {
            None
        } else if second >= at {
            Some((first, second))
        } else {
            spec_quote_pair(text, q, second + 1, end, at)
        }
    }
}

/// The span of the quoted text on the cursor's line, in the nearest pair of
/// quotes that holds the cursor or follows it. With `inner` the span lies
/// between the quotes, else it holds them.
pub open spec fn spec_quote_span(text: Seq<char>, cursor: int, q: char, inner: bool) -> (
    int,
    int,
) {
    let at = spec_clamped(text, cursor);
    let start = spec_line_start(text, at);
    let end = spec_find(text, '\n', at, text.len() as int);
    match spec_quote_pair(text, q, start, end, at) {
        None => (at, at),
        Some((a, b)) => if inner {
            (a + 1, b)
        } else {
            (a, b + 1)
        },
    }
}

/// The span of a text object at a cursor.
pub open spec fn spec_resolve(text: Seq<char>, cursor: int, object: TextObject, inner: bool) -> (
    int,
    int,
) {
    match object {
        TextObject::Word => spec_word_span(text, cursor, false, inner),
        TextObject::BigWord => spec_word_span(text, cursor, true, inner),
        TextObject::Parenthesis => spec_bracket_span(text, cursor, '(', ')', inner),
        TextObject::Bracket => spec_bracket_span(text, cursor, '[', ']', inner),
        TextObject::CurlyBrace => spec_bracket_span(text, cursor, '{', '}', inner),
        TextObject::AngleBracket => spec_bracket_span(text, cursor, '<', '>', inner),
        TextObject::DoubleQuote => spec_quote_span(text, cursor, '"', inner),
        TextObject::SingleQuote => spec_quote_span(text, cursor, '\'', inner),
        TextObject::BackTick => spec_quote_span(text, cursor, '`', inner),
        TextObject::Sentence | TextObject::Paragraph | TextObject::Tag => (
            spec_clamped(text, cursor),
            spec_clamped(text, cursor),
        ),
    }
}

/// The span of a text object at a cursor, as a `Span`.
pub open spec fn spec_resolve_span(text: Seq<char>, cursor: int, object: TextObject, inner: bool)
    -> Span {
    Span {
        start: spec_resolve(text, cursor, object, inner).0 as usize,
        end: spec_resolve(text, cursor, object, inner).1 as usize,
    }
}

/// A text without the characters of a span.
pub open spec fn spec_without(text: Seq<char>, start: int, end: int) -> Seq<char> {
    if 0 <= start <= end <= text.len() {
        text.subrange(0, start) + text.subrange(end, text.len() as int)
    } else {
        text
    }
}

/// The run of class characters around `p` is made of class characters
/// only, and no class character stands next to it.
pub proof fn lemma_run_is_maximal(text: Seq<char>, p: int, big: bool)
    requires
        0 <= p <= text.len(),
    ensures
        0 <= spec_run_start(text, p, big) <= p <= spec_run_end(text, p, big) <= text.len(),
        forall|k: int|
            spec_run_start(text, p, big) <= k < spec_run_end(text, p, big) ==> spec_in_class(
                #[trigger] text[k],
                big,
            ),
        spec_run_start(text, p, big) > 0 ==> !spec_in_class(
            text[spec_run_start(text, p, big) - 1],
            big,
        ),
        spec_run_end(text, p, big) < text.len() ==> !spec_in_class(
            text[spec_run_end(text, p, big)],
            big,
        ),
{
    lemma_run_left(text, p, big);
    lemma_run_right(text, p, big);
}

proof fn lemma_run_left(text: Seq<char>, p: int, big: bool)
    requires
        0 <= p <= text.len(),
    ensures
        0 <= spec_run_start(text, p, big) <= p,
        forall|k: int|
            spec_run_start(text, p, big) <= k < p ==> spec_in_class(#[trigger] text[k], big),
        spec_run_start(text, p, big) > 0 ==> !spec_in_class(
            text[spec_run_start(text, p, big) - 1],
            big,
        ),
    decreases p,
{
    if 0 < p && spec_in_class(text[p - 1], big) {
        lemma_run_left(text, p - 1, big);
    }
}

proof fn lemma_run_right(text: Seq<char>, p: int, big: bool)
    requires
        0 <= p <= text.len(),
    ensures
        p <= spec_run_end(text, p, big) <= text.len(),
        forall|k: int| p <= k < spec_run_end(text, p, big) ==> spec_in_class(#[trigger] text[k], big),
        spec_run_end(text, p, big) < text.len() ==> !spec_in_class(
            text[spec_run_end(text, p, big)],
            big,
        ),
    decreases text.len() - p,
{
    if p < text.len() && spec_in_class(text[p], big) {
        lemma_run_right(text, p + 1, big);
    }
}

/// An opener that was found holds the opening character and lies before
/// `end`.
proof fn lemma_opener_found(text: Seq<char>, open: char, close: char, end: int, depth: nat)
    requires
        spec_opener(text, open, close, end, depth) is Some,
    ensures
        0 <= spec_opener(text, open, close, end, depth).unwrap() < end <= text.len(),
        text[spec_opener(text, open, close, end, depth).unwrap()] == open,
    decreases end,
{
    if 0 < end <= text.len() {
        if text[end - 1] == open {
            if depth != 0 {
                lemma_opener_found(text, open, close, end - 1, (depth - 1) as nat);
            }
        } else if text[end - 1] == close {
            lemma_opener_found(text, open, close, end - 1, depth + 1);
        } else {
            lemma_opener_found(text, open, close, end - 1, depth);
        }
    }
}

/// A closer that was found holds the closing character and lies at or
/// after `from`.
proof fn lemma_closer_found(text: Seq<char>, open: char, close: char, from: int, depth: nat)
    requires
        spec_closer(text, open, close, from, depth) is Some,
    ensures
        0 <= from <= spec_closer(text, open, close, from, depth).unwrap() < text.len(),
        text[spec_closer(text, open, close, from, depth).unwrap()] == close,
    decreases text.len() - from,
{
    if 0 <= from < text.len() {
        if text[from] == close {
            if depth != 0 {
                lemma_closer_found(text, open, close, from + 1, (depth - 1) as nat);
            }
        } else if text[from] == open {
            lemma_closer_found(text, open, close, from + 1, depth + 1);
        } else {
            lemma_closer_found(text, open, close, from + 1, depth);
        }
    }
}

/// A cursor that no class character touches has no word: the span is
/// empty at the cursor.
pub proof fn lemma_word_missing(text: Seq<char>, cursor: int, big: bool, inner: bool)
    requires
        0 <= cursor <= text.len(),
        cursor < text.len() ==> !spec_in_class(text[cursor], big),
        cursor > 0 ==> !spec_in_class(text[cursor - 1], big),
    ensures
        spec_word_span(text, cursor, big, inner) == (cursor, cursor),
{
}

/// A word that is found is a longest run of class characters that touches
/// the cursor; around it come the blanks that follow, and nothing else.
pub proof fn lemma_word_found(text: Seq<char>, cursor: int, big: bool)
    requires
        0 <= cursor <= text.len(),
        spec_word_span(text, cursor, big, true) != (cursor, cursor),
    ensures
        ({
            let (a, b) = spec_word_span(text, cursor, big, true);
            let (c, d) = spec_word_span(text, cursor, big, false);
            &&& 0 <= a <= cursor <= b <= d <= text.len()
            &&& a < b
            &&& a == c
            &&& forall|k: int| a <= k < b ==> spec_in_class(#[trigger] text[k], big)
            &&& a > 0 ==> !spec_in_class(text[a - 1], big)
            &&& b < text.len() ==> !spec_in_class(text[b], big)
            &&& forall|k: int| b <= k < d ==> spec_is_blank(#[trigger] text[k])
            &&& d < text.len() ==> !spec_is_blank(text[d])
        }),
{
    lemma_run_is_maximal(text, cursor, big);
    lemma_blank_run(text, spec_run_end(text, cursor, big));
}

proof fn lemma_blank_run(text: Seq<char>, p: int)
    requires
        0 <= p <= text.len(),
    ensures
        p <= spec_blank_end(text, p) <= text.len(),
        forall|k: int| p <= k < spec_blank_end(text, p) ==> spec_is_blank(#[trigger] text[k]),
        spec_blank_end(text, p) < text.len() ==> !spec_is_blank(text[spec_blank_end(text, p)]),
    decreases text.len() - p,
{
    if p < text.len() && spec_is_blank(text[p]) {
        lemma_blank_run(text, p + 1);
    }
}

/// Everything between an opener that was found and the place the search
/// began is balanced against the closers that were waiting: the search for
/// the opener's closer goes on from that place with as many openers open.
proof fn lemma_opener_matches(text: Seq<char>, open: char, close: char, end: int, depth: nat)
    requires
        open != close,
        spec_opener(text, open, close, end, depth) is Some,
    ensures
        spec_closer(text, open, close, spec_opener(text, open, close, end, depth).unwrap() + 1, 0)
            == spec_closer(text, open, close, end, depth),
    decreases end,
{
    if 0 < end <= text.len() {
        if text[end - 1] == open {
            if depth != 0 {
                lemma_opener_matches(text, open, close, end - 1, (depth - 1) as nat);
            }
        } else if text[end - 1] == close {
            lemma_opener_matches(text, open, close, end - 1, depth + 1);
        } else {
            lemma_opener_matches(text, open, close, end - 1, depth);
        }
    }
}

/// A pair that is found is delimited and holds the cursor: the around span
/// begins with the opener and ends with the closer, the cursor lies in it,
/// and the inner span is what lies between the two. What is not found is
/// empty at the cursor, inner and around alike.
pub proof fn lemma_bracket_span_delimited(text: Seq<char>, cursor: int, open: char, close: char)
    requires
        0 <= cursor,
        open != close,
    ensures
        ({
            let at = spec_clamped(text, cursor);
            let (a, b) = spec_bracket_span(text, cursor, open, close, false);
            let inner = spec_bracket_span(text, cursor, open, close, true);
            ||| (a == at && b == at && inner == (at, at))
            ||| (0 <= a && a + 2 <= b <= text.len() && text[a] == open && text[b - 1] == close
                && a <= at < b && inner == (a + 1, b - 1))
        }),
{
    let at = spec_clamped(text, cursor);
    let end = if 0 <= at < text.len() && text[at] != close {
        at + 1
    } else {
        at
    };
    match spec_opener(text, open, close, end, 0) {
        None => {},
        Some(o) => {
            lemma_opener_found(text, open, close, end, 0);
            lemma_opener_matches(text, open, close, end, 0);
            match spec_closer(text, open, close, o + 1, 0) {
                None => {},
                Some(c) => {
                    lemma_closer_found(text, open, close, o + 1, 0);
                    lemma_closer_found(text, open, close, end, 0);
                },
            }
        },
    }
}

proof fn lemma_find(text: Seq<char>, c: char, from: int, end: int)
    requires
        0 <= from <= end <= text.len(),
    ensures
        from <= spec_find(text, c, from, end) <= end,
        spec_find(text, c, from, end) < end ==> text[spec_find(text, c, from, end)] == c,
        forall|k: int| from <= k < spec_find(text, c, from, end) ==> #[trigger] text[k] != c,
    decreases end - from,
{
    if from < end && text[from] != c {
        lemma_find(text, c, from + 1, end);
    }
}

proof fn lemma_quote_pair(text: Seq<char>, q: char, from: int, end: int, at: int)
    requires
        0 <= from <= end <= text.len(),
        spec_quote_pair(text, q, from, end, at) is Some,
    ensures
        ({
            let (a, b) = spec_quote_pair(text, q, from, end, at).unwrap();
            &&& from <= a < b < end
            &&& at <= b
            &&& text[a] == q
            &&& text[b] == q
            &&& forall|k: int| a < k < b ==> #[trigger] text[k] != q
        }),
    decreases end - from,
{
    lemma_find(text, q, from, end);
    let first = spec_find(text, q, from, end);
    if first < end {
        lemma_find(text, q, first + 1, end);
        let second = spec_find(text, q, first + 1, end);
        if first < second < end && second < at {
            lemma_quote_pair(text, q, second + 1, end, at);
        }
    }
}

proof fn lemma_line_start(text: Seq<char>, p: int)
    requires
        0 <= p <= text.len(),
    ensures
        0 <= spec_line_start(text, p) <= p,
        forall|k: int| spec_line_start(text, p) <= k < p ==> #[trigger] text[k] != '\n',
    decreases p,
{
    if 0 < p && text[p - 1] != '\n' {
        lemma_line_start(text, p - 1);
    }
}

/// A quoted text that is found lies on the cursor's line between two
/// quotes with no quote between them, and does not end before the cursor.
/// What is not found is empty at the cursor, inner and around alike.
pub proof fn lemma_quote_span_delimited(text: Seq<char>, cursor: int, q: char)
    requires
        0 <= cursor,
        q != '\n',
    ensures
        ({
            let at = spec_clamped(text, cursor);
            let (a, b) = spec_quote_span(text, cursor, q, false);
            let inner = spec_quote_span(text, cursor, q, true);
            ||| (a == at && b == at && inner == (at, at))
            ||| (0 <= a && a + 2 <= b <= text.len() && at < b && text[a] == q && text[b - 1] == q
                && inner == (a + 1, b - 1) && forall|k: int|
                a <= k < b ==> #[trigger] text[k] != '\n' && (a < k < b - 1 ==> text[k] != q))
        }),
{
    let at = spec_clamped(text, cursor);
    let start = spec_line_start(text, at);
    let end = spec_find(text, '\n', at, text.len() as int);
    lemma_line_start(text, at);
    lemma_find(text, '\n', at, text.len() as int);
    if spec_quote_pair(text, q, start, end, at) is Some {
        lemma_quote_pair(text, q, start, end, at);
    }
}

/// Taking out an empty span leaves the text as it was.
pub proof fn lemma_empty_span_removes_nothing(text: Seq<char>, at: int)
    requires
        0 <= at <= text.len(),
    ensures
        spec_without(text, at, at) == text,
{
    assert(text.subrange(0, at) + text.subrange(at, text.len() as int) =~= text);
}

/// Whether a character is blank.
pub fn is_blank(c: char) -> (r: bool)
    ensures
        r == spec_is_blank(c),
{
    c == ' ' || c == '\t' || c == '\n' || c == '\r'
}

/// Whether a character belongs to a word, or with `big` to a big word.
pub fn in_class(c: char, big: bool) -> (r: bool)
    ensures
        r == spec_in_class(c, big),
{
    if big {
        !is_blank(c)
    } else {
        ('a' <= c && c <= 'z') || ('A' <= c && c <= 'Z') || ('0' <= c && c <= '9') || c == '_'
    }
}

pub(crate) fn clamped(text: &[char], cursor: usize) -> (r: usize)
    ensures
        r == spec_clamped(text@, cursor as int),
        r <= text@.len(),
{
    if cursor > text.len() {
        text.len()
    } else {
        cursor
    }
}

/// The span of the word, or with `big` of the big word, at the cursor.
pub fn word_span(text: &[char], cursor: usize, big: bool, inner: bool) -> (r: Span)
    ensures
        (r.start as int, r.end as int) == spec_word_span(text@, cursor as int, big, inner),
        r.start <= r.end <= text@.len(),
{
    let at: usize = clamped(text, cursor);
    let mut start: usize = at;
    while start > 0 && in_class(text[start - 1], big)
        invariant
            start <= at <= text.len(),
            spec_run_start(text@, at as int, big) == spec_run_start(text@, start as int, big),
        decreases start,
    {
        start = start - 1;
    }
    let mut core: usize = at;
    while core < text.len() && in_class(text[core], big)
        invariant
            at <= core <= text.len(),
            spec_run_end(text@, at as int, big) == spec_run_end(text@, core as int, big),
        decreases text.len() - core,
    {
        core = core + 1;
    }
    if start == core {
        Span { start: at, end: at }
    } else if inner {
        Span { start, end: core }
    } else {
        let mut end: usize = core;
        while end < text.len() && is_blank(text[end])
            invariant
                core <= end <= text.len(),
                spec_blank_end(text@, core as int) == spec_blank_end(text@, end as int),
            decreases text.len() - end,
        {
            end = end + 1;
        }
        Span { start, end }
    }
}

pub(crate) fn find_opener(text: &[char], open: char, close: char, end: usize) -> (r: Option<usize>)
    requires
        end <= text@.len(),
    ensures
        match r {
            Some(o) => spec_opener(text@, open, close, end as int, 0) == Some(o as int) && o < end,
            None => spec_opener(text@, open, close, end as int, 0) is None,
        },
{
    let mut p: usize = end;
    let mut depth: usize = 0;
    while p > 0
        invariant
            p <= end <= text.len(),
            depth <= end - p,
            spec_opener(text@, open, close, end as int, 0) == spec_opener(
                text@,
                open,
                close,
                p as int,
                depth as nat,
            ),
        decreases p,
    {
        let c: char = text[p - 1];
        if c == open {
            if depth == 0 {
                return Some(p - 1);
            }
            depth = depth - 1;
        } else if c == close {
            depth = depth + 1;
        }
        p = p - 1;
    }
    None
}

pub(crate) fn find_closer(text: &[char], open: char, close: char, from: usize) -> (r: Option<usize>)
    requires
        from <= text@.len(),
    ensures
        match r {
            Some(c) => spec_closer(text@, open, close, from as int, 0) == Some(c as int) && from
                <= c < text@.len(),
            None => spec_closer(text@, open, close, from as int, 0) is None,
        },
{
    let mut p: usize = from;
    let mut depth: usize = 0;
    while p < text.len()
        invariant
            from <= p <= text.len(),
            depth <= p - from,
            spec_closer(text@, open, close, from as int, 0) == spec_closer(
                text@,
                open,
                close,
                p as int,
                depth as nat,
            ),
        decreases text.len() - p,
    {
        let c: char = text[p];
        if c == close {
            if depth == 0 {
                return Some(p);
            }
            depth = depth - 1;
        } else if c == open {
            depth = depth + 1;
        }
        p = p + 1;
    }
    None
}

/// The span of the innermost balanced pair of `open` and `close` around
/// the cursor.
pub fn bracket_span(text: &[char], cursor: usize, open: char, close: char, inner: bool) -> (r:
    Span)
    ensures
        (r.start as int, r.end as int) == spec_bracket_span(
            text@,
            cursor as int,
            open,
            close,
            inner,
        ),
        r.start <= r.end <= text@.len(),
{
    let at: usize = clamped(text, cursor);
    let end: usize = if at < text.len() && text[at] != close {
        at + 1
    } else {
        at
    };
    match find_opener(text, open, close, end) {
        None => Span { start: at, end: at },
        Some(o) => match find_closer(text, open, close, o + 1) {
            None => Span { start: at, end: at },
            Some(c) => {
                if inner {
                    Span { start: o + 1, end: c }
                } else {
                    Span { start: o, end: c + 1 }
                }
            },
        },
    }
}

pub(crate) fn find_char(text: &[char], c: char, from: usize, end: usize) -> (r: usize)
    requires
        end <= text@.len(),
    ensures
        r == spec_find(text@, c, from as int, end as int),
        from <= end ==> from <= r <= end,
        from > end ==> r == end,
{
    if from >= end {
        return end;
    }
    let mut p: usize = from;
    while p < end && text[p] != c
        invariant
            from <= p <= end <= text.len(),
            spec_find(text@, c, from as int, end as int) == spec_find(text@, c, p as int, end as int),
        decreases end - p,
    {
        p = p + 1;
    }
    p
}

pub(crate) fn line_start(text: &[char], at: usize) -> (r: usize)
    requires
        at <= text@.len(),
    ensures
        r == spec_line_start(text@, at as int),
        r <= at,
{
    let mut p: usize = at;
    while p > 0 && text[p - 1] != '\n'
        invariant
            p <= at <= text.len(),
            spec_line_start(text@, at as int) == spec_line_start(text@, p as int),
        decreases p,
    {
        p = p - 1;
    }
    p
}

/// The span of the quoted text on the cursor's line, for the quote `q`.
pub fn quote_span(text: &[char], cursor: usize, q: char, inner: bool) -> (r: Span)
    ensures
        (r.start as int, r.end as int) == spec_quote_span(text@, cursor as int, q, inner),
        r.start <= r.end <= text@.len(),
{
    let at: usize = clamped(text, cursor);
    let start: usize = line_start(text, at);
    let end: usize = find_char(text, '\n', at, text.len());
    let mut from: usize = start;
    while from < end
        invariant
            start <= from,
            at <= end <= text.len(),
            at == spec_clamped(text@, cursor as int),
            start == spec_line_start(text@, at as int),
            end == spec_find(text@, '\n', at as int, text@.len() as int),
            spec_quote_pair(text@, q, start as int, end as int, at as int) == spec_quote_pair(
                text@,
                q,
                from as int,
                end as int,
                at as int,
            ),
        decreases end - from,
    {
        let first: usize = find_char(text, q, from, end);
        if first >= end {
            return Span { start: at, end: at };
        }
        let second: usize = find_char(text, q, first + 1, end);
        if second >= end {
            return Span { start: at, end: at };
        }
        if second >= at {
            if inner {
                return Span { start: first + 1, end: second };
            } else {
                return Span { start: first, end: second + 1 };
            }
        }
        from = second + 1;
    }
    Span { start: at, end: at }
}

/// The span `[start, end)` of a text object at a cursor: for a word the
/// run of word characters that touches the cursor, for a bracket the
/// innermost balanced pair around it, for a quote the nearest pair on the
/// cursor's line that holds or follows it. `Sentence`, `Paragraph` and `Tag`
/// span nothing. What is not found is the empty span at the cursor.
pub fn resolve(text: &[char], cursor: usize, object: TextObject, inner: bool) -> (r: Span)
    ensures
        (r.start as int, r.end as int) == spec_resolve(text@, cursor as int, object, inner),
        r == spec_resolve_span(text@, cursor as int, object, inner),
        r.start <= r.end <= text@.len(),
{
    match object {
        TextObject::Word => word_span(text, cursor, false, inner),
        TextObject::BigWord => word_span(text, cursor, true, inner),
        TextObject::Parenthesis => bracket_span(text, cursor, '(', ')', inner),
        TextObject::Bracket => bracket_span(text, cursor, '[', ']', inner),
        TextObject::CurlyBrace => bracket_span(text, cursor, '{', '}', inner),
        TextObject::AngleBracket => bracket_span(text, cursor, '<', '>', inner),
        TextObject::DoubleQuote => quote_span(text, cursor, '"', inner),
        TextObject::SingleQuote => quote_span(text, cursor, '\'', inner),
        TextObject::BackTick => quote_span(text, cursor, '`', inner),
        _ => {
            let at: usize = clamped(text, cursor);
            Span { start: at, end: at }
        },
    }
}

/// Takes the characters of a span out of a text and hands them back. A
/// span that does not lie in the text takes nothing out.
pub fn remove_span(text: &mut Vec<char>, span: Span) -> (removed: Vec<char>)
    ensures
        final(text)@ == spec_without(old(text)@, span.start as int, span.end as int),
        span.start <= span.end <= old(text)@.len() ==> removed@ == old(text)@.subrange(
            span.start as int,
            span.end as int,
        ),
        !(span.start <= span.end <= old(text)@.len()) ==> removed@.len() == 0,
{
    let mut removed: Vec<char> = Vec::new();
    if !(span.start <= span.end && span.end <= text.len()) {
        return removed;
    }
    let mut kept: Vec<char> = Vec::new();
    let mut i: usize = 0;
    while i < text.len()
        invariant
            i <= text.len(),
            span.start <= span.end <= text.len(),
            i <= span.start ==> kept@ == text@.subrange(0, i as int) && removed@.len() == 0,
            span.start < i <= span.end ==> kept@ == text@.subrange(0, span.start as int)
                && removed@ == text@.subrange(span.start as int, i as int),
            span.end < i ==> kept@ == text@.subrange(0, span.start as int) + text@.subrange(
                span.end as int,
                i as int,
            ) && removed@ == text@.subrange(span.start as int, span.end as int),
        decreases text.len() - i,
    {
        let c: char = text[i];
        if span.start <= i && i < span.end {
            removed.push(c);
        } else {
            kept.push(c);
        }
        i = i + 1;
        proof {
            if i <= span.start {
                assert(kept@ =~= text@.subrange(0, i as int));
            } else if i <= span.end {
                assert(kept@ =~= text@.subrange(0, span.start as int));
                assert(removed@ =~= text@.subrange(span.start as int, i as int));
            } else {
                assert(kept@ =~= text@.subrange(0, span.start as int) + text@.subrange(
                    span.end as int,
                    i as int,
                ));
                assert(removed@ =~= text@.subrange(span.start as int, span.end as int));
            }
        }
    }
    proof {
        let n = text@.len() as int;
        assert(kept@ =~= text@.subrange(0, span.start as int) + text@.subrange(span.end as int, n));
        assert(removed@ =~= text@.subrange(span.start as int, span.end as int));
    }
    *text = kept;
    removed
}

} // verus!
