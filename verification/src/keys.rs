//! Key events and their textual notation.
//!
//! A key sequence is written as plain characters, with `\` before a literal
//! `<`, `>` or `\`, and with angle brackets around a named key (`<ESC>`,
//! `<CR>`) or around a key with modifiers (`<C-x>`, `<A-M-ESC>`).

use vstd::prelude::*;
use vstd::string::*;

verus! {

/// Modifier bit of the shift key.
pub const SHIFT: u8 = 1;

/// Modifier bit of the control key.
pub const CONTROL: u8 = 2;

/// Modifier bit of the alt key.
pub const ALT: u8 = 4;

/// Modifier bit of the meta key.
pub const META: u8 = 32;

/// Which key was pressed.
#[derive(Clone, Copy, Debug, PartialEq, Eq, Structural)]
pub enum KeyCode {
    Char(char),
    Esc,
    Enter,
}

/// One key press: the key and the set of modifiers held, as a bit set.
#[derive(Clone, Copy, Debug, PartialEq, Eq, Structural)]
pub struct KeyEvent {
    pub code: KeyCode,
    pub modifiers: u8,
}

/// Why a notation was refused: `at` is the index of the character at which
/// no token starts.
#[derive(Clone, Copy, Debug, PartialEq, Eq, Structural)]
pub struct NotationError {
    pub at: usize,
}

/// The modifier that the two characters at `i` name, if any.
pub open spec fn spec_modifier(s: Seq<char>, i: int) -> Option<u8> {
    if 0 <= i && i + 2 <= s.len() && s[i + 1] == '-' {
        if s[i] == 'C' {
            Some(CONTROL)
        } else if s[i] == 'S' {
            Some(SHIFT)
        } else if s[i] == 'M' {
            Some(META)
        } else if s[i] == 'A' {
            Some(ALT)
        } else {
            None
        }
    } else {
        None
    }
}

/// The longest run of modifiers that starts at `i`: the bits of `acc` joined
/// with those of the run, and the index after the run.
pub open spec fn spec_modifiers(s: Seq<char>, i: int, acc: u8) -> (u8, int)
    decreases s.len() - i,
{
    match spec_modifier(s, i) {
        Some(m) => spec_modifiers(s, i + 2, acc | m),
        None => (acc, i),
    }
}

/// A named key at `i`, with the index after it.
pub open spec fn spec_special(s: Seq<char>, i: int) -> Option<(KeyCode, int)> {
    if 0 <= i && i + 3 <= s.len() && s[i] == 'E' && s[i + 1] == 'S' && s[i + 2] == 'C' {
        Some((KeyCode::Esc, i + 3))
    } else if 0 <= i && i + 2 <= s.len() && s[i] == 'C' && s[i + 1] == 'R' {
        Some((KeyCode::Enter, i + 2))
    } else {
        None
    }
}

/// A character key at `i`, escaped or not, with the index after it.
pub open spec fn spec_char_code(s: Seq<char>, i: int) -> Option<(KeyCode, int)> {
    if i < 0 || i >= s.len() {
        None
    } else if s[i] == '\\' {
        if i + 1 < s.len() && (s[i + 1] == '\\' || s[i + 1] == '<' || s[i + 1] == '>') {
            Some((KeyCode::Char(s[i + 1]), i + 2))
        } else {
            None
        }
    } else if s[i] == '<' {
        None
    } else {
        Some((KeyCode::Char(s[i]), i + 1))
    }
}

/// A bracketed key with at least one modifier, at `i`.
pub open spec fn spec_modified(s: Seq<char>, i: int) -> Option<(KeyEvent, int)> {
    if 0 <= i < s.len() && s[i] == '<' && spec_modifier(s, i + 1) is Some {
        let (bits, j) = spec_modifiers(s, i + 1, 0);
        let code = match spec_special(s, j) {
            Some(c) => Some(c),
            None => spec_char_code(s, j),
        };
        match code {
            Some((c, k)) => if k < s.len() && s[k] == '>' {
                Some((KeyEvent { code: c, modifiers: bits }, k + 1))
            } else {
                None
            },
            None => None,
        }
    } else {
        None
    }
}

/// A bracketed named key without modifiers, at `i`.
pub open spec fn spec_bracketed(s: Seq<char>, i: int) -> Option<(KeyEvent, int)> {
    if 0 <= i < s.len() && s[i] == '<' {
        match spec_special(s, i + 1) {
            Some((c, k)) => if k < s.len() && s[k] == '>' {
                Some((KeyEvent { code: c, modifiers: 0 }, k + 1))
            } else {
                None
            },
            None => None,
        }
    } else {
        None
    }
}

/// The token at `i`: a key with modifiers, else a character, else a named key.
pub open spec fn spec_token(s: Seq<char>, i: int) -> Option<(KeyEvent, int)> {
    match spec_modified(s, i) {
        Some(t) => Some(t),
        None => match spec_char_code(s, i) {
            Some((c, k)) => Some((KeyEvent { code: c, modifiers: 0 }, k)),
            None => spec_bracketed(s, i),
        },
    }
}

/// The key events that `s` denotes from `i` to its end, or the index at
/// which no token starts.
pub open spec fn spec_key_events(s: Seq<char>, i: int) -> Result<Seq<KeyEvent>, int>
    decreases s.len() - i,
{
    if i >= s.len() {
        Ok(Seq::empty())
    } else {
        match spec_token(s, i) {
            Some((ev, j)) => if i < j {
                match spec_key_events(s, j) {
                    Ok(rest) => Ok(seq![ev] + rest),
                    Err(p) => Err(p),
                }
            } else {
                Err(i)
            },
            None => Err(i),
        }
    }
}

/// A run of modifiers ends at or after its start and inside the text.
proof fn lemma_modifiers_end(s: Seq<char>, i: int, acc: u8)
    requires
        0 <= i <= s.len(),
    ensures
        i <= spec_modifiers(s, i, acc).1 <= s.len(),
        spec_modifier(s, i) is Some ==> i + 2 <= spec_modifiers(s, i, acc).1,
    decreases s.len() - i,
{
    match spec_modifier(s, i) {
        Some(m) => lemma_modifiers_end(s, i + 2, acc | m),
        None => {},
    }
}

/// Every token takes at least one character and ends inside the text.
pub proof fn lemma_token_advances(s: Seq<char>, i: int)
    requires
        0 <= i,
        spec_token(s, i) is Some,
    ensures
        i < spec_token(s, i).unwrap().1 <= s.len(),
{
    if spec_modified(s, i) is Some {
        lemma_modifiers_end(s, i + 1, 0);
    }
}

/// The notation of a character key without modifiers: the character, with
/// `\` before it where it is `<`, `>` or `\`.
pub open spec fn spec_escape(c: char) -> Seq<char> {
    if c == '<' || c == '>' || c == '\\' {
        seq!['\\', c]
    } else {
        seq![c]
    }
}

/// The notation of a run of character keys without modifiers.
pub open spec fn spec_escape_all(cs: Seq<char>) -> Seq<char>
    decreases cs.len(),
{
    if cs.len() == 0 {
        Seq::empty()
    } else {
        spec_escape(cs[0]) + spec_escape_all(cs.drop_first())
    }
}

/// The character keys without modifiers for a run of characters.
pub open spec fn spec_plain_keys(cs: Seq<char>) -> Seq<KeyEvent>
    decreases cs.len(),
{
    if cs.len() == 0 {
        Seq::empty()
    } else {
        seq![KeyEvent { code: KeyCode::Char(cs[0]), modifiers: 0 }] + spec_plain_keys(
            cs.drop_first(),
        )
    }
}

proof fn lemma_round_trip_from(pre: Seq<char>, cs: Seq<char>)
    ensures
        spec_key_events(pre + spec_escape_all(cs), pre.len() as int) == Ok::<Seq<KeyEvent>, int>(
            spec_plain_keys(cs),
        ),
    decreases cs.len(),
{
    let s = pre + spec_escape_all(cs);
    let i = pre.len() as int;
    if cs.len() > 0 {
        let c = cs[0];
        let piece = spec_escape(c);
        let rest = cs.drop_first();
        let longer = pre + piece;
        assert(s =~= longer + spec_escape_all(rest));
        assert(s[i] == piece[0]);
        if piece.len() == 2 {
            assert(s[i + 1] == piece[1]);
        }
        lemma_round_trip_from(longer, rest);
        let ev = KeyEvent { code: KeyCode::Char(c), modifiers: 0 };
        assert(spec_modified(s, i) is None);
        assert(spec_token(s, i) == Some((ev, i + piece.len())));
    }
}

/// The notation round-trips: every run of characters, written with `\`
/// before each `<`, `>` and `\`, reads back as exactly those characters,
/// one key each, without modifiers.
pub proof fn lemma_escape_round_trip(cs: Seq<char>)
    ensures
        spec_key_events(spec_escape_all(cs), 0) == Ok::<Seq<KeyEvent>, int>(spec_plain_keys(cs)),
{
    lemma_round_trip_from(Seq::empty(), cs);
    assert(Seq::<char>::empty() + spec_escape_all(cs) =~= spec_escape_all(cs));
}

fn modifier_at(s: &Vec<char>, i: usize) -> (r: Option<u8>)
    ensures
        r == spec_modifier(s@, i as int),
{
    if i < s.len() && 1 < s.len() - i && s[i + 1] == '-' {
        let c: char = s[i];
        if c == 'C' {
            Some(CONTROL)
        } else if c == 'S' {
            Some(SHIFT)
        } else if c == 'M' {
            Some(META)
        } else if c == 'A' {
            Some(ALT)
        } else {
            None
        }
    } else {
        None
    }
}

fn modifiers_at(s: &Vec<char>, start: usize) -> (r: (u8, usize))
    requires
        start <= s.len(),
    ensures
        (r.0, r.1 as int) == spec_modifiers(s@, start as int, 0),
        start <= r.1 <= s.len(),
{
    let mut acc: u8 = 0;
    let mut i: usize = start;
    loop
        invariant
            start <= i <= s.len(),
            spec_modifiers(s@, start as int, 0) == spec_modifiers(s@, i as int, acc),
        decreases s.len() - i,
    {
        match modifier_at(s, i) {
            Some(m) => {
                acc = acc | m;
                i = i + 2;
            },
            None => {
                return (acc, i);
            },
        }
    }
}

fn special_at(s: &Vec<char>, i: usize) -> (r: Option<(KeyCode, usize)>)
    ensures
        match r {
            Some((c, k)) => spec_special(s@, i as int) == Some((c, k as int)),
            None => spec_special(s@, i as int) is None,
        },
{
    let n: usize = s.len();
    if i < n && 2 < n - i && s[i] == 'E' && s[i + 1] == 'S' && s[i + 2] == 'C' {
        Some((KeyCode::Esc, i + 3))
    } else if i < n && 1 < n - i && s[i] == 'C' && s[i + 1] == 'R' {
        Some((KeyCode::Enter, i + 2))
    } else {
        None
    }
}

fn char_code_at(s: &Vec<char>, i: usize) -> (r: Option<(KeyCode, usize)>)
    ensures
        match r {
            Some((c, k)) => spec_char_code(s@, i as int) == Some((c, k as int)),
            None => spec_char_code(s@, i as int) is None,
        },
{
    let n: usize = s.len();
    if i >= n {
        None
    } else if s[i] == '\\' {
        if 1 < n - i && (s[i + 1] == '\\' || s[i + 1] == '<' || s[i + 1] == '>') {
            Some((KeyCode::Char(s[i + 1]), i + 2))
        } else {
            None
        }
    } else if s[i] == '<' {
        None
    } else {
        Some((KeyCode::Char(s[i]), i + 1))
    }
}

fn closed_at(s: &Vec<char>, code: Option<(KeyCode, usize)>, bits: u8) -> (r: Option<
    (KeyEvent, usize),
>)
    ensures
        match r {
            Some((ev, k)) => code is Some && ev == (KeyEvent {
                code: code.unwrap().0,
                modifiers: bits,
            }) && k == code.unwrap().1 + 1 && code.unwrap().1 < s.len() && s@[code.unwrap().1 as int]
                == '>',
            None => code is None || code.unwrap().1 >= s.len() || s@[code.unwrap().1 as int]
                != '>',
        },
{
    match code {
        Some((c, k)) => {
            if k < s.len() && s[k] == '>' {
                Some((KeyEvent { code: c, modifiers: bits }, k + 1))
            } else {
                None
            }
        },
        None => None,
    }
}

fn token_at(s: &Vec<char>, i: usize) -> (r: Option<(KeyEvent, usize)>)
    requires
        i < s.len(),
    ensures
        match r {
            Some((ev, k)) => spec_token(s@, i as int) == Some((ev, k as int)) && i < k <= s.len(),
            None => spec_token(s@, i as int) is None,
        },
{
    if s[i] == '<' {
        if modifier_at(s, i + 1).is_some() {
            let (bits, j) = modifiers_at(s, i + 1);
            let code = match special_at(s, j) {
                Some(c) => Some(c),
                None => char_code_at(s, j),
            };
            let r = closed_at(s, code, bits);
            proof {
                lemma_modifiers_end(s@, i + 1, 0);
            }
            r
        } else {
            let code = special_at(s, i + 1);
            closed_at(s, code, 0)
        }
    } else {
        match char_code_at(s, i) {
            Some((c, k)) => Some((KeyEvent { code: c, modifiers: 0 }, k)),
            None => None,
        }
    }
}

/// Reads a whole notation, given as characters. The result is the sequence
/// of key events that the grammar assigns to the text, or the index at which
/// no token starts; nothing is accepted in part.
pub fn parse_key_chars(s: &Vec<char>) -> (r: Result<Vec<KeyEvent>, NotationError>)
    ensures
        match r {
            Ok(events) => spec_key_events(s@, 0) == Ok::<Seq<KeyEvent>, int>(events@),
            Err(e) => spec_key_events(s@, 0) == Err::<Seq<KeyEvent>, int>(e.at as int),
        },
{
    let mut events: Vec<KeyEvent> = Vec::new();
    let mut i: usize = 0;
    while i < s.len()
        invariant
            i <= s.len(),
            spec_key_events(s@, 0) == match spec_key_events(s@, i as int) {
                Ok(rest) => Ok::<Seq<KeyEvent>, int>(events@ + rest),
                Err(p) => Err(p),
            },
        decreases s.len() - i,
    {
        match token_at(s, i) {
            Some((ev, k)) => {
                proof {
                    let ghost before = events@;
                    match spec_key_events(s@, k as int) {
                        Ok(rest) => {
                            assert(before + (seq![ev] + rest) =~= before.push(ev) + rest);
                        },
                        Err(p) => {},
                    }
                }
                events.push(ev);
                i = k;
            },
            None => {
                return Err(NotationError { at: i });
            },
        }
    }
    proof {
        assert(events@ + Seq::<KeyEvent>::empty() =~= events@);
    }
    Ok(events)
}

/// The characters of a string, in order.
pub fn chars_of(s: &str) -> (r: Vec<char>)
    ensures
        r@ == s@,
{
    let n: usize = s.unicode_len();
    let mut out: Vec<char> = Vec::new();
    let mut i: usize = 0;
    while i < n
        invariant
            n == s@.len(),
            i <= n,
            out@ == s@.subrange(0, i as int),
        decreases n - i,
    {
        let c: char = s.get_char(i);
        proof {
            assert(s@.subrange(0, i as int).push(c) =~= s@.subrange(0, i + 1));
        }
        out.push(c);
        i = i + 1;
    }
    proof {
        assert(s@.subrange(0, n as int) =~= s@);
    }
    out
}

/// Reads a whole notation: the key events that the grammar assigns to `s`,
/// or the index of the character at which no token starts.
pub fn parse_key_events(s: &str) -> (r: Result<Vec<KeyEvent>, NotationError>)
    ensures
        match r {
            Ok(events) => spec_key_events(s@, 0) == Ok::<Seq<KeyEvent>, int>(events@),
            Err(e) => spec_key_events(s@, 0) == Err::<Seq<KeyEvent>, int>(e.at as int),
        },
{
    let chars = chars_of(s);
    parse_key_chars(&chars)
}

} // verus!
