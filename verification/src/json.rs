//! The JSON wire grammar the client speaks: string escaping for encoding,
//! and a recursive-descent scanner for decoding.
//!
//! Each scanning function exists twice: a spec function that *is* the
//! grammar, over a `Seq<char>` and a position, and an executable mirror
//! proved to return exactly what the spec function says. Positions returned
//! inside `Some` always lie between the start position and the end of the
//! input.

use vstd::prelude::*;

use crate::text::{char_from_scalar, hex_digit, hex_digit_char, hex_char_val, hex_val, str_chars};

verus! {

// ---------------------------------------------------------------------------
// Encoding: JSON string escaping.
// ---------------------------------------------------------------------------

/// The escape sequence (or the character itself) a character encodes to
/// inside a JSON string: quote, backslash and the named control characters
/// get two-character escapes, other control characters get `\u00XX`, and
/// everything else stands for itself.
pub open spec fn spec_escape_char(c: char) -> Seq<char> {
    if c == '"' {
        seq!['\\', '"']
    } else if c == '\\' {
        seq!['\\', '\\']
    } else if c == '\u{8}' {
        seq!['\\', 'b']
    } else if c == '\u{c}' {
        seq!['\\', 'f']
    } else if c == '\n' {
        seq!['\\', 'n']
    } else if c == '\r' {
        seq!['\\', 'r']
    } else if c == '\t' {
        seq!['\\', 't']
    } else if (c as u32) < 0x20 {
        seq!['\\', 'u', '0', '0', hex_digit((c as u32 / 16) as nat), hex_digit(
            (c as u32 % 16) as nat,
        )]
    } else {
        seq![c]
    }
}

/// The escaped form of a whole string.
pub open spec fn spec_escape(s: Seq<char>) -> Seq<char>
    decreases s.len(),
{
    if s.len() == 0 {
        Seq::empty()
    } else {
        spec_escape_char(s[0]) + spec_escape(s.drop_first())
    }
}

/// Escaping distributes over appending one character at the end.
pub proof fn lemma_escape_push(s: Seq<char>, c: char)
    ensures
        spec_escape(s.push(c)) == spec_escape(s) + spec_escape_char(c),
    decreases s.len(),
{
    let t = s.push(c);
    if s.len() == 0 {
        assert(t[0] == c);
        assert(t.drop_first() =~= Seq::<char>::empty());
        assert(spec_escape(t) == spec_escape_char(c) + spec_escape(Seq::<char>::empty()));
        assert(spec_escape_char(c) + Seq::<char>::empty() =~= spec_escape_char(c));
        assert(spec_escape(s) + spec_escape_char(c) =~= spec_escape_char(c));
    } else {
        assert(t[0] == s[0]);
        assert(t.drop_first() =~= s.drop_first().push(c));
        lemma_escape_push(s.drop_first(), c);
        assert(spec_escape(t) == spec_escape_char(s[0]) + (spec_escape(s.drop_first())
            + spec_escape_char(c)));
        assert(spec_escape_char(s[0]) + (spec_escape(s.drop_first()) + spec_escape_char(c)) =~= (
        spec_escape_char(s[0]) + spec_escape(s.drop_first())) + spec_escape_char(c));
    }
}

fn push_escaped_char(out: &mut Vec<char>, c: char)
    ensures
        final(out)@ == old(out)@ + spec_escape_char(c),
{
    let ghost pre = out@;
    if c == '"' {
        out.push('\\');
        out.push('"');
    } else if c == '\\' {
        out.push('\\');
        out.push('\\');
    } else if c == '\u{8}' {
        out.push('\\');
        out.push('b');
    } else if c == '\u{c}' {
        out.push('\\');
        out.push('f');
    } else if c == '\n' {
        out.push('\\');
        out.push('n');
    } else if c == '\r' {
        out.push('\\');
        out.push('r');
    } else if c == '\t' {
        out.push('\\');
        out.push('t');
    } else if (c as u32) < 0x20 {
        let v = c as u32;
        out.push('\\');
        out.push('u');
        out.push('0');
        out.push('0');
        out.push(hex_digit_char(v / 16));
        out.push(hex_digit_char(v % 16));
    } else {
        out.push(c);
    }
    proof {
        assert(out@ =~= pre + spec_escape_char(c));
    }
}

/// Appends the escaped form of `s` to `out`.
pub(crate) fn push_escaped(out: &mut Vec<char>, s: &str)
    ensures
        final(out)@ == old(out)@ + spec_escape(s@),
{
    let cs = str_chars(s);
    let ghost pre = out@;
    let mut i: usize = 0;
    while i < cs.len()
        invariant
            i <= cs.len(),
            cs@ == s@,
            out@ == pre + spec_escape(s@.take(i as int)),
        decreases cs.len() - i,
    {
        push_escaped_char(out, cs[i]);
        proof {
            lemma_escape_push(s@.take(i as int), s@[i as int]);
            assert(s@.take(i as int).push(s@[i as int]) =~= s@.take(i + 1));
        }
        i = i + 1;
    }
    proof {
        assert(s@.take(s@.len() as int) =~= s@);
    }
}

// ---------------------------------------------------------------------------
// Decoding: character classes and whitespace.
// ---------------------------------------------------------------------------

/// JSON whitespace.
pub open spec fn is_ws(c: char) -> bool {
    c == ' ' || c == '\t' || c == '\n' || c == '\r'
}

/// A decimal digit.
pub open spec fn is_digit(c: char) -> bool {
    48 <= c as u32 <= 57
}

/// The first position at or after `i` holding no whitespace.
pub open spec fn spec_skip_ws(s: Seq<char>, i: int) -> int
    decreases s.len() - i,
{
    if 0 <= i < s.len() && is_ws(s[i]) {
        spec_skip_ws(s, i + 1)
    } else {
        i
    }
}

pub(crate) fn skip_ws(s: &Vec<char>, i: usize) -> (r: usize)
    requires
        i <= s@.len(),
    ensures
        r == spec_skip_ws(s@, i as int),
        i <= r <= s@.len(),
    decreases s@.len() - i,
{
    if i < s.len() {
        let c = s[i];
        if c == ' ' || c == '\t' || c == '\n' || c == '\r' {
            skip_ws(s, i + 1)
        } else {
            i
        }
    } else {
        i
    }
}

// ---------------------------------------------------------------------------
// Decoding: fixed literals.
// ---------------------------------------------------------------------------

/// Matches the exact characters of `lit` at position `i`, giving the
/// position after them.
pub open spec fn spec_match_lit(s: Seq<char>, i: int, lit: Seq<char>) -> Option<int> {
    if 0 <= i && i + lit.len() <= s.len() && s.subrange(i, i + lit.len() as int) == lit {
        Some(i + lit.len() as int)
    } else {
        None
    }
}

pub(crate) fn match_lit(s: &Vec<char>, i: usize, lit: &str) -> (r: Option<usize>)
    requires
        i <= s@.len(),
    ensures
        match r {
            Some(j) => spec_match_lit(s@, i as int, lit@) == Some(j as int) && i <= j <= s@.len(),
            None => spec_match_lit(s@, i as int, lit@) is None,
        },
{
    let lv = str_chars(lit);
    let n = s.len();
    if n - i < lv.len() {
        return None;
    }
    let mut j: usize = 0;
    while j < lv.len()
        invariant
            j <= lv.len(),
            lv@ == lit@,
            n == s@.len(),
            i + lv@.len() <= n,
            forall|k: int| 0 <= k < j ==> s@[i + k] == lit@[k],
        decreases lv.len() - j,
    {
        if s[i + j] != lv[j] {
            proof {
                assert(s@.subrange(i as int, i + lit@.len() as int)[j as int] != lit@[j as int]);
            }
            return None;
        }
        j = j + 1;
    }
    proof {
        assert(s@.subrange(i as int, i + lit@.len() as int) =~= lit@);
    }
    Some(i + lv.len())
}

/// Whether the characters of `v` are exactly those of `lit`.
pub(crate) fn chars_eq_str(v: &Vec<char>, lit: &str) -> (r: bool)
    ensures
        r == (v@ == lit@),
{
    let lv = str_chars(lit);
    if v.len() != lv.len() {
        return false;
    }
    let mut j: usize = 0;
    while j < lv.len()
        invariant
            j <= lv.len(),
            lv@ == lit@,
            v@.len() == lit@.len(),
            forall|k: int| 0 <= k < j ==> v@[k] == lit@[k],
        decreases lv.len() - j,
    {
        if v[j] != lv[j] {
            return false;
        }
        j = j + 1;
    }
    proof {
        assert(v@ =~= lit@);
    }
    true
}

// ---------------------------------------------------------------------------
// Decoding: strings.
// ---------------------------------------------------------------------------

/// The value of four hexadecimal digits at position `i`.
pub open spec fn spec_hex4(s: Seq<char>, i: int) -> Option<u32> {
    if 0 <= i && i + 4 <= s.len() {
        match hex_val(s[i]) {
            None => None,
            Some(a) => match hex_val(s[i + 1]) {
                None => None,
                Some(b) => match hex_val(s[i + 2]) {
                    None => None,
                    Some(c) => match hex_val(s[i + 3]) {
                        None => None,
                        Some(d) => Some((a * 4096 + b * 256 + c * 16 + d) as u32),
                    },
                },
            },
        }
    } else {
        None
    }
}

fn hex4(s: &Vec<char>, i: usize) -> (r: Option<u32>)
    requires
        i <= s@.len(),
    ensures
        r == spec_hex4(s@, i as int),
        r matches Some(v) ==> v < 0x10000,
{
    if s.len() - i < 4 {
        return None;
    }
    let a = match hex_char_val(s[i]) {
        Some(a) => a,
        None => { return None; },
    };
    let b = match hex_char_val(s[i + 1]) {
        Some(b) => b,
        None => { return None; },
    };
    let c = match hex_char_val(s[i + 2]) {
        Some(c) => c,
        None => { return None; },
    };
    let d = match hex_char_val(s[i + 3]) {
        Some(d) => d,
        None => { return None; },
    };
    proof {
        assert(a < 16 && b < 16 && c < 16 && d < 16);
    }
    Some(a * 4096 + b * 256 + c * 16 + d)
}

/// The character an escape sequence denotes, and the position after it.
/// `i` is the position just after the backslash. A `\uXXXX` escape holding
/// a high surrogate must be followed by a low-surrogate escape; the pair
/// denotes one supplementary character. Lone surrogates are rejected.
pub open spec fn spec_parse_escape(s: Seq<char>, i: int) -> Option<(char, int)> {
    if 0 <= i < s.len() {
        let c = s[i];
        if c == '"' {
            Some(('"', i + 1))
        } else if c == '\\' {
            Some(('\\', i + 1))
        } else if c == '/' {
            Some(('/', i + 1))
        } else if c == 'b' {
            Some(('\u{8}', i + 1))
        } else if c == 'f' {
            Some(('\u{c}', i + 1))
        } else if c == 'n' {
            Some(('\n', i + 1))
        } else if c == 'r' {
            Some(('\r', i + 1))
        } else if c == 't' {
            Some(('\t', i + 1))
        } else if c == 'u' {
            match spec_hex4(s, i + 1) {
                None => None,
                Some(v) => if v < 0xD800 || v >= 0xE000 {
                    Some((v as char, i + 5))
                } else if v < 0xDC00 {
                    if i + 7 <= s.len() && s[i + 5] == '\\' && s[i + 6] == 'u' {
                        match spec_hex4(s, i + 7) {
                            None => None,
                            Some(w) => if 0xDC00 <= w < 0xE000 {
                                Some((
                                    (0x10000 + (v - 0xD800) * 0x400 + (w - 0xDC00)) as char,
                                    i + 11,
                                ))
                            } else {
                                None
                            },
                        }
                    } else {
                        None
                    }
                } else {
                    None
                },
            }
        } else {
            None
        }
    } else {
        None
    }
}

fn parse_escape(s: &Vec<char>, i: usize) -> (r: Option<(char, usize)>)
    requires
        i <= s@.len(),
    ensures
        match r {
            Some((c, j)) => spec_parse_escape(s@, i as int) == Some((c, j as int)) && i < j
                <= s@.len(),
            None => spec_parse_escape(s@, i as int) is None,
        },
{
    if i >= s.len() {
        return None;
    }
    let c = s[i];
    if c == '"' {
        Some(('"', i + 1))
    } else if c == '\\' {
        Some(('\\', i + 1))
    } else if c == '/' {
        Some(('/', i + 1))
    } else if c == 'b' {
        Some(('\u{8}', i + 1))
    } else if c == 'f' {
        Some(('\u{c}', i + 1))
    } else if c == 'n' {
        Some(('\n', i + 1))
    } else if c == 'r' {
        Some(('\r', i + 1))
    } else if c == 't' {
        Some(('\t', i + 1))
    } else if c == 'u' {
        match hex4(s, i + 1) {
            None => None,
            Some(v) => {
                if v < 0xD800 || v >= 0xE000 {
                    let ch = char_from_scalar(v);
                    Some((ch, i + 5))
                } else if v < 0xDC00 {
                    if s.len() - i >= 7 && s[i + 5] == '\\' && s[i + 6] == 'u' {
                        match hex4(s, i + 7) {
                            None => None,
                            Some(w) => {
                                if 0xDC00 <= w && w < 0xE000 {
                                    let ch = char_from_scalar(
                                        0x10000 + (v - 0xD800) * 0x400 + (w - 0xDC00),
                                    );
                                    Some((ch, i + 11))
                                } else {
                                    None
                                }
                            },
                        }
                    } else {
                        None
                    }
                } else {
                    None
                }
            },
        }
    } else {
        None
    }
}

/// The content and end of a JSON string, scanning from inside the opening
/// quote. Unescaped control characters are rejected.
pub open spec fn spec_parse_string_body(s: Seq<char>, i: int) -> Option<(Seq<char>, int)>
    decreases s.len() - i,
{
    if 0 <= i < s.len() {
        let c = s[i];
        if c == '"' {
            Some((Seq::empty(), i + 1))
        } else if c == '\\' {
            match spec_parse_escape(s, i + 1) {
                None => None,
                Some((ch, j)) => if i < j <= s.len() {
                    match spec_parse_string_body(s, j) {
                        None => None,
                        Some((rest, k)) => Some((seq![ch] + rest, k)),
                    }
                } else {
                    None
                },
            }
        } else if (c as u32) < 0x20 {
            None
        } else {
            match spec_parse_string_body(s, i + 1) {
                None => None,
                Some((rest, k)) => Some((seq![c] + rest, k)),
            }
        }
    } else {
        None
    }
}

fn parse_string_body(s: &Vec<char>, i: usize) -> (r: Option<(Vec<char>, usize)>)
    requires
        i <= s@.len(),
    ensures
        match r {
            Some((v, j)) => spec_parse_string_body(s@, i as int) == Some((v@, j as int)) && i < j
                <= s@.len(),
            None => spec_parse_string_body(s@, i as int) is None,
        },
    decreases s@.len() - i,
{
    if i >= s.len() {
        return None;
    }
    let c = s[i];
    if c == '"' {
        let v: Vec<char> = Vec::new();
        proof {
            assert(v@ =~= Seq::<char>::empty());
        }
        Some((v, i + 1))
    } else if c == '\\' {
        match parse_escape(s, i + 1) {
            None => None,
            Some((ch, j)) => match parse_string_body(s, j) {
                None => None,
                Some((rest, k)) => {
                    let mut v = rest;
                    v.insert(0, ch);
                    proof {
                        assert(v@ =~= seq![ch] + v@.drop_first());
                    }
                    Some((v, k))
                },
            },
        }
    } else if (c as u32) < 0x20 {
        None
    } else {
        match parse_string_body(s, i + 1) {
            None => None,
            Some((rest, k)) => {
                let mut v = rest;
                v.insert(0, c);
                proof {
                    assert(v@ =~= seq![c] + v@.drop_first());
                }
                Some((v, k))
            },
        }
    }
}

/// Scanning an escape sequence yields back the character it encodes: when
/// the escaped form of a character needing an escape stands at `i`, the
/// escape scanner entered just after its backslash yields that character.
proof fn lemma_escape_char_parses(s: Seq<char>, i: int, c: char)
    requires
        0 <= i,
        c == '"' || c == '\\' || (c as u32) < 0x20,
        i + spec_escape_char(c).len() <= s.len(),
        forall|k: int| 0 <= k < spec_escape_char(c).len() ==> s[i + k] == spec_escape_char(c)[k],
    ensures
        spec_escape_char(c)[0] == '\\',
        spec_parse_escape(s, i + 1) == Some((c, i + spec_escape_char(c).len())),
{
    let e0 = spec_escape_char(c);
    if c == '"' || c == '\\' || c == '\u{8}' || c == '\u{c}' || c == '\n' || c == '\r' || c
        == '\t' {
        assert(s[i + 0] == e0[0] && s[i + 1] == e0[1]);
    } else {
        let v = c as u32;
        assert(s[i + 0] == e0[0] && s[i + 1] == e0[1] && s[i + 2] == e0[2] && s[i + 3] == e0[3]
            && s[i + 4] == e0[4] && s[i + 5] == e0[5]);
        assert(s[i + 4] == hex_digit((v / 16) as nat));
        assert(s[i + 5] == hex_digit((v % 16) as nat));
        assert(hex_val(s[i + 2]) == Some(0u32));
        assert(hex_val(s[i + 4]) == Some(v / 16));
        assert(hex_val(s[i + 5]) == Some(v % 16));
        assert(spec_hex4(s, i + 2) == Some(v));
        assert((v as char) == c);
        assert(spec_parse_escape(s, i + 1) == Some((c, i + 6)));
    }
}

/// Law: string scanning inverts escaping. Inside a string, the escaped form
/// of any text followed by the closing quote scans back to exactly that
/// text, ending just after the quote.
pub proof fn lemma_parse_string_escape(s: Seq<char>, i: int, name: Seq<char>)
    requires
        0 <= i,
        i + spec_escape(name).len() < s.len(),
        s.subrange(i, i + spec_escape(name).len() as int) == spec_escape(name),
        s[i + spec_escape(name).len() as int] == '"',
    ensures
        spec_parse_string_body(s, i) == Some((name, i + spec_escape(name).len() + 1)),
    decreases name.len(),
{
    let e = spec_escape(name);
    assert forall|k: int| 0 <= k < e.len() implies s[i + k] == e[k] by {
        assert(s.subrange(i, i + e.len() as int)[k] == s[i + k]);
    }
    if name.len() == 0 {
        assert(name =~= Seq::<char>::empty());
    } else {
        let c = name[0];
        let rest = name.drop_first();
        let e0 = spec_escape_char(c);
        let erest = spec_escape(rest);
        assert(e == e0 + erest);
        let i2 = i + e0.len() as int;
        assert forall|k: int| 0 <= k < erest.len() implies s.subrange(
            i2,
            i2 + erest.len() as int,
        )[k] == erest[k] by {
            assert(s[i2 + k] == e[e0.len() + k]);
            assert(e[e0.len() + k] == erest[k]);
        }
        assert(s.subrange(i2, i2 + erest.len() as int) =~= erest);
        assert(s[i2 + erest.len()] == '"');
        lemma_parse_string_escape(s, i2, rest);
        assert(seq![c] + rest =~= name);
        assert forall|k: int| 0 <= k < e0.len() implies s[i + k] == e0[k] by {
            assert(s[i + k] == e[k]);
            assert((e0 + erest)[k] == e0[k]);
        }
        if c == '"' || c == '\\' || (c as u32) < 0x20 {
            lemma_escape_char_parses(s, i, c);
            assert(s[i + 0] == e0[0]);
            assert(spec_parse_string_body(s, i) == Some((seq![c] + rest, i + e.len() + 1)));
        } else {
            assert(s[i + 0] == e0[0]);
            assert(s[i] == c);
            assert(spec_parse_string_body(s, i) == Some((seq![c] + rest, i + e.len() + 1)));
        }
    }
}

/// The content and end of a JSON string whose opening quote stands at `i`.
pub open spec fn spec_parse_string(s: Seq<char>, i: int) -> Option<(Seq<char>, int)> {
    if 0 <= i < s.len() && s[i] == '"' {
        spec_parse_string_body(s, i + 1)
    } else {
        None
    }
}

pub(crate) fn parse_string(s: &Vec<char>, i: usize) -> (r: Option<(Vec<char>, usize)>)
    requires
        i <= s@.len(),
    ensures
        match r {
            Some((v, j)) => spec_parse_string(s@, i as int) == Some((v@, j as int)) && i < j
                <= s@.len(),
            None => spec_parse_string(s@, i as int) is None,
        },
{
    if i < s.len() && s[i] == '"' {
        parse_string_body(s, i + 1)
    } else {
        None
    }
}

// ---------------------------------------------------------------------------
// Decoding: numbers.
// ---------------------------------------------------------------------------

/// The first position at or after `i` holding no decimal digit.
pub open spec fn spec_digits_end(s: Seq<char>, i: int) -> int
    decreases s.len() - i,
{
    if 0 <= i < s.len() && is_digit(s[i]) {
        spec_digits_end(s, i + 1)
    } else {
        i
    }
}

pub(crate) fn digits_end(s: &Vec<char>, i: usize) -> (r: usize)
    requires
        i <= s@.len(),
    ensures
        r == spec_digits_end(s@, i as int),
        i <= r <= s@.len(),
    decreases s@.len() - i,
{
    if i < s.len() {
        let v = s[i] as u32;
        if 48 <= v && v <= 57 {
            digits_end(s, i + 1)
        } else {
            i
        }
    } else {
        i
    }
}

/// The value of the digits in `s[i..j)`, read most significant first.
pub open spec fn spec_digits_val(s: Seq<char>, i: int, j: int) -> nat
    decreases j - i,
{
    if i >= j {
        0
    } else {
        spec_digits_val(s, i, j - 1) * 10 + (if s[j - 1] as u32 >= 48 {
            (s[j - 1] as u32 - 48) as nat
        } else {
            0
        })
    }
}

/// Every position before the end of a digit run holds a digit.
proof fn lemma_digits_range(s: Seq<char>, i: int)
    ensures
        forall|k: int| i <= k < spec_digits_end(s, i) ==> is_digit(s[k]),
    decreases s.len() - i,
{
    if 0 <= i < s.len() && is_digit(s[i]) {
        lemma_digits_range(s, i + 1);
    }
}

/// The value of a digit run never shrinks as the run extends.
proof fn lemma_digits_val_mono(s: Seq<char>, i: int, k: int, j: int)
    requires
        i <= k <= j,
    ensures
        spec_digits_val(s, i, j) >= spec_digits_val(s, i, k),
    decreases j - k,
{
    if k < j {
        lemma_digits_val_mono(s, i, k, j - 1);
        assert(spec_digits_val(s, i, j) >= spec_digits_val(s, i, j - 1));
    }
}

/// The integer `s[i..j)` denotes, when all of it consists of digits and its
/// value fits in sixteen bits.
pub open spec fn spec_digits_val_u16(s: Seq<char>, i: int, j: int) -> Option<u16> {
    if spec_digits_val(s, i, j) <= 0xFFFF {
        Some(spec_digits_val(s, i, j) as u16)
    } else {
        None
    }
}

/// Reads the value of the digit run `s[i..j)`, refusing values over sixteen
/// bits.
pub(crate) fn digits_val_u16(s: &Vec<char>, i: usize, j: usize) -> (r: Option<u16>)
    requires
        i <= j <= s@.len(),
        spec_digits_end(s@, i as int) >= j,
    ensures
        r == spec_digits_val_u16(s@, i as int, j as int),
{
    proof {
        lemma_digits_range(s@, i as int);
    }
    let mut k: usize = i;
    let mut val: u32 = 0;
    while k < j
        invariant
            i <= k <= j <= s@.len(),
            spec_digits_end(s@, i as int) >= j,
            val == spec_digits_val(s@, i as int, k as int),
            val <= 0xFFFF,
            forall|m: int| i <= m < spec_digits_end(s@, i as int) ==> is_digit(s@[m]),
        decreases j - k,
    {
        proof {
            assert(is_digit(s@[k as int]));
        }
        let c = s[k] as u32;
        let d = c - 48;
        proof {
            assert(spec_digits_val(s@, i as int, k + 1) == spec_digits_val(s@, i as int, k as int)
                * 10 + d);
        }
        if val > 6553 || val * 10 + d > 0xFFFF {
            proof {
                lemma_digits_val_mono(s@, i as int, k + 1, j as int);
            }
            return None;
        }
        val = val * 10 + d;
        k = k + 1;
    }
    Some(val as u16)
}

/// The end of the integer part of a number: `0`, or a nonzero digit followed
/// by more digits.
pub open spec fn spec_skip_int(s: Seq<char>, i: int) -> Option<int> {
    if 0 <= i < s.len() {
        if s[i] == '0' {
            Some(i + 1)
        } else if is_digit(s[i]) {
            Some(spec_digits_end(s, i))
        } else {
            None
        }
    } else {
        None
    }
}

/// The end after an optional fraction part.
pub open spec fn spec_skip_frac(s: Seq<char>, i: int) -> Option<int> {
    if 0 <= i < s.len() && s[i] == '.' {
        let d = spec_digits_end(s, i + 1);
        if d > i + 1 {
            Some(d)
        } else {
            None
        }
    } else {
        Some(i)
    }
}

/// The end after an optional exponent part.
pub open spec fn spec_skip_exp(s: Seq<char>, i: int) -> Option<int> {
    if 0 <= i < s.len() && (s[i] == 'e' || s[i] == 'E') {
        let j = if i + 1 < s.len() && (s[i + 1] == '+' || s[i + 1] == '-') {
            i + 2
        } else {
            i + 1
        };
        let d = spec_digits_end(s, j);
        if d > j {
            Some(d)
        } else {
            None
        }
    } else {
        Some(i)
    }
}

/// The end of a JSON number starting at `i`: an optional minus sign, an
/// integer part without leading zeros, an optional fraction and an optional
/// exponent.
pub open spec fn spec_skip_number(s: Seq<char>, i: int) -> Option<int> {
    let j = if 0 <= i < s.len() && s[i] == '-' {
        i + 1
    } else {
        i
    };
    match spec_skip_int(s, j) {
        None => None,
        Some(k) => match spec_skip_frac(s, k) {
            None => None,
            Some(m) => spec_skip_exp(s, m),
        },
    }
}

fn skip_int(s: &Vec<char>, i: usize) -> (r: Option<usize>)
    requires
        i <= s@.len(),
    ensures
        match r {
            Some(j) => spec_skip_int(s@, i as int) == Some(j as int) && i < j <= s@.len(),
            None => spec_skip_int(s@, i as int) is None,
        },
{
    if i >= s.len() {
        return None;
    }
    let c = s[i];
    if c == '0' {
        Some(i + 1)
    } else {
        let v = c as u32;
        if 48 <= v && v <= 57 {
            let e = digits_end(s, i + 1);
            proof {
                assert(spec_digits_end(s@, i as int) == spec_digits_end(s@, i + 1));
            }
            Some(e)
        } else {
            None
        }
    }
}

fn skip_frac(s: &Vec<char>, i: usize) -> (r: Option<usize>)
    requires
        i <= s@.len(),
    ensures
        match r {
            Some(j) => spec_skip_frac(s@, i as int) == Some(j as int) && i <= j <= s@.len(),
            None => spec_skip_frac(s@, i as int) is None,
        },
{
    if i < s.len() && s[i] == '.' {
        let d = digits_end(s, i + 1);
        if d > i + 1 {
            Some(d)
        } else {
            None
        }
    } else {
        Some(i)
    }
}

fn skip_exp(s: &Vec<char>, i: usize) -> (r: Option<usize>)
    requires
        i <= s@.len(),
    ensures
        match r {
            Some(j) => spec_skip_exp(s@, i as int) == Some(j as int) && i <= j <= s@.len(),
            None => spec_skip_exp(s@, i as int) is None,
        },
{
    if i < s.len() && (s[i] == 'e' || s[i] == 'E') {
        let j = if i + 1 < s.len() && (s[i + 1] == '+' || s[i + 1] == '-') {
            i + 2
        } else {
            i + 1
        };
        let d = digits_end(s, j);
        if d > j {
            Some(d)
        } else {
            None
        }
    } else {
        Some(i)
    }
}

pub(crate) fn skip_number(s: &Vec<char>, i: usize) -> (r: Option<usize>)
    requires
        i <= s@.len(),
    ensures
        match r {
            Some(j) => spec_skip_number(s@, i as int) == Some(j as int) && i < j <= s@.len(),
            None => spec_skip_number(s@, i as int) is None,
        },
{
    let j = if i < s.len() && s[i] == '-' {
        i + 1
    } else {
        i
    };
    match skip_int(s, j) {
        None => None,
        Some(k) => match skip_frac(s, k) {
            None => None,
            Some(m) => skip_exp(s, m),
        },
    }
}

// ---------------------------------------------------------------------------
// Decoding: skipping a whole value.
// ---------------------------------------------------------------------------

/// The end of any JSON value starting at `i`: a string, an object, an
/// array, a number, or one of the literals `true`, `false` and `null`.
pub open spec fn spec_skip_value(s: Seq<char>, i: int) -> Option<int>
    decreases s.len() - i, 0int,
{
    if 0 <= i < s.len() {
        let c = s[i];
        if c == '"' {
            match spec_parse_string(s, i) {
                None => None,
                Some((_content, j)) => Some(j),
            }
        } else if c == '{' {
            let j = spec_skip_ws(s, i + 1);
            if j < s.len() && s[j] == '}' {
                Some(j + 1)
            } else if i < j <= s.len() {
                spec_skip_members(s, j)
            } else {
                None
            }
        } else if c == '[' {
            let j = spec_skip_ws(s, i + 1);
            if j < s.len() && s[j] == ']' {
                Some(j + 1)
            } else if i < j <= s.len() {
                spec_skip_elements(s, j)
            } else {
                None
            }
        } else if c == 't' {
            spec_match_lit(s, i, "true"@)
        } else if c == 'f' {
            spec_match_lit(s, i, "false"@)
        } else if c == 'n' {
            spec_match_lit(s, i, "null"@)
        } else if c == '-' || is_digit(c) {
            spec_skip_number(s, i)
        } else {
            None
        }
    } else {
        None
    }
}

/// The end of an object's member list, scanning from the first member's key.
pub open spec fn spec_skip_members(s: Seq<char>, i: int) -> Option<int>
    decreases s.len() - i, 1int,
{
    match spec_parse_string(s, i) {
        None => None,
        Some((_key, k)) => {
            let m = spec_skip_ws(s, k);
            if m < s.len() && s[m] == ':' {
                let n = spec_skip_ws(s, m + 1);
                if i < n <= s.len() {
                    match spec_skip_value(s, n) {
                        None => None,
                        Some(p) => {
                            let q = spec_skip_ws(s, p);
                            if q < s.len() && s[q] == ',' {
                                let r2 = spec_skip_ws(s, q + 1);
                                if i < r2 <= s.len() {
                                    spec_skip_members(s, r2)
                                } else {
                                    None
                                }
                            } else if q < s.len() && s[q] == '}' {
                                Some(q + 1)
                            } else {
                                None
                            }
                        },
                    }
                } else {
                    None
                }
            } else {
                None
            }
        },
    }
}

/// The end of an array's element list, scanning from the first element.
pub open spec fn spec_skip_elements(s: Seq<char>, i: int) -> Option<int>
    decreases s.len() - i, 1int,
{
    if 0 <= i <= s.len() {
        match spec_skip_value(s, i) {
            None => None,
            Some(p) => if i < p <= s.len() {
                let q = spec_skip_ws(s, p);
                if q < s.len() && s[q] == ',' {
                    let r2 = spec_skip_ws(s, q + 1);
                    if i < r2 <= s.len() {
                        spec_skip_elements(s, r2)
                    } else {
                        None
                    }
                } else if q < s.len() && s[q] == ']' {
                    Some(q + 1)
                } else {
                    None
                }
            } else {
                None
            },
        }
    } else {
        None
    }
}

pub(crate) fn skip_value(s: &Vec<char>, i: usize) -> (r: Option<usize>)
    requires
        i <= s@.len(),
    ensures
        match r {
            Some(j) => spec_skip_value(s@, i as int) == Some(j as int) && i < j <= s@.len(),
            None => spec_skip_value(s@, i as int) is None,
        },
    decreases s@.len() - i, 0int,
{
    if i >= s.len() {
        return None;
    }
    let c = s[i];
    if c == '"' {
        match parse_string(s, i) {
            None => None,
            Some((_content, j)) => Some(j),
        }
    } else if c == '{' {
        let j = skip_ws(s, i + 1);
        if j < s.len() && s[j] == '}' {
            Some(j + 1)
        } else {
            skip_members(s, j)
        }
    } else if c == '[' {
        let j = skip_ws(s, i + 1);
        if j < s.len() && s[j] == ']' {
            Some(j + 1)
        } else {
            skip_elements(s, j)
        }
    } else if c == 't' {
        proof {
            reveal_strlit("true");
        }
        match_lit(s, i, "true")
    } else if c == 'f' {
        proof {
            reveal_strlit("false");
        }
        match_lit(s, i, "false")
    } else if c == 'n' {
        proof {
            reveal_strlit("null");
        }
        match_lit(s, i, "null")
    } else {
        let v = c as u32;
        if c == '-' || (48 <= v && v <= 57) {
            skip_number(s, i)
        } else {
            None
        }
    }
}

fn skip_members(s: &Vec<char>, i: usize) -> (r: Option<usize>)
    requires
        i <= s@.len(),
    ensures
        match r {
            Some(j) => spec_skip_members(s@, i as int) == Some(j as int) && i <= j <= s@.len(),
            None => spec_skip_members(s@, i as int) is None,
        },
    decreases s@.len() - i, 1int,
{
    match parse_string(s, i) {
        None => None,
        Some((_key, k)) => {
            let m = skip_ws(s, k);
            if m < s.len() && s[m] == ':' {
                let n = skip_ws(s, m + 1);
                match skip_value(s, n) {
                    None => None,
                    Some(p) => {
                        let q = skip_ws(s, p);
                        if q < s.len() && s[q] == ',' {
                            let r2 = skip_ws(s, q + 1);
                            skip_members(s, r2)
                        } else if q < s.len() && s[q] == '}' {
                            Some(q + 1)
                        } else {
                            None
                        }
                    },
                }
            } else {
                None
            }
        },
    }
}

fn skip_elements(s: &Vec<char>, i: usize) -> (r: Option<usize>)
    requires
        i <= s@.len(),
    ensures
        match r {
            Some(j) => spec_skip_elements(s@, i as int) == Some(j as int) && i <= j <= s@.len(),
            None => spec_skip_elements(s@, i as int) is None,
        },
    decreases s@.len() - i, 1int,
{
    match skip_value(s, i) {
        None => None,
        Some(p) => {
            let q = skip_ws(s, p);
            if q < s.len() && s[q] == ',' {
                let r2 = skip_ws(s, q + 1);
                skip_elements(s, r2)
            } else if q < s.len() && s[q] == ']' {
                Some(q + 1)
            } else {
                None
            }
        },
    }
}

} // verus!
