//! Literals in generated code: how a string or a byte string is written
//! as a literal, and what a literal that was written denotes.
//!
//! Wire names stand in generated code as string literals, and as byte
//! string literals where a name arrives as bytes. Characters that are
//! plain stand for themselves; any other is written by its code, as
//! `\u{..}` in a string and as `\x..` in a byte string.

use vstd::prelude::*;
use vstd::string::*;
use crate::text::{digit, digit_char};

verus! {

/// The character of a hexadecimal digit, in lower case.
pub open spec fn hex_digit(d: nat) -> char {
    if d < 10 {
        digit(d)
    } else if d == 10 {
        'a'
    } else if d == 11 {
        'b'
    } else if d == 12 {
        'c'
    } else if d == 13 {
        'd'
    } else if d == 14 {
        'e'
    } else {
        'f'
    }
}

/// A number in hexadecimal, without prefix or leading zeros.
pub open spec fn hex_text(n: nat) -> Seq<char>
    decreases n,
{
    if n < 16 {
        seq![hex_digit(n)]
    } else {
        hex_text(n / 16).push(hex_digit(n % 16))
    }
}

fn hex_digit_char(d: u32) -> (c: char)
    requires
        d < 16,
    ensures
        c == hex_digit(d as nat),
{
    if d < 10 {
        digit_char(d as u64)
    } else if d == 10 {
        'a'
    } else if d == 11 {
        'b'
    } else if d == 12 {
        'c'
    } else if d == 13 {
        'd'
    } else if d == 14 {
        'e'
    } else {
        'f'
    }
}

/// Writes `n` in hexadecimal.
pub fn hex(n: u32) -> (r: String)
    ensures
        r@ == hex_text(n as nat),
    decreases n,
{
    if n < 16 {
        let mut r = String::new();
        r.push(hex_digit_char(n));
        assert(r@ =~= seq![hex_digit(n as nat)]);
        r
    } else {
        let mut r = hex(n / 16);
        r.push(hex_digit_char(n % 16));
        r
    }
}

/// Whether a character stands for itself inside a literal: the printable
/// ASCII characters but the quote and the backslash.
pub open spec fn is_plain(c: char) -> bool {
    ' ' <= c <= '~' && c != '"' && c != '\\'
}

/// One character as it is written inside a string literal: itself where
/// it is plain, else as `\u{..}` with its code in hexadecimal.
pub open spec fn escaped_char(c: char) -> Seq<char> {
    if is_plain(c) {
        seq![c]
    } else {
        "\\u{"@ + hex_text(c as nat) + "}"@
    }
}

/// The first `n` characters of `s` as they are written inside a string
/// literal.
pub open spec fn escaped_chars(s: Seq<char>, n: nat) -> Seq<char>
    decreases n,
{
    if n == 0 || n > s.len() {
        Seq::empty()
    } else {
        escaped_chars(s, (n - 1) as nat) + escaped_char(s[n - 1])
    }
}

/// The string literal that denotes `s`.
pub open spec fn string_literal(s: Seq<char>) -> Seq<char> {
    "\""@ + escaped_chars(s, s.len()) + "\""@
}

/// One byte as it is written inside a byte string literal: its character
/// where that is plain, else as `\x` and two hexadecimal digits.
pub open spec fn escaped_byte(b: u8) -> Seq<char> {
    if is_plain(b as char) {
        seq![b as char]
    } else {
        "\\x"@ + seq![hex_digit((b / 16) as nat), hex_digit((b % 16) as nat)]
    }
}

/// The first `n` bytes of `s` as they are written inside a byte string
/// literal.
pub open spec fn escaped_bytes(s: Seq<u8>, n: nat) -> Seq<char>
    decreases n,
{
    if n == 0 || n > s.len() {
        Seq::empty()
    } else {
        escaped_bytes(s, (n - 1) as nat) + escaped_byte(s[n - 1])
    }
}

/// The byte string literal that denotes `s`.
pub open spec fn byte_string_literal(s: Seq<u8>) -> Seq<char> {
    "b\""@ + escaped_bytes(s, s.len()) + "\""@
}

fn plain(c: char) -> (r: bool)
    ensures
        r == is_plain(c),
{
    ' ' <= c && c <= '~' && c != '"' && c != '\\'
}

/// Writes the string literal that denotes `s`.
pub fn write_string_literal(s: &str) -> (r: String)
    ensures
        r@ == string_literal(s@),
{
    let n = s.unicode_len();
    let mut body = String::new();
    let mut i: usize = 0;
    while i < n
        invariant
            i <= n,
            n == s@.len(),
            body@ == escaped_chars(s@, i as nat),
        decreases n - i,
    {
        let c = s.get_char(i);
        let ghost before = body@;
        if plain(c) {
            body.push(c);
            assert(body@ =~= before + seq![c]);
        } else {
            let mut e = String::from_str("\\u{");
            e.append(hex(c as u32).as_str());
            e.append("}");
            body.append(e.as_str());
        }
        i += 1;
    }
    let mut out = String::from_str("\"");
    out.append(body.as_str());
    out.append("\"");
    out
}

/// Writes the byte string literal that denotes `s`.
pub fn write_byte_string_literal(s: &[u8]) -> (r: String)
    ensures
        r@ == byte_string_literal(s@),
{
    let mut body = String::new();
    let mut i: usize = 0;
    while i < s.len()
        invariant
            i <= s.len(),
            body@ == escaped_bytes(s@, i as nat),
        decreases s.len() - i,
    {
        let b = s[i];
        let ghost before = body@;
        if plain(b as char) {
            body.push(b as char);
            assert(body@ =~= before + seq![b as char]);
        } else {
            let mut e = String::from_str("\\x");
            e.push(hex_digit_char((b / 16) as u32));
            e.push(hex_digit_char((b % 16) as u32));
            assert(e@ =~= escaped_byte(b));
            body.append(e.as_str());
        }
        i += 1;
    }
    let mut out = String::from_str("b\"");
    out.append(body.as_str());
    out.append("\"");
    out
}

/// The value of a hexadecimal digit.
pub open spec fn hex_digit_value(c: char) -> Option<nat> {
    if '0' <= c <= '9' {
        Some((c as nat - '0' as nat) as nat)
    } else if 'a' <= c <= 'f' {
        Some((c as nat - 'a' as nat + 10) as nat)
    } else {
        None
    }
}

/// The number that hexadecimal digits write; nothing where one of them is
/// no digit, or where there is none.
pub open spec fn hex_value(digits: Seq<char>) -> Option<nat>
    decreases digits.len(),
{
    if digits.len() == 0 {
        None
    } else {
        match hex_digit_value(digits.last()) {
            None => None,
            Some(d) => if digits.len() == 1 {
                Some(d)
            } else {
                match hex_value(digits.drop_last()) {
                    Some(v) => Some(v * 16 + d),
                    None => None,
                }
            },
        }
    }
}

/// Where the first `}` at or after `pos` stands; the end of the text
/// where there is none.
pub open spec fn closing(text: Seq<char>, pos: int) -> int
    decreases text.len() - pos,
{
    if pos < 0 || pos >= text.len() {
        text.len() as int
    } else if text[pos] == '}' {
        pos
    } else {
        closing(text, pos + 1)
    }
}

/// The character that is written at `pos` inside a string literal, and
/// where what is written after it begins: a plain character stands for
/// itself, and `\u{..}` for the character with that code.
pub open spec fn read_char(text: Seq<char>, pos: int) -> Option<(char, int)> {
    if pos < 0 || pos >= text.len() {
        None
    } else if is_plain(text[pos]) {
        Some((text[pos], pos + 1))
    } else if pos + 2 < text.len() && text[pos] == '\\' && text[pos + 1] == 'u' && text[pos + 2]
        == '{' {
        let end = closing(text, pos + 3);
        if end < text.len() {
            match hex_value(text.subrange(pos + 3, end)) {
                Some(v) => if v <= 0xD7FF || 0xE000 <= v <= 0x10FFFF {
                    Some((v as char, end + 1))
                } else {
                    None
                },
                None => None,
            }
        } else {
            None
        }
    } else {
        None
    }
}

/// The string that is written from `pos` on inside a string literal.
pub open spec fn read_chars(text: Seq<char>, pos: int) -> Option<Seq<char>>
    decreases text.len() - pos,
{
    if pos < 0 || pos >= text.len() {
        Some(Seq::empty())
    } else {
        match read_char(text, pos) {
            None => None,
            Some((c, next)) => if next <= pos {
                None
            } else {
                match read_chars(text, next) {
                    Some(rest) => Some(seq![c] + rest),
                    None => None,
                }
            },
        }
    }
}

/// The string that a string literal denotes: what is written between its
/// quotes.
pub open spec fn denoted(literal: Seq<char>) -> Option<Seq<char>> {
    if literal.len() >= 2 && literal[0] == '"' && literal.last() == '"' {
        read_chars(literal.subrange(1, literal.len() - 1), 0)
    } else {
        None
    }
}

proof fn lemma_hex_digits(n: nat)
    ensures
        hex_text(n).len() >= 1,
        forall|i: int|
            0 <= i < hex_text(n).len() ==> hex_digit_value(#[trigger] hex_text(n)[i]) is Some,
        hex_value(hex_text(n)) == Some(n),
    decreases n,
{
    if n >= 16 {
        lemma_hex_digits(n / 16);
        let digits = hex_text(n);
        assert(digits.drop_last() =~= hex_text(n / 16));
        assert(digits.last() == hex_digit(n % 16));
    }
}

proof fn lemma_closing_after_digits(text: Seq<char>, pos: int, end: int)
    requires
        0 <= pos <= end < text.len(),
        text[end] == '}',
        forall|i: int| pos <= i < end ==> text[i] != '}',
    ensures
        closing(text, pos) == end,
    decreases end - pos,
{
    if pos < end {
        lemma_closing_after_digits(text, pos + 1, end);
    }
}

proof fn lemma_closing_shift(a: Seq<char>, b: Seq<char>, pos: int)
    requires
        0 <= pos,
    ensures
        closing(a + b, a.len() + pos) == a.len() + closing(b, pos),
    decreases b.len() - pos,
{
    if pos < b.len() {
        assert((a + b)[a.len() + pos] == b[pos]);
        if b[pos] != '}' {
            lemma_closing_shift(a, b, pos + 1);
        }
    }
}

proof fn lemma_closing_in_range(text: Seq<char>, pos: int)
    requires
        0 <= pos,
    ensures
        pos <= closing(text, pos) <= text.len() || (pos > text.len() && closing(text, pos)
            == text.len()),
    decreases text.len() - pos,
{
    if pos < text.len() && text[pos] != '}' {
        lemma_closing_in_range(text, pos + 1);
    }
}

proof fn lemma_read_chars_shift(a: Seq<char>, b: Seq<char>, pos: int)
    requires
        0 <= pos,
    ensures
        read_chars(a + b, a.len() + pos) == read_chars(b, pos),
    decreases b.len() - pos,
{
    if pos < b.len() {
        let t = a + b;
        let at = a.len() + pos;
        assert(t[at] == b[pos]);
        if pos + 2 < b.len() {
            assert(t[at + 1] == b[pos + 1]);
            assert(t[at + 2] == b[pos + 2]);
        }
        lemma_closing_shift(a, b, pos + 3);
        lemma_closing_in_range(b, pos + 3);
        let end = closing(b, pos + 3);
        if end < b.len() {
            assert(t.subrange(at + 3, a.len() + end) =~= b.subrange(pos + 3, end));
        }
        assert(match read_char(t, at) {
            Some((c, next)) => read_char(b, pos) == Some((c, next - a.len())),
            None => read_char(b, pos) is None,
        });
        match read_char(b, pos) {
            Some((c, next)) => {
                if next > pos {
                    lemma_read_chars_shift(a, b, next);
                }
            },
            None => {},
        }
    }
}

proof fn lemma_read_escaped_char(c: char, rest: Seq<char>)
    ensures
        read_char(escaped_char(c) + rest, 0) == Some((c, escaped_char(c).len() as int)),
        escaped_char(c).len() >= 1,
{
    let unit = escaped_char(c);
    let t = unit + rest;
    if is_plain(c) {
        assert(t[0] == c);
    } else {
        reveal_strlit("\\u{");
        reveal_strlit("}");
        let digits = hex_text(c as nat);
        lemma_hex_digits(c as nat);
        assert(unit =~= seq!['\\', 'u', '{'] + digits + seq!['}']);
        assert(t[0] == '\\');
        assert(t[1] == 'u');
        assert(t[2] == '{');
        let end = 3 + digits.len();
        assert(t[end as int] == '}');
        assert forall|i: int| 3 <= i < end implies t[i] != '}' by {
            assert(t[i] == digits[i - 3]);
            assert(hex_digit_value(digits[i - 3]) is Some);
        }
        lemma_closing_after_digits(t, 3, end as int);
        assert(t.subrange(3, end as int) =~= digits);
        vstd::utf8::char_is_scalar(c);
        assert((c as nat) as char == c);
    }
}

proof fn lemma_escaped_chars_from_left(s: Seq<char>, n: nat)
    requires
        1 <= n <= s.len(),
    ensures
        escaped_chars(s, n) == escaped_char(s[0]) + escaped_chars(s.skip(1), (n - 1) as nat),
    decreases n,
{
    if n == 1 {
        reveal_with_fuel(escaped_chars, 2);
        assert(escaped_chars(s, 1) =~= escaped_char(s[0]));
        assert(escaped_char(s[0]) + Seq::<char>::empty() =~= escaped_char(s[0]));
    } else {
        lemma_escaped_chars_from_left(s, (n - 1) as nat);
        assert(s.skip(1)[n - 2] == s[n - 1]);
        let a = escaped_char(s[0]);
        let b = escaped_chars(s.skip(1), (n - 2) as nat);
        let c = escaped_char(s[n - 1]);
        assert(a + b + c =~= a + (b + c));
    }
}

proof fn lemma_read_escaped_chars(s: Seq<char>)
    ensures
        read_chars(escaped_chars(s, s.len()), 0) == Some(s),
    decreases s.len(),
{
    if s.len() == 0 {
        assert(s =~= Seq::<char>::empty());
    } else {
        let unit = escaped_char(s[0]);
        let rest = escaped_chars(s.skip(1), (s.len() - 1) as nat);
        lemma_escaped_chars_from_left(s, s.len());
        lemma_read_escaped_char(s[0], rest);
        lemma_read_chars_shift(unit, rest, 0);
        lemma_read_escaped_chars(s.skip(1));
        assert(seq![s[0]] + s.skip(1) =~= s);
    }
}

/// A string literal denotes the string it was written for.
pub proof fn lemma_string_literal_denotes(s: Seq<char>)
    ensures
        denoted(string_literal(s)) == Some(s),
{
    reveal_strlit("\"");
    let body = escaped_chars(s, s.len());
    let literal = string_literal(s);
    assert(literal =~= seq!['"'] + body + seq!['"']);
    assert(literal.subrange(1, literal.len() - 1) =~= body);
    lemma_read_escaped_chars(s);
}

/// The byte that is written at `pos` inside a byte string literal, and
/// where what is written after it begins: a plain character stands for
/// its byte, and `\x` with two hexadecimal digits for the byte they
/// write.
pub open spec fn read_byte(text: Seq<char>, pos: int) -> Option<(u8, int)> {
    if pos < 0 || pos >= text.len() {
        None
    } else if is_plain(text[pos]) {
        Some((text[pos] as u8, pos + 1))
    } else if pos + 3 < text.len() && text[pos] == '\\' && text[pos + 1] == 'x' {
        match (hex_digit_value(text[pos + 2]), hex_digit_value(text[pos + 3])) {
            (Some(high), Some(low)) => Some(((high * 16 + low) as u8, pos + 4)),
            _ => None,
        }
    } else {
        None
    }
}

/// The bytes that are written from `pos` on inside a byte string literal.
pub open spec fn read_bytes(text: Seq<char>, pos: int) -> Option<Seq<u8>>
    decreases text.len() - pos,
{
    if pos < 0 || pos >= text.len() {
        Some(Seq::empty())
    } else {
        match read_byte(text, pos) {
            None => None,
            Some((b, next)) => if next <= pos {
                None
            } else {
                match read_bytes(text, next) {
                    Some(rest) => Some(seq![b] + rest),
                    None => None,
                }
            },
        }
    }
}

/// The bytes that a byte string literal denotes: what is written between
/// its quotes.
pub open spec fn denoted_bytes(literal: Seq<char>) -> Option<Seq<u8>> {
    if literal.len() >= 3 && literal[0] == 'b' && literal[1] == '"' && literal.last() == '"' {
        read_bytes(literal.subrange(2, literal.len() - 1), 0)
    } else {
        None
    }
}

proof fn lemma_read_bytes_shift(a: Seq<char>, b: Seq<char>, pos: int)
    requires
        0 <= pos,
    ensures
        read_bytes(a + b, a.len() + pos) == read_bytes(b, pos),
    decreases b.len() - pos,
{
    if pos < b.len() {
        let t = a + b;
        let at = a.len() + pos;
        assert(t[at] == b[pos]);
        if pos + 3 < b.len() {
            assert(t[at + 1] == b[pos + 1]);
            assert(t[at + 2] == b[pos + 2]);
            assert(t[at + 3] == b[pos + 3]);
        }
        assert(match read_byte(t, at) {
            Some((c, next)) => read_byte(b, pos) == Some((c, next - a.len())),
            None => read_byte(b, pos) is None,
        });
        match read_byte(b, pos) {
            Some((c, next)) => {
                lemma_read_bytes_shift(a, b, next);
            },
            None => {},
        }
    }
}

proof fn lemma_read_escaped_byte(b: u8, rest: Seq<char>)
    ensures
        read_byte(escaped_byte(b) + rest, 0) == Some((b, escaped_byte(b).len() as int)),
        escaped_byte(b).len() >= 1,
{
    let unit = escaped_byte(b);
    let t = unit + rest;
    if is_plain(b as char) {
        assert(t[0] == b as char);
        assert((b as char) as u8 == b);
    } else {
        reveal_strlit("\\x");
        assert(unit =~= seq!['\\', 'x', hex_digit((b / 16) as nat), hex_digit((b % 16) as nat)]);
        assert(t[0] == '\\');
        assert(t[1] == 'x');
        assert(t[2] == hex_digit((b / 16) as nat));
        assert(t[3] == hex_digit((b % 16) as nat));
        lemma_hex_digit_value((b / 16) as nat);
        lemma_hex_digit_value((b % 16) as nat);
    }
}

proof fn lemma_hex_digit_value(d: nat)
    requires
        d < 16,
    ensures
        hex_digit_value(hex_digit(d)) == Some(d),
{
}

proof fn lemma_escaped_bytes_from_left(s: Seq<u8>, n: nat)
    requires
        1 <= n <= s.len(),
    ensures
        escaped_bytes(s, n) == escaped_byte(s[0]) + escaped_bytes(s.skip(1), (n - 1) as nat),
    decreases n,
{
    if n == 1 {
        reveal_with_fuel(escaped_bytes, 2);
        assert(escaped_bytes(s, 1) =~= escaped_byte(s[0]));
        assert(escaped_byte(s[0]) + Seq::<char>::empty() =~= escaped_byte(s[0]));
    } else {
        lemma_escaped_bytes_from_left(s, (n - 1) as nat);
        assert(s.skip(1)[n - 2] == s[n - 1]);
        let a = escaped_byte(s[0]);
        let b = escaped_bytes(s.skip(1), (n - 2) as nat);
        let c = escaped_byte(s[n - 1]);
        assert(a + b + c =~= a + (b + c));
    }
}

proof fn lemma_read_escaped_bytes(s: Seq<u8>)
    ensures
        read_bytes(escaped_bytes(s, s.len()), 0) == Some(s),
    decreases s.len(),
{
    if s.len() == 0 {
        assert(s =~= Seq::<u8>::empty());
    } else {
        let unit = escaped_byte(s[0]);
        let rest = escaped_bytes(s.skip(1), (s.len() - 1) as nat);
        lemma_escaped_bytes_from_left(s, s.len());
        lemma_read_escaped_byte(s[0], rest);
        lemma_read_bytes_shift(unit, rest, 0);
        lemma_read_escaped_bytes(s.skip(1));
        assert(seq![s[0]] + s.skip(1) =~= s);
    }
}

/// A byte string literal denotes the bytes it was written for.
pub proof fn lemma_byte_string_literal_denotes(s: Seq<u8>)
    ensures
        denoted_bytes(byte_string_literal(s)) == Some(s),
{
    reveal_strlit("b\"");
    reveal_strlit("\"");
    let body = escaped_bytes(s, s.len());
    let literal = byte_string_literal(s);
    assert(literal =~= seq!['b', '"'] + body + seq!['"']);
    assert(literal.subrange(2, literal.len() - 1) =~= body);
    lemma_read_escaped_bytes(s);
}

} // verus!
