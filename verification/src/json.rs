//! Compact JSON serialisation of strings: the escaping rules of RFC 8259 as
//! a compact writer applies them, with double quote, backslash and the five
//! short control escapes written with a backslash and every other control
//! character as `\u00` and two lower-case hex digits.

use vstd::prelude::*;
use vstd::string::*;
use crate::chars::s_get;

verus! {

/// Control characters, the range a JSON string may not hold raw.
pub open spec fn is_control(c: char) -> bool {
    (c as int) < 32
}

/// Lower-case hexadecimal digit for `n`.
pub open spec fn hex_digit(n: int) -> char {
    if n == 0 {
        '0'
    } else if n == 1 {
        '1'
    } else if n == 2 {
        '2'
    } else if n == 3 {
        '3'
    } else if n == 4 {
        '4'
    } else if n == 5 {
        '5'
    } else if n == 6 {
        '6'
    } else if n == 7 {
        '7'
    } else if n == 8 {
        '8'
    } else if n == 9 {
        '9'
    } else if n == 10 {
        'a'
    } else if n == 11 {
        'b'
    } else if n == 12 {
        'c'
    } else if n == 13 {
        'd'
    } else if n == 14 {
        'e'
    } else {
        'f'
    }
}

/// How one character appears inside a compact JSON string literal.
pub open spec fn escape_char(c: char) -> Seq<char> {
    if c == '"' {
        seq!['\\', '"']
    } else if c == '\\' {
        seq!['\\', '\\']
    } else if c == '\u{8}' {
        seq!['\\', 'b']
    } else if c == '\t' {
        seq!['\\', 't']
    } else if c == '\n' {
        seq!['\\', 'n']
    } else if c == '\u{c}' {
        seq!['\\', 'f']
    } else if c == '\r' {
        seq!['\\', 'r']
    } else if is_control(c) {
        seq!['\\', 'u', '0', '0', hex_digit(c as int / 16), hex_digit(c as int % 16)]
    } else {
        seq![c]
    }
}

/// The body of the JSON string literal for `s`: every character escaped.
pub open spec fn escape_spec(s: Seq<char>) -> Seq<char>
    decreases s.len(),
{
    if s.len() == 0 {
        Seq::<char>::empty()
    } else {
        escape_char(s[0]) + escape_spec(s.drop_first())
    }
}

/// The complete JSON string literal for `s`, quotes included.
pub open spec fn json_string_spec(s: Seq<char>) -> Seq<char> {
    seq!['"'] + escape_spec(s) + seq!['"']
}

/// Escaping a string one character longer appends that character's escape.
pub proof fn lemma_escape_push(s: Seq<char>, c: char)
    ensures
        escape_spec(s.push(c)) == escape_spec(s) + escape_char(c),
    decreases s.len(),
{
    if s.len() == 0 {
        assert(s.push(c)[0] == c);
        assert(s.push(c).drop_first() =~= Seq::<char>::empty());
        assert(escape_spec(s.push(c)) == escape_char(c) + escape_spec(
            Seq::<char>::empty(),
        ));
        assert(escape_spec(Seq::<char>::empty()) == Seq::<char>::empty());
        assert(escape_char(c) + Seq::<char>::empty() =~= escape_char(c));
        assert(escape_spec(s) + escape_char(c) =~= escape_char(c));
    } else {
        assert(s.push(c)[0] == s[0]);
        assert(s.push(c).drop_first() =~= s.drop_first().push(c));
        lemma_escape_push(s.drop_first(), c);
        assert(escape_spec(s.push(c)) =~= escape_spec(s) + escape_char(c));
    }
}

fn hex_char(n: u32) -> (c: char)
    requires
        n < 16,
    ensures
        c == hex_digit(n as int),
{
    if n == 0 {
        '0'
    } else if n == 1 {
        '1'
    } else if n == 2 {
        '2'
    } else if n == 3 {
        '3'
    } else if n == 4 {
        '4'
    } else if n == 5 {
        '5'
    } else if n == 6 {
        '6'
    } else if n == 7 {
        '7'
    } else if n == 8 {
        '8'
    } else if n == 9 {
        '9'
    } else if n == 10 {
        'a'
    } else if n == 11 {
        'b'
    } else if n == 12 {
        'c'
    } else if n == 13 {
        'd'
    } else if n == 14 {
        'e'
    } else {
        'f'
    }
}

/// Appends the escape of one character to `out`.
fn push_escaped(out: &mut Vec<char>, c: char)
    ensures
        final(out)@ == old(out)@ + escape_char(c),
{
    let u: u32 = c as u32;
    if c == '"' {
        out.push('\\');
        out.push('"');
    } else if c == '\\' {
        out.push('\\');
        out.push('\\');
    } else if c == '\u{8}' {
        out.push('\\');
        out.push('b');
    } else if c == '\t' {
        out.push('\\');
        out.push('t');
    } else if c == '\n' {
        out.push('\\');
        out.push('n');
    } else if c == '\u{c}' {
        out.push('\\');
        out.push('f');
    } else if c == '\r' {
        out.push('\\');
        out.push('r');
    } else if u < 32 {
        out.push('\\');
        out.push('u');
        out.push('0');
        out.push('0');
        out.push(hex_char(u / 16));
        out.push(hex_char(u % 16));
    } else {
        out.push(c);
    }
    assert(out@ =~= old(out)@ + escape_char(c));
}

/// Appends the characters of `s` to `out` unchanged.
pub fn append_str(out: &mut Vec<char>, s: &str)
    ensures
        final(out)@ == old(out)@ + s@,
{
    let ghost orig = out@;
    let n = s.unicode_len();
    let mut k: usize = 0;
    while k < n
        invariant
            n == s@.len(),
            k <= n,
            out@ == orig + s@.take(k as int),
        decreases n - k,
    {
        out.push(s_get(s, k));
        assert(out@ =~= orig + s@.take(k + 1 as int));
        k = k + 1;
    }
    assert(s@.take(n as int) =~= s@);
}

/// Appends the JSON string literal for `s`, quotes included, to `out`.
pub fn append_json_str(out: &mut Vec<char>, s: &str)
    ensures
        final(out)@ == old(out)@ + json_string_spec(s@),
{
    let ghost orig = out@;
    let n = s.unicode_len();
    out.push('"');
    let mut k: usize = 0;
    while k < n
        invariant
            n == s@.len(),
            k <= n,
            out@ == orig + seq!['"'] + escape_spec(s@.take(k as int)),
        decreases n - k,
    {
        push_escaped(out, s_get(s, k));
        proof {
            assert(s@.take(k + 1 as int) =~= s@.take(k as int).push(s@[k as int]));
            lemma_escape_push(s@.take(k as int), s@[k as int]);
            assert(out@ =~= orig + seq!['"'] + escape_spec(s@.take(k + 1 as int)));
        }
        k = k + 1;
    }
    out.push('"');
    assert(s@.take(n as int) =~= s@);
    assert(out@ =~= orig + json_string_spec(s@));
}

} // verus!
