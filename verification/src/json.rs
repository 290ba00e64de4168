//! Compact JSON text of strings, numbers and lists, written exactly as
//! `serde_json` writes them.
use vstd::prelude::*;
use vstd::string::StringExecFns;

use crate::num::{decimal, push_decimal};
use crate::text::str_chars;

verus! {

/// A lower-case hexadecimal digit.
pub open spec fn hex_lower_digit(n: u32) -> char {
    if n < 10 {
        (48 + n) as char
    } else {
        (87 + n) as char
    }
}

/// How one character appears inside a JSON string: quote, backslash and
/// control characters are escaped (`\b \t \n \f \r` by name, the others as
/// `\u00XX`); every other character stands for itself.
pub open spec fn json_escape_char(c: char) -> Seq<char> {
    let u = c as u32;
    if c == '"' {
        seq!['\\', '"']
    } else if c == '\\' {
        seq!['\\', '\\']
    } else if u == 8 {
        seq!['\\', 'b']
    } else if u == 9 {
        seq!['\\', 't']
    } else if u == 10 {
        seq!['\\', 'n']
    } else if u == 12 {
        seq!['\\', 'f']
    } else if u == 13 {
        seq!['\\', 'r']
    } else if u < 32 {
        seq!['\\', 'u', '0', '0', hex_lower_digit(u / 16), hex_lower_digit(u % 16)]
    } else {
        seq![c]
    }
}

/// The escaped characters of a string.
pub open spec fn json_escape(s: Seq<char>) -> Seq<char>
    decreases s.len(),
{
    if s.len() == 0 {
        Seq::empty()
    } else {
        json_escape(s.drop_last()) + json_escape_char(s.last())
    }
}

/// A JSON string literal.
pub open spec fn json_string(s: Seq<char>) -> Seq<char> {
    seq!['"'] + json_escape(s) + seq!['"']
}

/// A JSON integer.
pub open spec fn json_int(i: int) -> Seq<char> {
    if i < 0 {
        seq!['-'] + decimal((-i) as nat)
    } else {
        decimal(i as nat)
    }
}

/// The elements of a JSON array of strings, separated by commas.
pub open spec fn json_string_items(v: Seq<Seq<char>>) -> Seq<char>
    decreases v.len(),
{
    if v.len() == 0 {
        Seq::empty()
    } else if v.len() == 1 {
        json_string(v[0])
    } else {
        json_string_items(v.drop_last()) + seq![','] + json_string(v.last())
    }
}

/// A JSON array of strings.
pub open spec fn json_string_array(v: Seq<Seq<char>>) -> Seq<char> {
    seq!['['] + json_string_items(v) + seq![']']
}

fn hex_lower_digit_exec(n: u32) -> (c: char)
    requires
        n < 16,
    ensures
        c == hex_lower_digit(n),
{
    if n < 10 {
        ((48u32 + n) as u8) as char
    } else {
        ((87u32 + n) as u8) as char
    }
}

/// Append a JSON string literal.
pub fn push_json_string(out: &mut String, s: &str)
    ensures
        final(out)@ == old(out)@ + json_string(s@),
{
    let chars = str_chars(s);
    let ghost start = out@;
    out.push('"');
    let mut i: usize = 0;
    while i < chars.len()
        invariant
            i <= chars@.len(),
            chars@ == s@,
            out@ == start + seq!['"'] + json_escape(chars@.take(i as int)),
        decreases chars@.len() - i,
    {
        let c = chars[i];
        let u = c as u32;
        proof {
            assert(chars@.take(i + 1).drop_last() =~= chars@.take(i as int));
        }
        if c == '"' {
            out.push('\\');
            out.push('"');
        } else if c == '\\' {
            out.push('\\');
            out.push('\\');
        } else if u == 8 {
            out.push('\\');
            out.push('b');
        } else if u == 9 {
            out.push('\\');
            out.push('t');
        } else if u == 10 {
            out.push('\\');
            out.push('n');
        } else if u == 12 {
            out.push('\\');
            out.push('f');
        } else if u == 13 {
            out.push('\\');
            out.push('r');
        } else if u < 32 {
            out.push('\\');
            out.push('u');
            out.push('0');
            out.push('0');
            out.push(hex_lower_digit_exec(u / 16));
            out.push(hex_lower_digit_exec(u % 16));
        } else {
            out.push(c);
        }
        i = i + 1;
        assert(out@ =~= start + seq!['"'] + json_escape(chars@.take(i as int)));
    }
    out.push('"');
    assert(chars@.take(chars@.len() as int) =~= chars@);
    assert(out@ =~= start + json_string(s@));
}

/// Append a JSON unsigned integer.
pub fn push_json_u64(out: &mut String, v: u64)
    ensures
        final(out)@ == old(out)@ + json_int(v as int),
{
    push_decimal(out, v);
}

/// Append a JSON signed integer.
pub fn push_json_i64(out: &mut String, v: i64)
    ensures
        final(out)@ == old(out)@ + json_int(v as int),
{
    if v < 0 {
        let ghost start = out@;
        out.push('-');
        let m: u64 = (-(v as i128)) as u64;
        push_decimal(out, m);
        assert(out@ =~= start + json_int(v as int));
    } else {
        push_decimal(out, v as u64);
    }
}

/// Append a JSON array of strings.
pub fn push_json_string_array(out: &mut String, v: &Vec<String>)
    ensures
        final(out)@ == old(out)@ + json_string_array(v@.map_values(|s: String| s@)),
{
    let ghost start = out@;
    let ghost sv = v@.map_values(|s: String| s@);
    out.push('[');
    let mut i: usize = 0;
    while i < v.len()
        invariant
            i <= v@.len(),
            sv == v@.map_values(|s: String| s@),
            out@ == start + seq!['['] + json_string_items(sv.take(i as int)),
        decreases v@.len() - i,
    {
        proof {
            assert(sv.take(i + 1).drop_last() =~= sv.take(i as int));
        }
        if i > 0 {
            out.push(',');
        }
        push_json_string(out, v[i].as_str());
        i = i + 1;
        assert(out@ =~= start + seq!['['] + json_string_items(sv.take(i as int)));
    }
    out.push(']');
    assert(sv.take(v@.len() as int) =~= sv);
    assert(out@ =~= start + json_string_array(sv));
}

} // verus!
