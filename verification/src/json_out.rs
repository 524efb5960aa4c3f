//! Writing JSON text: string literals escaped the way `serde_json` escapes
//! them, for the request payloads that the adapters send.

use vstd::prelude::*;
use crate::text::{nat_text, push_char, push_nat};

verus! {

pub open spec fn hex_digit(d: nat) -> char {
    if d < 10 {
        ((d + 48) as u8) as char
    } else {
        ((d + 87) as u8) as char
    }
}

/// How one char appears inside a JSON string literal.
pub open spec fn escaped_char(c: char) -> Seq<char> {
    let u = c as u32;
    if c == '"' {
        seq!['\\', '"']
    } else if c == '\\' {
        seq!['\\', '\\']
    } else if u == 0x08 {
        seq!['\\', 'b']
    } else if u == 0x09 {
        seq!['\\', 't']
    } else if u == 0x0a {
        seq!['\\', 'n']
    } else if u == 0x0c {
        seq!['\\', 'f']
    } else if u == 0x0d {
        seq!['\\', 'r']
    } else if u < 0x20 {
        seq!['\\', 'u', '0', '0', hex_digit((u / 16) as nat), hex_digit((u % 16) as nat)]
    } else {
        seq![c]
    }
}

pub open spec fn escaped(s: Seq<char>) -> Seq<char>
    decreases s.len(),
{
    if s.len() == 0 {
        Seq::empty()
    } else {
        escaped(s.drop_last()) + escaped_char(s.last())
    }
}

/// `s` as a JSON string literal, quotes included.
pub open spec fn quoted(s: Seq<char>) -> Seq<char> {
    seq!['"'] + escaped(s) + seq!['"']
}

/// The lower-case hex digit of a nibble.
pub fn hex_of(d: u32) -> (r: char)
    requires
        d < 16,
    ensures
        r == hex_digit(d as nat),
{
    if d < 10 {
        let b: u8 = (d + 48) as u8;
        b as char
    } else {
        let b: u8 = (d + 87) as u8;
        b as char
    }
}

fn push_escaped_char(out: &mut String, c: char)
    ensures
        final(out)@ == old(out)@ + escaped_char(c),
{
    let u = c as u32;
    if c == '"' {
        push_char(out, '\\');
        push_char(out, '"');
    } else if c == '\\' {
        push_char(out, '\\');
        push_char(out, '\\');
    } else if u == 0x08 {
        push_char(out, '\\');
        push_char(out, 'b');
    } else if u == 0x09 {
        push_char(out, '\\');
        push_char(out, 't');
    } else if u == 0x0a {
        push_char(out, '\\');
        push_char(out, 'n');
    } else if u == 0x0c {
        push_char(out, '\\');
        push_char(out, 'f');
    } else if u == 0x0d {
        push_char(out, '\\');
        push_char(out, 'r');
    } else if u < 0x20 {
        push_char(out, '\\');
        push_char(out, 'u');
        push_char(out, '0');
        push_char(out, '0');
        push_char(out, hex_of(u / 16));
        push_char(out, hex_of(u % 16));
    } else {
        push_char(out, c);
    }
    assert(final(out)@ =~= old(out)@ + escaped_char(c));
}

/// Appends `s` as a JSON string literal.
pub fn push_quoted(out: &mut String, s: &str)
    ensures
        final(out)@ == old(out)@ + quoted(s@),
{
    push_char(out, '"');
    let ghost start = out@;
    let n = s.unicode_len();
    let mut i: usize = 0;
    while i < n
        invariant
            n == s@.len(),
            i <= n,
            out@ == start + escaped(s@.subrange(0, i as int)),
        decreases n - i,
    {
        let c = s.get_char(i);
        push_escaped_char(out, c);
        proof {
            let next = s@.subrange(0, i + 1);
            assert(next.drop_last() =~= s@.subrange(0, i as int));
            assert(next.last() == c);
            assert(out@ =~= start + escaped(next));
        }
        i = i + 1;
    }
    assert(s@.subrange(0, n as int) =~= s@);
    push_char(out, '"');
    assert(final(out)@ =~= old(out)@ + quoted(s@));
}

/// Appends `"key":` followed by `value` as a JSON string literal.
pub fn push_text_member(out: &mut String, key: &str, value: &str)
    ensures
        final(out)@ == old(out)@ + quoted(key@) + seq![':'] + quoted(value@),
{
    push_quoted(out, key);
    push_char(out, ':');
    push_quoted(out, value);
    assert(final(out)@ =~= old(out)@ + quoted(key@) + seq![':'] + quoted(value@));
}

/// Appends `"key":` followed by the decimal digits of `value`.
pub fn push_number_member(out: &mut String, key: &str, value: u64)
    ensures
        final(out)@ == old(out)@ + quoted(key@) + seq![':'] + nat_text(value as nat),
{
    push_quoted(out, key);
    push_char(out, ':');
    push_nat(out, value);
    assert(final(out)@ =~= old(out)@ + quoted(key@) + seq![':'] + nat_text(value as nat));
}

/// The JSON array of string literals of `items`, without spaces.
pub open spec fn text_array(items: Seq<Seq<char>>) -> Seq<char> {
    seq!['['] + joined_texts(items) + seq![']']
}

pub open spec fn joined_texts(items: Seq<Seq<char>>) -> Seq<char>
    decreases items.len(),
{
    if items.len() == 0 {
        Seq::empty()
    } else if items.len() == 1 {
        quoted(items[0])
    } else {
        joined_texts(items.drop_last()) + seq![','] + quoted(items.last())
    }
}

/// Appends the JSON array of `items` as string literals.
pub fn push_text_array(out: &mut String, items: &Vec<String>)
    ensures
        final(out)@ == old(out)@ + text_array(items@.map_values(|s: String| s@)),
{
    let ghost views = items@.map_values(|s: String| s@);
    push_char(out, '[');
    let ghost start = out@;
    let n = items.len();
    let mut i: usize = 0;
    while i < n
        invariant
            n == items@.len(),
            views == items@.map_values(|s: String| s@),
            i <= n,
            out@ == start + joined_texts(views.subrange(0, i as int)),
        decreases n - i,
    {
        if i > 0 {
            push_char(out, ',');
        }
        push_quoted(out, items[i].as_str());
        proof {
            let next = views.subrange(0, i + 1);
            assert(next.drop_last() =~= views.subrange(0, i as int));
            assert(next.last() == items@[i as int]@);
            if i == 0 {
                assert(next.len() == 1);
                assert(next[0] == items@[0]@);
            }
            assert(out@ =~= start + joined_texts(next));
        }
        i = i + 1;
    }
    assert(views.subrange(0, n as int) =~= views);
    push_char(out, ']');
    assert(final(out)@ =~= old(out)@ + text_array(views));
}

} // verus!
