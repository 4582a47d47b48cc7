//! Shared rendering helpers: hash abbreviation, ANSI colouring with an
//! explicit on/off switch, JSON string escaping and YAML scalar quoting.

use vstd::prelude::*;

use crate::strutil::str_eq;

verus! {

/// The first eight characters of a commit identifier, or all of it when
/// it is shorter.
pub open spec fn short_hash(s: Seq<char>) -> Seq<char> {
    if s.len() >= 8 {
        s.take(8)
    } else {
        s
    }
}

/// Abbreviates a commit identifier to eight characters.
pub fn short_hash_of(s: &str) -> (r: String)
    ensures
        r@ == short_hash(s@),
{
    let n = s.unicode_len();
    if n >= 8 {
        s.substring_char(0, 8).to_owned()
    } else {
        s.to_owned()
    }
}

/// The text wrapped in an ANSI escape for the given colour code when
/// colours are on, the bare text otherwise.
pub open spec fn painted(code: Seq<char>, s: Seq<char>, on: bool) -> Seq<char> {
    if on {
        seq!['\u{1b}', '['] + code + seq!['m'] + s + seq!['\u{1b}', '[', '0', 'm']
    } else {
        s
    }
}

/// Appends `s`, wrapped in an ANSI colour escape when `on` holds.
pub fn paint_into(out: &mut String, code: &str, s: &str, on: bool)
    ensures
        final(out)@ == old(out)@ + painted(code@, s@, on),
{
    if on {
        out.push('\u{1b}');
        out.push('[');
        out.append(code);
        out.push('m');
        out.append(s);
        out.push('\u{1b}');
        out.push('[');
        out.push('0');
        out.push('m');
        proof {
            assert(final(out)@ =~= old(out)@ + painted(code@, s@, on));
        }
    } else {
        out.append(s);
    }
}

/// The hexadecimal digit of a value below sixteen, lower case.
pub open spec fn hex_digit(d: int) -> char {
    if d == 0 {
        '0'
    } else if d == 1 {
        '1'
    } else if d == 2 {
        '2'
    } else if d == 3 {
        '3'
    } else if d == 4 {
        '4'
    } else if d == 5 {
        '5'
    } else if d == 6 {
        '6'
    } else if d == 7 {
        '7'
    } else if d == 8 {
        '8'
    } else if d == 9 {
        '9'
    } else if d == 10 {
        'a'
    } else if d == 11 {
        'b'
    } else if d == 12 {
        'c'
    } else if d == 13 {
        'd'
    } else if d == 14 {
        'e'
    } else {
        'f'
    }
}

/// How one character appears inside a JSON string literal: quote and
/// backslash get a backslash, the named control characters their short
/// escapes, other control characters a `\u00..` escape, everything else
/// stands as it is.
pub open spec fn json_escaped_char(c: char) -> Seq<char> {
    if c == '"' {
        seq!['\\', '"']
    } else if c == '\\' {
        seq!['\\', '\\']
    } else if c == '\n' {
        seq!['\\', 'n']
    } else if c == '\r' {
        seq!['\\', 'r']
    } else if c == '\t' {
        seq!['\\', 't']
    } else if c == '\u{8}' {
        seq!['\\', 'b']
    } else if c == '\u{c}' {
        seq!['\\', 'f']
    } else if (c as int) < 32 {
        seq!['\\', 'u', '0', '0', hex_digit(c as int / 16), hex_digit(c as int % 16)]
    } else {
        seq![c]
    }
}

/// A string's characters, each as it appears inside a JSON string
/// literal.
pub open spec fn json_escaped(s: Seq<char>) -> Seq<char>
    decreases s.len(),
{
    if s.len() == 0 {
        Seq::empty()
    } else {
        json_escaped(s.drop_last()) + json_escaped_char(s.last())
    }
}

fn hex_digit_exec(d: u32) -> (r: char)
    requires
        d < 16,
    ensures
        r == hex_digit(d as int),
{
    match d {
        0 => '0',
        1 => '1',
        2 => '2',
        3 => '3',
        4 => '4',
        5 => '5',
        6 => '6',
        7 => '7',
        8 => '8',
        9 => '9',
        10 => 'a',
        11 => 'b',
        12 => 'c',
        13 => 'd',
        14 => 'e',
        _ => 'f',
    }
}

fn push_escaped_char(out: &mut String, c: char)
    ensures
        final(out)@ == old(out)@ + json_escaped_char(c),
{
    if c == '"' {
        out.push('\\');
        out.push('"');
    } else if c == '\\' {
        out.push('\\');
        out.push('\\');
    } else if c == '\n' {
        out.push('\\');
        out.push('n');
    } else if c == '\r' {
        out.push('\\');
        out.push('r');
    } else if c == '\t' {
        out.push('\\');
        out.push('t');
    } else if c == '\u{8}' {
        out.push('\\');
        out.push('b');
    } else if c == '\u{c}' {
        out.push('\\');
        out.push('f');
    } else if (c as u32) < 32 {
        let v = c as u32;
        out.push('\\');
        out.push('u');
        out.push('0');
        out.push('0');
        out.push(hex_digit_exec(v / 16));
        out.push(hex_digit_exec(v % 16));
    } else {
        out.push(c);
    }
    proof {
        assert(final(out)@ =~= old(out)@ + json_escaped_char(c));
    }
}

/// Appends `s` with JSON string escaping applied.
pub fn escape_json_into(out: &mut String, s: &str)
    ensures
        final(out)@ == old(out)@ + json_escaped(s@),
{
    let len = s.unicode_len();
    let mut i: usize = 0;
    proof {
        assert(old(out)@ + json_escaped(s@.take(0)) =~= old(out)@);
    }
    while i < len
        invariant
            i <= len,
            len == s@.len(),
            out@ == old(out)@ + json_escaped(s@.take(i as int)),
        decreases len - i,
    {
        let c = s.get_char(i);
        push_escaped_char(out, c);
        proof {
            assert(s@.take(i + 1).drop_last() =~= s@.take(i as int));
            assert(s@.take(i + 1).last() == c);
            assert(out@ =~= old(out)@ + json_escaped(s@.take(i + 1)));
        }
        i += 1;
    }
    proof {
        assert(s@.take(len as int) =~= s@);
    }
}

/// An ASCII letter.
pub open spec fn is_ascii_letter(c: char) -> bool {
    ('a' <= c && c <= 'z') || ('A' <= c && c <= 'Z')
}

/// A character that may stand in a plain (unquoted) YAML scalar of this
/// library's output.
pub open spec fn plain_yaml_char(c: char) -> bool {
    is_ascii_letter(c) || ('0' <= c && c <= '9') || c == ' ' || c == '-' || c == '_' || c == '.'
        || c == ',' || c == '/'
}

/// A word YAML would read as something other than a string.
pub open spec fn yaml_reserved_word(s: Seq<char>) -> bool {
    ||| s == "true"@
    ||| s == "false"@
    ||| s == "null"@
    ||| s == "True"@
    ||| s == "False"@
    ||| s == "Null"@
    ||| s == "yes"@
    ||| s == "no"@
    ||| s == "Yes"@
    ||| s == "No"@
    ||| s == "on"@
    ||| s == "off"@
    ||| s == "On"@
    ||| s == "Off"@
}

/// The scalar may be emitted plain: it starts with an ASCII letter, holds
/// only plain characters, does not end in a space, and is no reserved
/// word.
pub open spec fn yaml_plain_ok(s: Seq<char>) -> bool {
    s.len() > 0 && is_ascii_letter(s[0]) && (forall|i: int| 0 <= i < s.len() ==> plain_yaml_char(
        s[i],
    )) && s.last() != ' ' && !yaml_reserved_word(s)
}

/// How a string appears as a YAML scalar: plain where that is safe, else
/// double-quoted with JSON-style escaping.
pub open spec fn yaml_scalar(s: Seq<char>) -> Seq<char> {
    if yaml_plain_ok(s) {
        s
    } else {
        seq!['"'] + json_escaped(s) + seq!['"']
    }
}

fn plain_yaml_char_exec(c: char) -> (r: bool)
    ensures
        r == plain_yaml_char(c),
{
    ('a' <= c && c <= 'z') || ('A' <= c && c <= 'Z') || ('0' <= c && c <= '9') || c == ' ' || c
        == '-' || c == '_' || c == '.' || c == ',' || c == '/'
}

fn yaml_plain_ok_exec(s: &str) -> (r: bool)
    ensures
        r == yaml_plain_ok(s@),
{
    let len = s.unicode_len();
    if len == 0 {
        return false;
    }
    let first = s.get_char(0);
    if !(('a' <= first && first <= 'z') || ('A' <= first && first <= 'Z')) {
        return false;
    }
    if s.get_char(len - 1) == ' ' {
        return false;
    }
    if str_eq(s, "true") || str_eq(s, "false") || str_eq(s, "null") || str_eq(s, "True") || str_eq(
        s,
        "False",
    ) || str_eq(s, "Null") || str_eq(s, "yes") || str_eq(s, "no") || str_eq(s, "Yes") || str_eq(
        s,
        "No",
    ) || str_eq(s, "on") || str_eq(s, "off") || str_eq(s, "On") || str_eq(s, "Off") {
        return false;
    }
    let mut i: usize = 0;
    while i < len
        invariant
            i <= len,
            len == s@.len(),
            forall|j: int| 0 <= j < i ==> plain_yaml_char(s@[j]),
        decreases len - i,
    {
        if !plain_yaml_char_exec(s.get_char(i)) {
            return false;
        }
        i += 1;
    }
    true
}

/// Appends `s` as a YAML scalar: plain where that is safe, else quoted.
pub fn yaml_scalar_into(out: &mut String, s: &str)
    ensures
        final(out)@ == old(out)@ + yaml_scalar(s@),
{
    if yaml_plain_ok_exec(s) {
        out.append(s);
    } else {
        out.push('"');
        escape_json_into(out, s);
        out.push('"');
        proof {
            assert(final(out)@ =~= old(out)@ + yaml_scalar(s@));
        }
    }
}

} // verus!
