//! Escaping of free text for use inside a double-quoted value.

use vstd::prelude::*;

verus! {

/// The lower-case hexadecimal digit for `d`, where `0 <= d < 16`.
pub open spec fn hex_digit(d: int) -> char {
    if d < 10 {
        ('0' as int + d) as char
    } else {
        ('a' as int + d - 10) as char
    }
}

/// The hexadecimal numeral of `n`, without leading zeros.
pub open spec fn hex_digits(n: int) -> Seq<char>
    decreases n,
{
    if n < 16 {
        seq![hex_digit(n)]
    } else {
        hex_digits(n / 16).push(hex_digit(n % 16))
    }
}

/// A character that stands for itself in escaped text: printable ASCII other
/// than the double quote and the backslash. The single quote is among them:
/// between double quotes it closes nothing.
pub open spec fn is_plain(c: char) -> bool {
    0x20 <= c as int <= 0x7e && c != '"' && c != '\\'
}

/// The escape sequence of one character: `\t`, `\r` and `\n` for tab,
/// carriage return and line feed; a backslash before a double quote or a
/// backslash; a plain character itself; and for every other character
/// `\u{..}` around the hexadecimal numeral of its code point.
pub open spec fn escaped_char(c: char) -> Seq<char> {
    if c == '\t' {
        seq!['\\', 't']
    } else if c == '\r' {
        seq!['\\', 'r']
    } else if c == '\n' {
        seq!['\\', 'n']
    } else if c == '"' || c == '\\' {
        seq!['\\', c]
    } else if is_plain(c) {
        seq![c]
    } else {
        seq!['\\', 'u', '{'] + hex_digits(c as int) + seq!['}']
    }
}

/// The escaped form of a text: the escape sequences of its characters, in order.
pub open spec fn escaped(s: Seq<char>) -> Seq<char>
    decreases s.len(),
{
    if s.len() == 0 {
        Seq::empty()
    } else {
        escaped(s.drop_last()) + escaped_char(s.last())
    }
}

/// Whether every character of `s` is printable ASCII.
pub open spec fn is_printable_ascii(s: Seq<char>) -> bool {
    forall|i: int| 0 <= i < s.len() ==> 0x20 <= #[trigger] s[i] as int <= 0x7e
}

/// Whether every character of `s` stands for itself in escaped text.
pub open spec fn is_plain_text(s: Seq<char>) -> bool {
    forall|i: int| 0 <= i < s.len() ==> is_plain(#[trigger] s[i])
}

/// Whether `s` can stand between double quotes as it is. Read from the
/// left, a backslash takes the character after it with it; what is left
/// over holds no double quote, and no backslash is the last character
/// without having been taken by one before it.
pub open spec fn is_quoted_body(s: Seq<char>) -> bool
    decreases s.len(),
{
    if s.len() == 0 {
        true
    } else if s[0] == '\\' {
        if s.len() >= 2 {
            is_quoted_body(s.skip(2))
        } else {
            false
        }
    } else if s[0] == '"' {
        false
    } else {
        is_quoted_body(s.skip(1))
    }
}

/// Two quoted bodies, one after the other, make a quoted body.
pub proof fn lemma_quoted_body_concat(first: Seq<char>, second: Seq<char>)
    requires
        is_quoted_body(first),
        is_quoted_body(second),
    ensures
        is_quoted_body(first + second),
    decreases first.len(),
{
    if first.len() == 0 {
        assert(first + second == second);
    } else if first[0] == '\\' {
        assert((first + second).skip(2) == first.skip(2) + second);
        lemma_quoted_body_concat(first.skip(2), second);
    } else {
        assert((first + second).skip(1) == first.skip(1) + second);
        lemma_quoted_body_concat(first.skip(1), second);
    }
}

/// A text without a double quote and without a backslash is a quoted body.
pub proof fn lemma_unquoted_is_quoted_body(s: Seq<char>)
    requires
        forall|i: int| 0 <= i < s.len() ==> s[i] != '"' && s[i] != '\\',
    ensures
        is_quoted_body(s),
    decreases s.len(),
{
    if s.len() > 0 {
        lemma_unquoted_is_quoted_body(s.skip(1));
    }
}

/// A hexadecimal numeral has at least one character, and each of them is a
/// digit or a letter from `a` to `f`.
pub proof fn lemma_hex_digits(n: int)
    requires
        0 <= n,
    ensures
        hex_digits(n).len() >= 1,
        forall|i: int|
            0 <= i < hex_digits(n).len() ==> {
                let c = #[trigger] hex_digits(n)[i];
                '0' <= c <= '9' || 'a' <= c <= 'f'
            },
    decreases n,
{
    if n >= 16 {
        lemma_hex_digits(n / 16);
    }
}

/// The escape sequence of any character is printable ASCII and a quoted
/// body.
pub proof fn lemma_escaped_char(c: char)
    ensures
        escaped_char(c).len() >= 1,
        is_printable_ascii(escaped_char(c)),
        is_quoted_body(escaped_char(c)),
{
    let e = escaped_char(c);
    reveal_with_fuel(is_quoted_body, 3);
    if c == '\t' || c == '\r' || c == '\n' || c == '"' || c == '\\' {
        assert(e.len() == 2);
        assert(e.skip(2).len() == 0);
    } else if is_plain(c) {
        assert(e.skip(1).len() == 0);
    } else {
        lemma_hex_digits(c as int);
        let tail = seq!['{'] + hex_digits(c as int) + seq!['}'];
        assert(e.skip(2) == tail);
        lemma_unquoted_is_quoted_body(tail);
    }
}

/// Escaped text is printable ASCII and a quoted body, whatever was escaped:
/// it holds no double quote and no backslash but in an escape sequence.
pub proof fn lemma_escaped_is_quoted_body(s: Seq<char>)
    ensures
        is_printable_ascii(escaped(s)),
        is_quoted_body(escaped(s)),
    decreases s.len(),
{
    if s.len() > 0 {
        lemma_escaped_is_quoted_body(s.drop_last());
        lemma_escaped_char(s.last());
        lemma_quoted_body_concat(escaped(s.drop_last()), escaped_char(s.last()));
    }
}

/// Escaping changes nothing in a text of plain characters.
pub proof fn lemma_escaped_plain_text(s: Seq<char>)
    requires
        is_plain_text(s),
    ensures
        escaped(s) == s,
    decreases s.len(),
{
    if s.len() > 0 {
        lemma_escaped_plain_text(s.drop_last());
        assert(is_plain(s.last()));
        assert(s.drop_last() + seq![s.last()] == s);
    }
}

/// The number that the hexadecimal digit `c` stands for.
pub open spec fn hex_value(c: char) -> int {
    if '0' <= c <= '9' {
        c as int - '0' as int
    } else {
        c as int - 'a' as int + 10
    }
}

/// The number that a hexadecimal numeral stands for.
pub open spec fn numeral_value(digits: Seq<char>) -> int
    decreases digits.len(),
{
    if digits.len() == 0 {
        0
    } else {
        16 * numeral_value(digits.drop_last()) + hex_value(digits.last())
    }
}

/// How many characters of `s` stand before its first closing brace, or the
/// length of `s` where it has none.
pub open spec fn before_close(s: Seq<char>) -> int
    decreases s.len(),
{
    if s.len() == 0 || s[0] == '}' {
        0
    } else {
        1 + before_close(s.skip(1))
    }
}

/// `c` put before a text that was read, where reading had not failed.
pub open spec fn read_after(c: char, rest: Option<Seq<char>>) -> Option<Seq<char>> {
    match rest {
        Some(text) => Some(seq![c] + text),
        None => None,
    }
}

/// Reads escaped text back: the text whose escaped form `s` is, or `None`
/// where `s` holds a double quote of its own or a backslash that begins no
/// escape sequence.
pub open spec fn unescaped(s: Seq<char>) -> Option<Seq<char>>
    decreases s.len(),
{
    if s.len() == 0 {
        Some(Seq::empty())
    } else if s[0] == '"' {
        None
    } else if s[0] != '\\' {
        read_after(s[0], unescaped(s.skip(1)))
    } else if s.len() < 2 {
        None
    } else if s[1] == 't' {
        read_after('\t', unescaped(s.skip(2)))
    } else if s[1] == 'r' {
        read_after('\r', unescaped(s.skip(2)))
    } else if s[1] == 'n' {
        read_after('\n', unescaped(s.skip(2)))
    } else if s[1] == '"' || s[1] == '\\' {
        read_after(s[1], unescaped(s.skip(2)))
    } else if s[1] == 'u' && s.len() >= 3 && s[2] == '{' {
        let close = before_close(s);
        if 3 <= close < s.len() {
            read_after(
                numeral_value(s.subrange(3, close)) as char,
                unescaped(s.skip(close + 1)),
            )
        } else {
            None
        }
    } else {
        None
    }
}

/// A hexadecimal numeral stands for the number that it was made of.
pub proof fn lemma_numeral_value(n: int)
    requires
        0 <= n,
    ensures
        numeral_value(hex_digits(n)) == n,
    decreases n,
{
    assert(hex_value(hex_digit(n % 16)) == n % 16);
    if n >= 16 {
        lemma_numeral_value(n / 16);
        assert(hex_digits(n).drop_last() == hex_digits(n / 16));
    } else {
        reveal_with_fuel(numeral_value, 2);
    }
}

/// The first closing brace of a text that has none before `rest` and one
/// right at its beginning stands where `rest` begins.
proof fn lemma_before_close(prefix: Seq<char>, rest: Seq<char>)
    requires
        forall|i: int| 0 <= i < prefix.len() ==> prefix[i] != '}',
        rest.len() > 0,
        rest[0] == '}',
    ensures
        before_close(prefix + rest) == prefix.len(),
    decreases prefix.len(),
{
    if prefix.len() == 0 {
        assert(prefix + rest == rest);
    } else {
        assert((prefix + rest).skip(1) == prefix.skip(1) + rest);
        lemma_before_close(prefix.skip(1), rest);
    }
}

/// Reading an escape sequence, with whatever follows it, gives the
/// character back.
pub proof fn lemma_unescaped_char(c: char, rest: Seq<char>)
    ensures
        unescaped(escaped_char(c) + rest) == read_after(c, unescaped(rest)),
{
    let e = escaped_char(c);
    let s = e + rest;
    if c == '\t' || c == '\r' || c == '\n' || c == '"' || c == '\\' {
        assert(e.len() == 2);
        assert(s.skip(2) == rest);
    } else if is_plain(c) {
        assert(s.skip(1) == rest);
    } else {
        let digits = hex_digits(c as int);
        lemma_hex_digits(c as int);
        lemma_numeral_value(c as int);
        let prefix = seq!['\\', 'u', '{'] + digits;
        let tail = seq!['}'] + rest;
        assert(s == prefix + tail);
        lemma_before_close(prefix, tail);
        assert(s.subrange(3, prefix.len() as int) == digits);
        assert(s.skip(prefix.len() as int + 1) == rest);
    }
}

/// The escaped form of a text begins with the escape sequence of its first
/// character.
proof fn lemma_escaped_first(c: char, rest: Seq<char>)
    ensures
        escaped(seq![c] + rest) == escaped_char(c) + escaped(rest),
    decreases rest.len(),
{
    let s = seq![c] + rest;
    if rest.len() == 0 {
        assert(s.drop_last() == Seq::<char>::empty());
        assert(escaped(s.drop_last()) == Seq::<char>::empty());
    } else {
        lemma_escaped_first(c, rest.drop_last());
        assert(s.drop_last() == seq![c] + rest.drop_last());
    }
}

/// Escaping loses nothing: reading the escaped form of a text back gives
/// the text.
pub proof fn lemma_escape_round_trip(s: Seq<char>)
    ensures
        unescaped(escaped(s)) == Some(s),
    decreases s.len(),
{
    if s.len() > 0 {
        let rest = s.skip(1);
        assert(s == seq![s[0]] + rest);
        lemma_escaped_first(s[0], rest);
        lemma_unescaped_char(s[0], escaped(rest));
        lemma_escape_round_trip(rest);
    }
}

/// Two texts with the same escaped form are the same text.
pub proof fn lemma_escape_injective(first: Seq<char>, second: Seq<char>)
    requires
        escaped(first) == escaped(second),
    ensures
        first == second,
{
    lemma_escape_round_trip(first);
    lemma_escape_round_trip(second);
}

fn hex_digit_of(d: u32) -> (c: char)
    requires
        d < 16,
    ensures
        c == hex_digit(d as int),
{
    if d < 10 {
        (0x30u8 + d as u8) as char
    } else {
        (0x61u8 + (d as u8 - 10)) as char
    }
}

/// `String::push` of the standard library: afterwards the string holds what
/// it held before, followed by the character.
pub assume_specification[ String::push ](s: &mut String, c: char)
    ensures
        final(s)@ == old(s)@.push(c),
;

fn push_hex(out: &mut String, n: u32)
    ensures
        final(out)@ == old(out)@ + hex_digits(n as int),
    decreases n,
{
    if n >= 16 {
        push_hex(out, n / 16);
    }
    out.push(hex_digit_of(n % 16));
}

fn push_escaped(out: &mut String, c: char)
    ensures
        final(out)@ == old(out)@ + escaped_char(c),
{
    if c == '\t' {
        out.push('\\');
        out.push('t');
    } else if c == '\r' {
        out.push('\\');
        out.push('r');
    } else if c == '\n' {
        out.push('\\');
        out.push('n');
    } else if c == '"' || c == '\\' {
        out.push('\\');
        out.push(c);
    } else if ' ' <= c && c <= '~' {
        out.push(c);
    } else {
        out.push('\\');
        out.push('u');
        out.push('{');
        push_hex(out, c as u32);
        out.push('}');
    }
}

/// Escapes `s` so that it can stand between double quotes: control
/// characters, the double quote, the backslash and everything outside
/// printable ASCII are replaced by their escape sequences, and the rest of
/// printable ASCII is kept. The result is printable ASCII throughout, holds
/// no double quote and no backslash but in an escape sequence, can be read
/// back to `s`, and is `s` itself where `s` holds nothing that is replaced.
pub fn escape(s: &str) -> (out: String)
    ensures
        out@ == escaped(s@),
        is_printable_ascii(out@),
        is_quoted_body(out@),
        unescaped(out@) == Some(s@),
        is_plain_text(s@) ==> out@ == s@,
{
    let mut out = String::new();
    for c in it: s.chars()
        invariant
            it.seq() == s@,
            out@ == escaped(s@.take(it.index())),
    {
        assert(c == s@[it.index()]);
        assert(s@.take(it.index() + 1).drop_last() == s@.take(it.index()));
        push_escaped(&mut out, c);
    }
    proof {
        assert(s@.take(s@.len() as int) == s@);
        lemma_escaped_is_quoted_body(s@);
        lemma_escape_round_trip(s@);
        if is_plain_text(s@) {
            lemma_escaped_plain_text(s@);
        }
    }
    out
}

} // verus!
