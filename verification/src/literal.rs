//! Text as a Rust string literal.
//!
//! The literal is written in printable ASCII alone. A quote or a backslash is
//! preceded by a backslash; a line feed, a carriage return and a tabulator
//! have their short escapes; any other character outside printable ASCII is
//! written as `\u{..}` with the hexadecimal digits of its code point.

use vstd::prelude::*;

verus! {

/// `String::push` appends the character to the end of the string.
pub assume_specification[ String::push ](text: &mut String, c: char)
    ensures
        final(text)@ == old(text)@.push(c),
;

/// The digit that stands for `value` in base sixteen.
pub open spec fn hex_digit(value: int) -> char {
    if value == 0 {
        '0'
    } else if value == 1 {
        '1'
    } else if value == 2 {
        '2'
    } else if value == 3 {
        '3'
    } else if value == 4 {
        '4'
    } else if value == 5 {
        '5'
    } else if value == 6 {
        '6'
    } else if value == 7 {
        '7'
    } else if value == 8 {
        '8'
    } else if value == 9 {
        '9'
    } else if value == 10 {
        'a'
    } else if value == 11 {
        'b'
    } else if value == 12 {
        'c'
    } else if value == 13 {
        'd'
    } else if value == 14 {
        'e'
    } else {
        'f'
    }
}

/// The digits of `value` in base sixteen, most significant first, without
/// leading zeros; zero is written as one digit.
pub open spec fn hex_digits(value: nat) -> Seq<char>
    decreases value,
{
    if value < 16 {
        seq![hex_digit(value as int)]
    } else {
        hex_digits(value / 16).push(hex_digit((value % 16) as int))
    }
}

/// Whether a character stands for itself inside a literal.
pub open spec fn is_plain(c: char) -> bool {
    ' ' <= c <= '~' && c != '"' && c != '\\'
}

/// How one character is written inside a literal.
pub open spec fn escaped(c: char) -> Seq<char> {
    if c == '"' {
        seq!['\\', '"']
    } else if c == '\\' {
        seq!['\\', '\\']
    } else if c == '\n' {
        seq!['\\', 'n']
    } else if c == '\r' {
        seq!['\\', 'r']
    } else if c == '\t' {
        seq!['\\', 't']
    } else if is_plain(c) {
        seq![c]
    } else {
        seq!['\\', 'u', '{'] + hex_digits(c as nat) + seq!['}']
    }
}

/// How a text is written between the quotes of a literal.
pub open spec fn escaped_text(text: Seq<char>) -> Seq<char>
    decreases text.len(),
{
    if text.len() == 0 {
        Seq::empty()
    } else {
        escaped_text(text.drop_last()) + escaped(text.last())
    }
}

/// The string literal that denotes `text`.
pub open spec fn literal_text(text: Seq<char>) -> Seq<char> {
    seq!['"'] + escaped_text(text) + seq!['"']
}

/// The value of a hexadecimal digit, where `c` is one.
pub open spec fn hex_value(c: char) -> Option<nat> {
    if '0' <= c <= '9' {
        Some((c as int - '0' as int) as nat)
    } else if 'a' <= c <= 'f' {
        Some((c as int - 'a' as int + 10) as nat)
    } else if 'A' <= c <= 'F' {
        Some((c as int - 'A' as int + 10) as nat)
    } else {
        None
    }
}

/// Whether every character of `digits` is a hexadecimal digit.
pub open spec fn all_hex(digits: Seq<char>) -> bool {
    forall|index: int| 0 <= index < digits.len() ==> hex_value(#[trigger] digits[index]) is Some
}

/// The number that hexadecimal digits denote, most significant first.
pub open spec fn hex_number(digits: Seq<char>) -> nat
    decreases digits.len(),
{
    if digits.len() == 0 {
        0
    } else {
        hex_number(digits.drop_last()) * 16 + match hex_value(digits.last()) {
            Some(value) => value,
            None => 0,
        }
    }
}

/// Whether `code` is the code point of a character.
pub open spec fn is_scalar(code: nat) -> bool {
    code <= 0xD7FF || 0xE000 <= code <= 0x10FFFF
}

/// Whether `close` is the place of the first closing brace of `content` after
/// the opening of a `\u{` escape.
pub open spec fn closes_escape(content: Seq<char>, close: int) -> bool {
    &&& 3 <= close < content.len()
    &&& content[close] == '}'
    &&& forall|before: int| 3 <= before < close ==> #[trigger] content[before] != '}'
}

/// Reads the first character that the content of a literal denotes, together
/// with the number of characters of content that stand for it.
///
/// The reading knows a character that stands for itself, the escapes `\n`,
/// `\r`, `\t`, `\\`, `\0`, `\'` and `\"`, and `\u{..}` with one to six
/// hexadecimal digits. Content that begins otherwise is not read.
pub open spec fn first_unescaped(content: Seq<char>) -> Option<(char, int)> {
    if content.len() == 0 || content[0] == '"' || content[0] == '\r' {
        None
    } else if content[0] != '\\' {
        Some((content[0], 1))
    } else if content.len() < 2 {
        None
    } else if content[1] == 'n' {
        Some(('\n', 2))
    } else if content[1] == 'r' {
        Some(('\r', 2))
    } else if content[1] == 't' {
        Some(('\t', 2))
    } else if content[1] == '\\' {
        Some(('\\', 2))
    } else if content[1] == '0' {
        Some(('\0', 2))
    } else if content[1] == '\'' {
        Some(('\'', 2))
    } else if content[1] == '"' {
        Some(('"', 2))
    } else if content[1] == 'u' && content.len() > 2 && content[2] == '{' && exists|close: int|
        closes_escape(content, close) {
        let close = choose|close: int| closes_escape(content, close);
        let digits = content.subrange(3, close);
        if 1 <= digits.len() <= 6 && all_hex(digits) && is_scalar(hex_number(digits)) {
            Some((hex_number(digits) as char, close + 1))
        } else {
            None
        }
    } else {
        None
    }
}

/// Reads the content of a literal up to the closing quote, which stands at
/// the front of `text` or after what can be read of it: the text that the
/// content denotes, and the number of characters read, the quote included.
pub open spec fn read_content(text: Seq<char>) -> Option<(Seq<char>, int)>
    decreases text.len(),
{
    if text.len() == 0 {
        None
    } else if text[0] == '"' {
        Some((Seq::empty(), 1))
    } else {
        match first_unescaped(text) {
            Some((c, used)) if 0 < used <= text.len() => match read_content(text.skip(used)) {
                Some((rest, more)) => Some((seq![c] + rest, used + more)),
                None => None,
            },
            _ => None,
        }
    }
}

/// Reads a string literal that stands at the front of `text`: the text that
/// it denotes, and the number of characters that it takes up.
pub open spec fn read_literal(text: Seq<char>) -> Option<(Seq<char>, int)> {
    if text.len() > 0 && text[0] == '"' {
        match read_content(text.skip(1)) {
            Some((value, used)) => Some((value, used + 1)),
            None => None,
        }
    } else {
        None
    }
}

/// Reads the text that a string literal denotes, where `literal` is one
/// string literal and nothing more.
pub open spec fn literal_value(literal: Seq<char>) -> Option<Seq<char>> {
    match read_literal(literal) {
        Some((value, used)) if used == literal.len() => Some(value),
        _ => None,
    }
}

/// The digits of a number are hexadecimal digits, at least one, and denote
/// the number.
pub proof fn lemma_hex_digits_denote(value: nat)
    ensures
        hex_digits(value).len() >= 1,
        all_hex(hex_digits(value)),
        hex_number(hex_digits(value)) == value,
    decreases value,
{
    let digit = hex_digit((value % 16) as int);
    assert(hex_value(digit) == Some(value % 16));
    if value < 16 {
        let digits = hex_digits(value);
        assert(digits.drop_last() =~= Seq::<char>::empty());
        assert(hex_number(digits.drop_last()) == 0);
    } else {
        lemma_hex_digits_denote(value / 16);
        let higher = hex_digits(value / 16);
        assert(higher.push(digit).drop_last() =~= higher);
    }
}

/// A code point has at most six digits.
proof fn lemma_hex_digits_of_scalar(value: nat)
    requires
        value <= 0x10FFFF,
    ensures
        hex_digits(value).len() <= 6,
{
    reveal_with_fuel(hex_digits, 7);
}

/// What stands for a character is read back as that character, whatever
/// follows it.
proof fn lemma_escaped_reads_back(c: char, rest: Seq<char>)
    ensures
        escaped(c).len() >= 1,
        first_unescaped(escaped(c) + rest) == Some((c, escaped(c).len() as int)),
{
    let content = escaped(c) + rest;
    if c == '"' || c == '\\' || c == '\n' || c == '\r' || c == '\t' || is_plain(c) {
        assert(content[0] == escaped(c)[0]);
        if !is_plain(c) {
            assert(content[1] == escaped(c)[1]);
        }
    } else {
        let digits = hex_digits(c as nat);
        lemma_hex_digits_denote(c as nat);
        lemma_hex_digits_of_scalar(c as nat);
        let close = 3 + digits.len() as int;
        assert(content[close] == '}');
        assert forall|before: int| 3 <= before < close implies #[trigger] content[before]
            != '}' by {
            assert(content[before] == digits[before - 3]);
            assert(hex_value(digits[before - 3]) is Some);
        }
        assert(closes_escape(content, close));
        let chosen = choose|close: int| closes_escape(content, close);
        assert(chosen == close);
        assert(content.subrange(3, close) =~= digits);
    }
}

/// What stands for a text begins with what stands for its first character.
pub proof fn lemma_escaped_text_front(text: Seq<char>)
    requires
        text.len() > 0,
    ensures
        escaped_text(text) == escaped(text[0]) + escaped_text(text.skip(1)),
    decreases text.len(),
{
    if text.len() == 1 {
        assert(text.drop_last() =~= Seq::<char>::empty());
        assert(text.skip(1) =~= Seq::<char>::empty());
        assert(escaped_text(text) =~= escaped(text[0]) + escaped_text(text.skip(1)));
    } else {
        lemma_escaped_text_front(text.drop_last());
        assert(text.drop_last().skip(1) =~= text.skip(1).drop_last());
        assert(escaped_text(text) =~= escaped(text[0]) + escaped_text(text.skip(1)));
    }
}

/// What stands for a text, with the closing quote, is read back as that
/// text, whatever follows the quote.
proof fn lemma_content_reads_back(text: Seq<char>, rest: Seq<char>)
    ensures
        read_content(escaped_text(text) + seq!['"'] + rest) == Some(
            (text, escaped_text(text).len() as int + 1),
        ),
    decreases text.len(),
{
    let content = escaped_text(text) + seq!['"'] + rest;
    if text.len() == 0 {
        assert(content[0] == '"');
        assert(text =~= Seq::<char>::empty());
    } else {
        let first = escaped(text[0]);
        let later = escaped_text(text.skip(1)) + seq!['"'] + rest;
        lemma_escaped_text_front(text);
        lemma_escaped_reads_back(text[0], later);
        lemma_content_reads_back(text.skip(1), rest);
        assert(content =~= first + later);
        assert(content.skip(first.len() as int) =~= later);
        assert(seq![text[0]] + text.skip(1) =~= text);
    }
}

/// A literal is read back as the text that it was written for, whatever
/// follows it.
pub proof fn law_literal_reads_back(text: Seq<char>, rest: Seq<char>)
    ensures
        read_literal(literal_text(text) + rest) == Some((text, literal_text(text).len() as int)),
{
    let literal = literal_text(text) + rest;
    lemma_content_reads_back(text, rest);
    assert(literal.skip(1) =~= escaped_text(text) + seq!['"'] + rest);
}

/// The literal for a text denotes that text: read back as a string literal,
/// it gives the text again.
pub proof fn law_literal_denotes_its_text(text: Seq<char>)
    ensures
        literal_value(literal_text(text)) == Some(text),
{
    law_literal_reads_back(text, Seq::empty());
    assert(literal_text(text) + Seq::<char>::empty() =~= literal_text(text));
}

/// The digit for a value below sixteen.
fn hex_char(value: u32) -> (digit: char)
    requires
        value < 16,
    ensures
        digit == hex_digit(value as int),
{
    if value == 0 {
        '0'
    } else if value == 1 {
        '1'
    } else if value == 2 {
        '2'
    } else if value == 3 {
        '3'
    } else if value == 4 {
        '4'
    } else if value == 5 {
        '5'
    } else if value == 6 {
        '6'
    } else if value == 7 {
        '7'
    } else if value == 8 {
        '8'
    } else if value == 9 {
        '9'
    } else if value == 10 {
        'a'
    } else if value == 11 {
        'b'
    } else if value == 12 {
        'c'
    } else if value == 13 {
        'd'
    } else if value == 14 {
        'e'
    } else {
        'f'
    }
}

/// Appends the hexadecimal digits of `value` to `out`.
fn push_hex(out: &mut String, value: u32)
    ensures
        final(out)@ == old(out)@ + hex_digits(value as nat),
    decreases value,
{
    if value >= 16 {
        push_hex(out, value / 16);
    }
    out.push(hex_char(value % 16));
}

/// Appends to `out` what stands for `c` inside a literal.
pub fn push_escaped(out: &mut String, c: char)
    ensures
        final(out)@ == old(out)@ + escaped(c),
{
    let code: u32 = c as u32;
    if c == '"' {
        out.push('\\');
        out.push('"');
    } else if c == '\\' {
        out.push('\\');
        out.push('\\');
    } else if c == '\n' {
        out.push('\\');
        out.push('n');
    } else if c == '\r' {
        out.push('\\');
        out.push('r');
    } else if c == '\t' {
        out.push('\\');
        out.push('t');
    } else if 0x20 <= code && code <= 0x7e {
        out.push(c);
    } else {
        out.push('\\');
        out.push('u');
        out.push('{');
        push_hex(out, code);
        out.push('}');
    }
}

/// Appends to `out` the string literal that denotes `text`.
pub fn push_literal(out: &mut String, text: &str)
    ensures
        final(out)@ == old(out)@ + literal_text(text@),
{
    out.push('"');
    let ghost opened = out@;
    for c in chars: text.chars()
        invariant
            chars.seq() == text@,
            out@ == opened + escaped_text(text@.take(chars.index() as int)),
    {
        assert(text@.take(chars.index() + 1).drop_last() =~= text@.take(chars.index() as int));
        push_escaped(out, c);
    }
    assert(text@.take(text@.len() as int) =~= text@);
    out.push('"');
}

/// Writes the string literal that denotes `text`.
pub fn string_literal(text: &str) -> (literal: String)
    ensures
        literal@ == literal_text(text@),
{
    let mut literal = String::new();
    push_literal(&mut literal, text);
    literal
}

} // verus!
