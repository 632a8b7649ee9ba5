use vstd::prelude::*;
use vstd::utf8::encode_utf8;

verus! {

/// `String::push` of the standard library: the character is added at the end
/// of the text and nothing else changes.
pub assume_specification[ String::push ](text: &mut String, ch: char)
    ensures
        final(text)@ == old(text)@.push(ch),
;

/// What `str::to_uppercase` makes of a text: its upper case form by the
/// rules of Unicode, which depends on the text alone.
pub uninterp spec fn uppercase(text: Seq<char>) -> Seq<char>;

/// `str::to_uppercase` of the standard library. Not proved: that the result
/// is the upper case form of the text, which has the name `uppercase` here.
#[verifier::external_body]
pub(crate) fn to_uppercase(text: &str) -> (result: String)
    ensures
        result@ == uppercase(text@),
{
    text.to_uppercase()
}

/// A piece of text followed by the end of the line.
pub open spec fn line(text: Seq<char>) -> Seq<char> {
    text + "\n"@
}

/// `amount` spaces.
pub open spec fn spaces_text(amount: nat) -> Seq<char> {
    Seq::new(amount, |i: int| ' ')
}

/// Length of a text in bytes of UTF-8, as the machine counts it.
pub open spec fn byte_length(text: Seq<char>) -> usize {
    encode_utf8(text).len() as usize
}

/// The character that stands for one digit, in any base up to 16, letters in upper case.
pub open spec fn digit(value: nat) -> char {
    if value == 0 {
        '0'
    } else if value == 1 {
        '1'
    } else if value == 2 {
        '2'
    } else if value == 3 {
        '3'
    } else if value == 4 {
        '4'
    } else if value == 5 {
        '5'
    } else if value == 6 {
        '6'
    } else if value == 7 {
        '7'
    } else if value == 8 {
        '8'
    } else if value == 9 {
        '9'
    } else if value == 10 {
        'A'
    } else if value == 11 {
        'B'
    } else if value == 12 {
        'C'
    } else if value == 13 {
        'D'
    } else if value == 14 {
        'E'
    } else {
        'F'
    }
}

/// The digits of a number in a base, most significant first, without leading zeros.
pub open spec fn digits(value: nat, base: nat) -> Seq<char>
    decreases value,
    via digits_decreases
{
    if base < 2 || value < base {
        seq![digit(value)]
    } else {
        digits(value / base, base).push(digit(value % base))
    }
}

#[via_fn]
proof fn digits_decreases(value: nat, base: nat) {
    if !(base < 2 || value < base) {
        lemma_quotient_is_smaller(value, base);
    }
}

/// Dividing a number by two or more makes it smaller, unless it is zero.
pub proof fn lemma_quotient_is_smaller(value: nat, base: nat)
    requires
        base >= 2,
        value >= 1,
    ensures
        value / base < value,
{
    assert(value / base < value) by (nonlinear_arith)
        requires
            base >= 2,
            value >= 1,
    ;
}

/// A text filled up with zeros in front until it is `width` characters long.
pub open spec fn zero_padded(text: Seq<char>, width: nat) -> Seq<char> {
    if text.len() >= width {
        text
    } else {
        Seq::new((width - text.len()) as nat, |i: int| '0') + text
    }
}

/// Whether a character is an ASCII letter in upper case.
pub open spec fn is_upper(letter: char) -> bool {
    'A' <= letter && letter <= 'Z'
}

/// Whether a character is an ASCII letter in lower case.
pub open spec fn is_lower(letter: char) -> bool {
    'a' <= letter && letter <= 'z'
}

/// The lower case form of an ASCII letter; any other character is left as it is.
pub open spec fn lower(letter: char) -> char {
    if is_upper(letter) {
        ((letter as u8) + 32) as char
    } else {
        letter
    }
}

/// The upper case form of an ASCII letter; any other character is left as it is.
pub open spec fn upper(letter: char) -> char {
    if is_lower(letter) {
        ((letter as u8) - 32) as char
    } else {
        letter
    }
}

/// Whether two pieces of text hold the same characters.
pub fn same_text(left: &str, right: &str) -> (same: bool)
    ensures
        same == (left@ == right@),
{
    let left_owned = left.to_owned();
    let right_owned = right.to_owned();
    left_owned == right_owned
}

/// What the generator has to know of a few words that it writes: `packed`
/// is not empty, and the names of the shared files do not begin with a slash.
pub proof fn lemma_known_lengths()
    ensures
        "packed"@.len() == 6,
        "runic_definitions.h"@.len() == 19,
        "runic_definitions.h"@[0] == 'r',
        "runic_parser.c"@.len() == 14,
        "runic_parser.c"@[0] == 'r',
{
    reveal_strlit("packed");
    reveal_strlit("runic_definitions.h");
    reveal_strlit("runic_parser.c");
}

/// A piece of text with the end of the line behind it.
pub fn line_of(content: &str) -> (text: String)
    ensures
        text@ == line(content@),
{
    let mut text = String::from_str(content);
    text.append("\n");
    text
}

/// Adds a line to a text.
pub fn push_line(text: &mut String, content: &str)
    ensures
        final(text)@ == old(text)@ + line(content@),
{
    let row = line_of(content);
    text.append(row.as_str());
}

/// How far one length falls short of another.
pub open spec fn gap(longest: usize, length: usize) -> usize {
    if longest >= length {
        (longest - length) as usize
    } else {
        0
    }
}

/// How far one length falls short of another.
pub fn gap_between(longest: usize, length: usize) -> (missing: usize)
    ensures
        missing == gap(longest, length),
{
    if longest >= length {
        longest - length
    } else {
        0
    }
}

/// Length of a text in bytes.
pub fn text_length(text: &str) -> (length: usize)
    ensures
        length == byte_length(text@),
{
    text.len()
}

/// The lower case form of an ASCII letter; any other character is left as it is.
pub fn lower_letter(letter: char) -> (result: char)
    ensures
        result == lower(letter),
{
    if letter >= 'A' && letter <= 'Z' {
        ((letter as u8) + 32u8) as char
    } else {
        letter
    }
}

/// The upper case form of an ASCII letter; any other character is left as it is.
pub fn upper_letter(letter: char) -> (result: char)
    ensures
        result == upper(letter),
{
    if letter >= 'a' && letter <= 'z' {
        ((letter as u8) - 32u8) as char
    } else {
        letter
    }
}

/// The character of one digit.
pub fn digit_letter(value: u64) -> (letter: char)
    requires
        value < 16,
    ensures
        letter == digit(value as nat),
{
    if value == 0 {
        '0'
    } else if value == 1 {
        '1'
    } else if value == 2 {
        '2'
    } else if value == 3 {
        '3'
    } else if value == 4 {
        '4'
    } else if value == 5 {
        '5'
    } else if value == 6 {
        '6'
    } else if value == 7 {
        '7'
    } else if value == 8 {
        '8'
    } else if value == 9 {
        '9'
    } else if value == 10 {
        'A'
    } else if value == 11 {
        'B'
    } else if value == 12 {
        'C'
    } else if value == 13 {
        'D'
    } else if value == 14 {
        'E'
    } else {
        'F'
    }
}

/// Writes a number in base 2, 10 or 16, or any other base up to 16.
pub fn number_text(value: u64, base: u64) -> (text: String)
    requires
        2 <= base <= 16,
    ensures
        text@ == digits(value as nat, base as nat),
    decreases value,
{
    if value < base {
        let mut text = String::new();
        text.push(digit_letter(value));
        assert(text@ =~= seq![digit(value as nat)]);
        text
    } else {
        proof {
            lemma_quotient_is_smaller(value as nat, base as nat);
        }
        let mut text = number_text(value / base, base);
        text.push(digit_letter(value % base));
        text
    }
}

/// Writes a number in a base and fills it up with zeros in front to `width` digits.
pub fn padded_number_text(value: u64, base: u64, width: usize) -> (text: String)
    requires
        2 <= base <= 16,
    ensures
        text@ == zero_padded(digits(value as nat, base as nat), width as nat),
{
    let number = number_text(value, base);
    let length = number.as_str().unicode_len();
    if length >= width {
        number
    } else {
        let mut text = String::new();
        let missing: usize = width - length;
        let mut count: usize = 0;
        while count < missing
            invariant
                count <= missing,
                text@ == Seq::new(count as nat, |i: int| '0'),
            decreases missing - count,
        {
            text.push('0');
            count = count + 1;
            assert(text@ =~= Seq::new(count as nat, |i: int| '0'));
        }
        text.append(number.as_str());
        text
    }
}

} // verus!
