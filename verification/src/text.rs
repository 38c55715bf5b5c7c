//! Reading text: finding marks, lines, white space and hexadecimal numbers.

use vstd::prelude::*;
use vstd::std_specs::iter::IteratorSpec;
use vstd::string::*;

verus! {

/// The error that parsing an integer gives.
#[verifier::external_type_specification]
#[verifier::external_body]
pub struct ExParseIntError(std::num::ParseIntError);

/// Number of items of `text` in front of the first `mark`; the length of
/// `text` where it holds no `mark`.
pub open spec fn find(text: Seq<char>, mark: char) -> int
    decreases text.len(),
{
    if text.len() == 0 || text[0] == mark {
        0
    } else {
        1 + find(text.skip(1), mark)
    }
}

/// `find` is the one index in front of which no `mark` stands and at which
/// a `mark` stands, or the text ends.
pub proof fn lemma_find(text: Seq<char>, mark: char, index: int)
    requires
        0 <= index <= text.len(),
        forall|k: int| 0 <= k < index ==> text[k] != mark,
        index < text.len() ==> text[index] == mark,
    ensures
        find(text, mark) == index,
    decreases index,
{
    if index > 0 {
        let rest = text.skip(1);
        assert forall|k: int| 0 <= k < index - 1 implies rest[k] != mark by {
            assert(rest[k] == text[k + 1]);
        }
        lemma_find(rest, mark, index - 1);
    }
}

/// The text without the `0x` prefixes that it starts with.
pub open spec fn strip_hex_prefix(text: Seq<char>) -> Seq<char>
    decreases text.len(),
{
    if text.len() >= 2 && text[0] == '0' && text[1] == 'x' {
        strip_hex_prefix(text.skip(2))
    } else {
        text
    }
}

/// The value of a hexadecimal digit, written with small or capital
/// letters.
pub open spec fn hex_digit(digit: char) -> Option<nat> {
    let code = digit as u32;
    if 0x30 <= code <= 0x39 {
        Some((code - 0x30) as nat)
    } else if 0x61 <= code <= 0x66 {
        Some((code - 0x61 + 10) as nat)
    } else if 0x41 <= code <= 0x46 {
        Some((code - 0x41 + 10) as nat)
    } else {
        None
    }
}

/// Whether the text is made of hexadecimal digits only.
pub open spec fn all_hex(text: Seq<char>) -> bool {
    forall|k: int| 0 <= k < text.len() ==> (#[trigger] hex_digit(text[k])).is_some()
}

/// The number that a text of hexadecimal digits denotes.
pub open spec fn hex_value(text: Seq<char>) -> nat
    decreases text.len(),
{
    if text.len() == 0 {
        0
    } else {
        hex_value(text.drop_last()) * 16 + match hex_digit(text.last()) {
            Some(value) => value,
            None => 0,
        }
    }
}

/// The text without the plus sign that may lead it.
pub open spec fn unsigned(text: Seq<char>) -> Seq<char> {
    if text.len() > 0 && text[0] == '+' {
        text.skip(1)
    } else {
        text
    }
}

/// The machine word that a text denotes in base 16: an optional plus sign
/// and then at least one hexadecimal digit, with a value that fits.
pub open spec fn hex_number(text: Seq<char>) -> Option<usize> {
    let digits = unsigned(text);
    if digits.len() > 0 && all_hex(digits) && hex_value(digits) <= usize::MAX {
        Some(hex_value(digits) as usize)
    } else {
        None
    }
}

/// Whether the character is white space: a character with the Unicode
/// property `White_Space`.
pub open spec fn is_whitespace(c: char) -> bool {
    let code = c as u32;
    ||| 0x09 <= code <= 0x0d
    ||| code == 0x20
    ||| code == 0x85
    ||| code == 0xa0
    ||| code == 0x1680
    ||| 0x2000 <= code <= 0x200a
    ||| code == 0x2028
    ||| code == 0x2029
    ||| code == 0x202f
    ||| code == 0x205f
    ||| code == 0x3000
}

/// Whether the line holds nothing but white space.
pub open spec fn is_blank(line: Seq<char>) -> bool {
    forall|k: int| 0 <= k < line.len() ==> is_whitespace(#[trigger] line[k])
}

/// The lines of a text: the pieces between its line feeds. A text with
/// `n` line feeds has `n + 1` lines, of which the last may be empty.
pub open spec fn lines_of(text: Seq<char>) -> Seq<Seq<char>>
    decreases text.len(),
{
    let end = find(text, '\n');
    if 0 <= end < text.len() {
        seq![text.take(end)] + lines_of(text.skip(end + 1))
    } else {
        seq![text]
    }
}

/// Calls `usize::from_str_radix` with radix 16. The call accepts an
/// optional plus sign followed by at least one hexadecimal digit, small
/// or capital, and nothing else; it fails where the number does not fit
/// in a machine word.
#[verifier::external_body]
pub(crate) fn parse_hex(digits: &str) -> (res: Result<usize, std::num::ParseIntError>)
    ensures
        match res {
            Ok(value) => hex_number(digits@) == Some(value),
            Err(_) => hex_number(digits@).is_none(),
        },
{
    usize::from_str_radix(digits, 16)
}

/// The characters of a text.
pub(crate) fn to_chars(text: &str) -> (chars: Vec<char>)
    ensures
        chars@ == text@,
{
    broadcast use {axiom_spec_iter, next_postcondition};

    let mut rest = text.chars();
    let mut chars: Vec<char> = Vec::new();
    loop
        invariant
            chars@ + rest.remaining() == text@,
            rest.decrease() is Some,
        ensures
            chars@ == text@,
        decreases rest.decrease().unwrap(),
    {
        match rest.next() {
            Some(item) => {
                chars.push(item);
            },
            None => {
                assert(chars@ + rest.remaining() =~= chars@);
                break ;
            },
        }
    }
    chars
}

/// The index of the first `mark` at or behind `start`, or the length of
/// the text where none stands there.
pub(crate) fn find_from(chars: &Vec<char>, start: usize, mark: char) -> (index: usize)
    requires
        start <= chars@.len(),
    ensures
        start <= index <= chars@.len(),
        index - start == find(chars@.skip(start as int), mark),
{
    let mut index = start;
    while index < chars.len() && chars[index] != mark
        invariant
            start <= index <= chars@.len(),
            forall|k: int| start <= k < index ==> chars@[k] != mark,
        decreases chars@.len() - index,
    {
        index = index + 1;
    }
    proof {
        lemma_find(chars@.skip(start as int), mark, index - start);
    }
    index
}

/// The index, in front of `end`, behind the `0x` prefixes that the text
/// starts with.
pub(crate) fn skip_hex_prefix(chars: &Vec<char>, end: usize) -> (start: usize)
    requires
        end <= chars@.len(),
    ensures
        start <= end,
        chars@.subrange(start as int, end as int) == strip_hex_prefix(chars@.take(end as int)),
{
    let mut start: usize = 0;
    assert(chars@.subrange(0, end as int) =~= chars@.take(end as int));
    while end - start >= 2 && chars[start] == '0' && chars[start + 1] == 'x'
        invariant
            start <= end <= chars@.len(),
            strip_hex_prefix(chars@.subrange(start as int, end as int)) == strip_hex_prefix(
                chars@.take(end as int),
            ),
        decreases end - start,
    {
        assert(chars@.subrange(start as int, end as int).skip(2) =~= chars@.subrange(
            start + 2,
            end as int,
        ));
        start = start + 2;
    }
    start
}

/// Whether the character is white space.
pub(crate) fn is_space(c: char) -> (space: bool)
    ensures
        space == is_whitespace(c),
{
    let code: u32 = c as u32;
    (0x09 <= code && code <= 0x0d) || code == 0x20 || code == 0x85 || code == 0xa0 || code
        == 0x1680 || (0x2000 <= code && code <= 0x200a) || code == 0x2028 || code == 0x2029 || code
        == 0x202f || code == 0x205f || code == 0x3000
}

} // verus!
