//! Annotations of a disassembly: a line-oriented text format that attaches
//! comments, labels, section markers and data regions to addresses.
//!
//! Each line reads `<hex-address> <purpose-letter> <free-text value>`.

use std::collections::BTreeMap;
use vstd::prelude::*;
use vstd::string::*;
use crate::grouping::{group_by_location, groups_by_location};
use crate::text::{
    find,
    find_from,
    hex_number,
    is_blank,
    is_space,
    is_whitespace,
    lines_of,
    parse_hex,
    skip_hex_prefix,
    strip_hex_prefix,
    to_chars,
};

verus! {

/// What an annotation is for.
#[derive(PartialEq, Eq, Debug, Clone, Copy, Structural)]
pub enum Purpose {
    /// `C`: a comment.
    Comment,
    /// `S`: a section marker.
    Section,
    /// `G`: an explicit jump target, which overrides the computed one.
    Goto,
    /// `L`: a label name.
    Label,
    /// `D`: a data region; the value is its length in bytes, in hex.
    Data,
}

/// One annotation: a purpose and a free-text value attached to an address.
#[derive(Clone, PartialEq, Debug)]
pub struct Annotation {
    pub location: usize,
    pub purpose: Purpose,
    pub value: String,
}

/// Why a line is no annotation.
#[derive(Debug)]
pub enum AnnotationError {
    /// The line has fewer than three fields.
    MissingField,
    /// The second field is no purpose letter.
    InvalidMnemonic(String),
    /// The first field is no hexadecimal address.
    ParseError(std::num::ParseIntError),
}

/// An annotation as plain values.
pub struct Record {
    pub location: usize,
    pub purpose: Purpose,
    pub value: Seq<char>,
}

/// A parse failure as plain values.
pub enum Failure {
    MissingField,
    InvalidMnemonic(Seq<char>),
    ParseError,
}

impl View for Annotation {
    type V = Record;

    open spec fn view(&self) -> Record {
        Record { location: self.location, purpose: self.purpose, value: self.value@ }
    }
}

impl View for AnnotationError {
    type V = Failure;

    open spec fn view(&self) -> Failure {
        match self {
            AnnotationError::MissingField => Failure::MissingField,
            AnnotationError::InvalidMnemonic(mnemonic) => Failure::InvalidMnemonic(mnemonic@),
            AnnotationError::ParseError(_) => Failure::ParseError,
        }
    }
}

/// The purpose that a letter stands for.
pub open spec fn letter_purpose(letter: char) -> Option<Purpose> {
    if letter == 'C' {
        Some(Purpose::Comment)
    } else if letter == 'S' {
        Some(Purpose::Section)
    } else if letter == 'G' {
        Some(Purpose::Goto)
    } else if letter == 'L' {
        Some(Purpose::Label)
    } else if letter == 'D' {
        Some(Purpose::Data)
    } else {
        None
    }
}

/// The purpose that a field names: the field is a single purpose letter.
pub open spec fn purpose_of(mnemonic: Seq<char>) -> Option<Purpose> {
    if mnemonic.len() == 1 {
        letter_purpose(mnemonic[0])
    } else {
        None
    }
}

/// The three fields of a line: the text in front of the first space, the
/// text between the first and the second space, and everything behind the
/// second space. `None` where the line has fewer than two spaces.
pub open spec fn fields_of(line: Seq<char>) -> Option<(Seq<char>, Seq<char>, Seq<char>)> {
    let first = find(line, ' ');
    if first >= line.len() {
        None
    } else {
        let rest = line.skip(first + 1);
        let second = find(rest, ' ');
        if second >= rest.len() {
            None
        } else {
            Some((line.take(first), rest.take(second), rest.skip(second + 1)))
        }
    }
}

/// What a line says: its record, or the first of these that applies: the
/// line has fewer than three fields; its address is no hexadecimal number;
/// its purpose is no purpose letter.
pub open spec fn parse_line(line: Seq<char>) -> Result<Record, Failure> {
    match fields_of(line) {
        None => Err(Failure::MissingField),
        Some((address, mnemonic, value)) => match hex_number(strip_hex_prefix(address)) {
            None => Err(Failure::ParseError),
            Some(location) => match purpose_of(mnemonic) {
                None => Err(Failure::InvalidMnemonic(mnemonic)),
                Some(purpose) => Ok(Record { location, purpose, value }),
            },
        },
    }
}

/// Whether the line is passed over: a blank line, or one that starts with
/// `#`.
pub open spec fn is_skipped(line: Seq<char>) -> bool {
    is_blank(line) || (line.len() > 0 && line[0] == '#')
}

/// `records` in front of what the rest of the lines give.
pub open spec fn prepend(records: Seq<Record>, rest: Result<Seq<Record>, Failure>) -> Result<
    Seq<Record>,
    Failure,
> {
    match rest {
        Ok(others) => Ok(records + others),
        Err(failure) => Err(failure),
    }
}

/// The records of the lines that are not passed over, in the order of the
/// lines; or the failure of the first such line that is no annotation.
pub open spec fn parse_lines(lines: Seq<Seq<char>>) -> Result<Seq<Record>, Failure>
    decreases lines.len(),
{
    if lines.len() == 0 {
        Ok(Seq::empty())
    } else if is_skipped(lines[0]) {
        parse_lines(lines.skip(1))
    } else {
        match parse_line(lines[0]) {
            Ok(record) => prepend(seq![record], parse_lines(lines.skip(1))),
            Err(failure) => Err(failure),
        }
    }
}

/// The records of a vector of annotations.
pub open spec fn records_of(annotations: Seq<Annotation>) -> Seq<Record> {
    annotations.map_values(|annotation: Annotation| annotation@)
}

/// Whether a call that returned `res` did what `expected` says.
pub open spec fn parsed_as<T: View>(res: Result<T, AnnotationError>, expected: Result<
    T::V,
    Failure,
>) -> bool {
    match (expected, res) {
        (Ok(value), Ok(got)) => got@ == value,
        (Err(failure), Err(error)) => error@ == failure,
        _ => false,
    }
}

impl Purpose {
    /// The purpose that a field names.
    pub fn from_char(mnemonic: &str) -> (res: Result<Purpose, AnnotationError>)
        ensures
            match (purpose_of(mnemonic@), res) {
                (Some(purpose), Ok(got)) => got == purpose,
                (None, Err(error)) => error@ == Failure::InvalidMnemonic(mnemonic@),
                _ => false,
            },
    {
        if mnemonic.unicode_len() == 1 {
            let letter = mnemonic.get_char(0);
            if letter == 'C' {
                return Ok(Purpose::Comment);
            } else if letter == 'S' {
                return Ok(Purpose::Section);
            } else if letter == 'G' {
                return Ok(Purpose::Goto);
            } else if letter == 'L' {
                return Ok(Purpose::Label);
            } else if letter == 'D' {
                return Ok(Purpose::Data);
            }
        }
        Err(AnnotationError::InvalidMnemonic(String::from_str(mnemonic)))
    }
}

/// Whether the line that runs from `start` up to `end` is passed over.
fn skips(chars: &Vec<char>, start: usize, end: usize) -> (skipped: bool)
    requires
        start <= end <= chars@.len(),
    ensures
        skipped == is_skipped(chars@.subrange(start as int, end as int)),
{
    let ghost line = chars@.subrange(start as int, end as int);
    if start < end && chars[start] == '#' {
        assert(line[0] == chars@[start as int]);
        return true;
    }
    assert(start < end ==> line[0] == chars@[start as int]);
    let mut index = start;
    while index < end
        invariant
            start <= index <= end <= chars@.len(),
            line == chars@.subrange(start as int, end as int),
            !(line.len() > 0 && line[0] == '#'),
            forall|k: int| 0 <= k < index - start ==> is_whitespace(#[trigger] line[k]),
        decreases end - index,
    {
        if !is_space(chars[index]) {
            assert(line[index - start] == chars@[index as int]);
            assert(!is_whitespace(line[index - start]));
            return false;
        }
        index = index + 1;
    }
    true
}

/// Reads the lines of a text in order, up to the first line that is no
/// annotation.
fn read_records(data: &str) -> (res: Result<Vec<Annotation>, AnnotationError>)
    ensures
        match (parse_lines(lines_of(data@)), res) {
            (Ok(records), Ok(annotations)) => records_of(annotations@) == records,
            (Err(failure), Err(error)) => error@ == failure,
            _ => false,
        },
{
    let chars = to_chars(data);
    let len = chars.len();
    let mut annotations: Vec<Annotation> = Vec::new();
    let mut start: usize = 0;
    assert(data@.skip(0) =~= data@);
    assert(prepend(Seq::<Record>::empty(), parse_lines(lines_of(data@))) == parse_lines(
        lines_of(data@),
    )) by {
        match parse_lines(lines_of(data@)) {
            Ok(others) => {
                assert(Seq::<Record>::empty() + others =~= others);
            },
            Err(_) => {},
        }
    }
    assert(records_of(annotations@) =~= Seq::<Record>::empty());
    loop
        invariant
            chars@ == data@,
            len == chars@.len(),
            start <= len,
            parse_lines(lines_of(data@)) == prepend(
                records_of(annotations@),
                parse_lines(lines_of(data@.skip(start as int))),
            ),
        decreases len - start,
    {
        let end = find_from(&chars, start, '\n');
        let ghost text = data@.skip(start as int);
        let ghost line = data@.subrange(start as int, end as int);
        let ghost rest = if end < len {
            lines_of(text.skip(end - start + 1))
        } else {
            Seq::<Seq<char>>::empty()
        };
        let ghost before = records_of(annotations@);
        proof {
            assert(text.take(end - start) =~= line);
            assert(lines_of(text) =~= seq![line] + rest);
            assert(lines_of(text)[0] == line);
            assert(lines_of(text).skip(1) =~= rest);
            if end < len {
                assert(text.skip(end - start + 1) =~= data@.skip(end + 1));
            }
        }
        if !skips(&chars, start, end) {
            match Annotation::from_line(data.substring_char(start, end)) {
                Ok(annotation) => {
                    annotations.push(annotation);
                    proof {
                        let record = annotation@;
                        assert(records_of(annotations@) =~= before + seq![record]);
                        match parse_lines(rest) {
                            Ok(others) => {
                                assert(before + (seq![record] + others) =~= (before + seq![
                                    record,
                                ]) + others);
                            },
                            Err(_) => {},
                        }
                    }
                },
                Err(error) => {
                    return Err(error);
                },
            }
        }
        if end >= len {
            proof {
                assert(parse_lines(rest) == Ok::<Seq<Record>, Failure>(Seq::empty()));
                assert(records_of(annotations@) + Seq::<Record>::empty() =~= records_of(
                    annotations@,
                ));
            }
            return Ok(annotations);
        }
        start = end + 1;
    }
}

/// The length of a data region: what the value of a `D` annotation
/// denotes in hexadecimal, with or without `0x` in front.
pub open spec fn data_length_of(value: Seq<char>) -> Option<usize> {
    hex_number(strip_hex_prefix(value))
}

/// Reads the length of a data region from the value of a `D` annotation.
pub fn data_length(value: &str) -> (res: Result<usize, AnnotationError>)
    ensures
        match (data_length_of(value@), res) {
            (Some(length), Ok(got)) => got == length,
            (None, Err(error)) => error@ == Failure::ParseError,
            _ => false,
        },
{
    let chars = to_chars(value);
    let len = chars.len();
    assert(chars@.take(len as int) =~= chars@);
    let start = skip_hex_prefix(&chars, len);
    match parse_hex(value.substring_char(start, len)) {
        Ok(length) => Ok(length),
        Err(error) => Err(AnnotationError::ParseError(error)),
    }
}

impl Annotation {
    /// Reads a text of annotations, one to a line, and groups them by
    /// location. Blank lines and lines that start with `#` are passed
    /// over. The first line that is no annotation fails the whole text.
    pub fn parse(data: &str) -> (res: Result<BTreeMap<usize, Vec<Annotation>>, AnnotationError>)
        ensures
            match (parse_lines(lines_of(data@)), res) {
                (Ok(records), Ok(map)) => groups_by_location(map@, records),
                (Err(failure), Err(error)) => error@ == failure,
                _ => false,
            },
    {
        match read_records(data) {
            Ok(annotations) => Ok(group_by_location(annotations)),
            Err(error) => Err(error),
        }
    }

    /// Reads one line: an address in hexadecimal, with or without `0x` in
    /// front, a purpose letter, and a value that runs to the end of the
    /// line, separated by single spaces.
    pub fn from_line(line: &str) -> (res: Result<Annotation, AnnotationError>)
        ensures
            parsed_as(res, parse_line(line@)),
    {
        let chars = to_chars(line);
        let len = chars.len();
        assert(chars@.skip(0) =~= chars@);
        let first = find_from(&chars, 0, ' ');
        if first >= len {
            return Err(AnnotationError::MissingField);
        }
        let second = find_from(&chars, first + 1, ' ');
        if second >= len {
            return Err(AnnotationError::MissingField);
        }
        proof {
            let rest = line@.skip(first + 1);
            assert(rest.take(second - (first + 1)) =~= line@.subrange(first + 1, second as int));
            assert(rest.skip(second - (first + 1) + 1) =~= line@.subrange(
                second + 1,
                len as int,
            ));
        }
        let start = skip_hex_prefix(&chars, first);
        let location = match parse_hex(line.substring_char(start, first)) {
            Ok(value) => value,
            Err(error) => {
                return Err(AnnotationError::ParseError(error));
            },
        };
        let purpose = match Purpose::from_char(line.substring_char(first + 1, second)) {
            Ok(purpose) => purpose,
            Err(error) => {
                return Err(error);
            },
        };
        let value = String::from_str(line.substring_char(second + 1, len));
        Ok(Annotation { location, purpose, value })
    }
}

} // verus!
