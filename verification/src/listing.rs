//! What a disassembly listing shows beside the instructions: the notes
//! that annotations attach to an address, and the targets of jumps.

use vstd::prelude::*;
use crate::annotations::{
    data_length,
    data_length_of,
    records_of,
    Annotation,
    AnnotationError,
    Failure,
    Purpose,
    Record,
};
use crate::decoder::Opcode;

verus! {

/// What the annotations at one address ask of a listing.
pub struct Notes {
    /// The comment to print behind the line.
    pub comment: Option<String>,
    /// The jump target to print in place of the computed one.
    pub goto: Option<String>,
    /// The label to print above the line.
    pub label: Option<String>,
    /// The section markers to print above the line, in order.
    pub sections: Vec<String>,
    /// The number of bytes to pass over as data; 0 where the address
    /// starts no data region.
    pub skip: usize,
}

/// The notes as plain values.
pub struct NotesView {
    pub comment: Option<Seq<char>>,
    pub goto: Option<Seq<char>>,
    pub label: Option<Seq<char>>,
    pub sections: Seq<Seq<char>>,
    pub skip: usize,
}

/// The text as plain values.
pub open spec fn text_of(text: Option<String>) -> Option<Seq<char>> {
    match text {
        Some(text) => Some(text@),
        None => None,
    }
}

impl View for Notes {
    type V = NotesView;

    open spec fn view(&self) -> NotesView {
        NotesView {
            comment: text_of(self.comment),
            goto: text_of(self.goto),
            label: text_of(self.label),
            sections: self.sections@.map_values(|section: String| section@),
            skip: self.skip,
        }
    }
}

/// The value of the last record with the purpose, if there is one.
pub open spec fn last_value(records: Seq<Record>, purpose: Purpose) -> Option<Seq<char>>
    decreases records.len(),
{
    if records.len() == 0 {
        None
    } else if records.last().purpose == purpose {
        Some(records.last().value)
    } else {
        last_value(records.drop_last(), purpose)
    }
}

/// The values of the section markers, in order.
pub open spec fn section_values(records: Seq<Record>) -> Seq<Seq<char>>
    decreases records.len(),
{
    if records.len() == 0 {
        Seq::empty()
    } else if records.last().purpose == Purpose::Section {
        section_values(records.drop_last()).push(records.last().value)
    } else {
        section_values(records.drop_last())
    }
}

/// The length of the data region that the records ask for: that of the
/// last data record, 0 without one; `None` where the value of a data
/// record is no length.
pub open spec fn skip_of(records: Seq<Record>) -> Option<usize>
    decreases records.len(),
{
    if records.len() == 0 {
        Some(0)
    } else {
        match skip_of(records.drop_last()) {
            None => None,
            Some(skip) => if records.last().purpose == Purpose::Data {
                data_length_of(records.last().value)
            } else {
                Some(skip)
            },
        }
    }
}

/// The notes that the records at one address make.
pub open spec fn notes_of(records: Seq<Record>) -> Option<NotesView> {
    match skip_of(records) {
        None => None,
        Some(skip) => Some(
            NotesView {
                comment: last_value(records, Purpose::Comment),
                goto: last_value(records, Purpose::Goto),
                label: last_value(records, Purpose::Label),
                sections: section_values(records),
                skip,
            },
        ),
    }
}

/// The displacement that a relative jump carries.
pub open spec fn jump_offset(opcode: Opcode) -> Option<i8> {
    match opcode {
        Opcode::Jump(offset) => Some(offset),
        Opcode::JumpRZMemOffset(offset) => Some(offset),
        Opcode::JumpRNZMemOffset(offset) => Some(offset),
        _ => None,
    }
}

impl Notes {
    /// Gathers the annotations at one address. Of several comments, jump
    /// targets, labels or data lengths the last one counts. Fails where
    /// the value of a data annotation is no hexadecimal length.
    pub fn gather(annotations: &Vec<Annotation>) -> (res: Result<Notes, AnnotationError>)
        ensures
            match (notes_of(records_of(annotations@)), res) {
                (Some(notes), Ok(got)) => got@ == notes,
                (None, Err(error)) => error@ == Failure::ParseError,
                _ => false,
            },
    {
        let ghost records = records_of(annotations@);
        let mut notes = Notes {
            comment: None,
            goto: None,
            label: None,
            sections: Vec::new(),
            skip: 0,
        };
        let mut index: usize = 0;
        assert(notes@.sections =~= Seq::<Seq<char>>::empty());
        while index < annotations.len()
            invariant
                index <= annotations@.len(),
                records == records_of(annotations@),
                notes_of(records.take(index as int)) == Some(notes@),
            decreases annotations@.len() - index,
        {
            let annotation = &annotations[index];
            let ghost before = notes@;
            proof {
                let seen = records.take(index + 1);
                assert(seen.drop_last() =~= records.take(index as int));
                assert(seen.last() == annotation@);
            }
            match annotation.purpose {
                Purpose::Comment => {
                    notes.comment = Some(annotation.value.clone());
                },
                Purpose::Goto => {
                    notes.goto = Some(annotation.value.clone());
                },
                Purpose::Label => {
                    notes.label = Some(annotation.value.clone());
                },
                Purpose::Section => {
                    notes.sections.push(annotation.value.clone());
                    assert(notes@.sections =~= before.sections.push(annotation@.value));
                },
                Purpose::Data => {
                    match data_length(annotation.value.as_str()) {
                        Ok(length) => {
                            notes.skip = length;
                        },
                        Err(error) => {
                            proof {
                                lemma_skip_fails(records, index + 1);
                            }
                            return Err(error);
                        },
                    }
                },
            }
            index = index + 1;
        }
        assert(records.take(index as int) =~= records);
        Ok(notes)
    }
}

/// Once the records seen ask for no length, the whole does not either.
proof fn lemma_skip_fails(records: Seq<Record>, seen: int)
    requires
        0 <= seen <= records.len(),
        skip_of(records.take(seen)).is_none(),
    ensures
        skip_of(records).is_none(),
    decreases records.len() - seen,
{
    if seen < records.len() {
        assert(records.take(seen + 1).drop_last() =~= records.take(seen));
        lemma_skip_fails(records, seen + 1);
    } else {
        assert(records.take(seen) =~= records);
    }
}

/// The address a relative jump leads to, given the address `next` that
/// follows the jump's own encoding; `None` for any other instruction.
pub fn jump_destination(opcode: Opcode, next: usize) -> (target: Option<i128>)
    ensures
        target == match jump_offset(opcode) {
            Some(offset) => Some((next + offset) as i128),
            None => None,
        },
{
    match opcode {
        Opcode::Jump(offset) => Some(next as i128 + offset as i128),
        Opcode::JumpRZMemOffset(offset) => Some(next as i128 + offset as i128),
        Opcode::JumpRNZMemOffset(offset) => Some(next as i128 + offset as i128),
        _ => None,
    }
}

} // verus!
