use gb::annotations::{data_length, Annotation, AnnotationError, Purpose};
use gb::decoder::Opcode;
use gb::indexediter::IndexedIter;
use gb::listing::{jump_destination, Notes};
use gb::slots::Register8;

fn note(purpose: Purpose, value: &str) -> Annotation {
    Annotation { location: 0x10, purpose, value: value.to_string() }
}

#[test]
fn test_notes_of_nothing() {
    let notes = Notes::gather(&vec![]).unwrap();
    assert_eq!(notes.comment, None);
    assert_eq!(notes.goto, None);
    assert_eq!(notes.label, None);
    assert!(notes.sections.is_empty());
    assert_eq!(notes.skip, 0);
}

#[test]
fn test_notes_gather_each_purpose() {
    let notes = Notes::gather(&vec![
        note(Purpose::Section, "one"),
        note(Purpose::Comment, "first"),
        note(Purpose::Label, "start"),
        note(Purpose::Data, "0x05"),
        note(Purpose::Goto, "there"),
        note(Purpose::Section, "two"),
        note(Purpose::Comment, "second"),
        note(Purpose::Data, "1f"),
    ])
    .unwrap();
    assert_eq!(notes.comment, Some("second".to_string()));
    assert_eq!(notes.goto, Some("there".to_string()));
    assert_eq!(notes.label, Some("start".to_string()));
    assert_eq!(notes.sections, vec!["one".to_string(), "two".to_string()]);
    assert_eq!(notes.skip, 0x1f);
}

#[test]
fn test_notes_data_length_must_be_hex() {
    let res = Notes::gather(&vec![note(Purpose::Data, "five"), note(Purpose::Data, "0x05")]);
    assert!(matches!(res, Err(AnnotationError::ParseError(_))));
    let res = Notes::gather(&vec![note(Purpose::Data, "0x05"), note(Purpose::Data, "")]);
    assert!(matches!(res, Err(AnnotationError::ParseError(_))));
    // Only the value of a data annotation is read as a number.
    assert!(Notes::gather(&vec![note(Purpose::Comment, "five")]).is_ok());
}

#[test]
fn test_data_length() {
    assert_eq!(data_length("0x05").unwrap(), 5);
    assert_eq!(data_length("ff").unwrap(), 255);
    assert_eq!(data_length("0x0x10").unwrap(), 16);
    assert!(matches!(data_length("0x"), Err(AnnotationError::ParseError(_))));
    assert!(matches!(data_length("12 "), Err(AnnotationError::ParseError(_))));
}

#[test]
fn test_jump_destination() {
    assert_eq!(jump_destination(Opcode::Jump(5), 0x102), Some(0x107));
    assert_eq!(jump_destination(Opcode::JumpRZMemOffset(-5), 0x102), Some(0xfd));
    assert_eq!(jump_destination(Opcode::JumpRNZMemOffset(-128), 2), Some(-126));
    assert_eq!(jump_destination(Opcode::JumpRNZMemOffset(127), usize::MAX), Some(usize::MAX as i128 + 127));
    assert_eq!(jump_destination(Opcode::Nop, 0x102), None);
    assert_eq!(jump_destination(Opcode::Xor(Register8::A), 0x102), None);
}

#[test]
fn test_indexed_iter_advance() {
    let mut iter = IndexedIter::from_vec(vec![1u8, 2, 3, 4, 5]);
    iter.advance(0);
    assert_eq!(iter.index(), 0);
    iter.advance(2);
    assert_eq!(iter.index(), 2);
    assert_eq!(iter.next(), Some(3));
    iter.advance(2);
    assert_eq!(iter.index(), 5);
    assert_eq!(iter.next(), None);
    let mut iter = IndexedIter::from_vec(vec![1u8, 2, 3]);
    iter.advance(usize::MAX);
    assert_eq!(iter.index(), 3);
}
