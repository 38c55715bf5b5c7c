use gb::annotations::{Annotation, AnnotationError, Purpose};
use std::collections::BTreeMap;

fn annotation(location: usize, purpose: Purpose, value: &str) -> Annotation {
    Annotation { location, purpose, value: value.to_string() }
}

#[test]
fn test_purpose_from() {
    assert_eq!(Purpose::from_char("C").unwrap(), Purpose::Comment);
    assert_eq!(Purpose::from_char("S").unwrap(), Purpose::Section);
    assert_eq!(Purpose::from_char("G").unwrap(), Purpose::Goto);
    assert_eq!(Purpose::from_char("L").unwrap(), Purpose::Label);
    assert_eq!(Purpose::from_char("D").unwrap(), Purpose::Data);
}

#[test]
fn test_purpose_from_invalid() {
    assert!(matches!(
        Purpose::from_char("Q").unwrap_err(),
        AnnotationError::InvalidMnemonic(_err)
    ));
}

#[test]
fn test_annotation_from() {
    let line = "0x1234 C some comment";
    let expected = Annotation {
        location: 0x1234,
        purpose: Purpose::Comment,
        value: "some comment".to_string(),
    };
    assert_eq!(Annotation::from_line(line).unwrap(), expected);
}

#[test]
fn test_annotation_from_invalid_line() {
    let line = "0x1234 C";
    assert!(Annotation::from_line(line).is_err());
}

#[test]
fn test_annotation_parse() {
    let data = "0x1234 C comment\n0x5678 S section".to_string();
    let mut expected = BTreeMap::new();
    expected.insert(
        0x1234,
        vec![Annotation {
            location: 0x1234,
            purpose: Purpose::Comment,
            value: "comment".to_string(),
        }],
    );
    expected.insert(
        0x5678,
        vec![Annotation {
            location: 0x5678,
            purpose: Purpose::Section,
            value: "section".to_string(),
        }],
    );
    assert_eq!(Annotation::parse(&data).unwrap(), expected);
}

#[test]
fn test_annotation_parse_invalid_data() {
    let data = "0x1234 C value\n0x567w S test".to_string();
    assert!(matches!(
        Annotation::parse(&data).unwrap_err(),
        AnnotationError::ParseError(_err)
    ));

    let data = "0x1234 C\n0x567a S test".to_string();
    assert!(matches!(
        Annotation::parse(&data).unwrap_err(),
        AnnotationError::MissingField
    ));

    let data = "0x1234 C test\n0x567a W test".to_string();
    assert!(matches!(
        Annotation::parse(&data).unwrap_err(),
        AnnotationError::InvalidMnemonic(_err)
    ));
}

#[test]
fn test_annotation_parse_groups_one_address() {
    let map = Annotation::parse("0x10 D 0x05\n0x10 C hello").unwrap();
    assert_eq!(map.len(), 1);
    assert_eq!(
        map[&0x10],
        vec![annotation(0x10, Purpose::Data, "0x05"), annotation(0x10, Purpose::Comment, "hello")]
    );
}

#[test]
fn test_annotation_parse_sorts_and_keeps_order() {
    let data = "0x30 C c1\n0x10 C a1\n0x20 L b1\n0x10 G a2\n0x30 S c2\n0x10 D a3";
    let map = Annotation::parse(data).unwrap();
    let keys: Vec<usize> = map.keys().copied().collect();
    assert_eq!(keys, vec![0x10, 0x20, 0x30]);
    assert_eq!(
        map[&0x10],
        vec![
            annotation(0x10, Purpose::Comment, "a1"),
            annotation(0x10, Purpose::Goto, "a2"),
            annotation(0x10, Purpose::Data, "a3"),
        ]
    );
    assert_eq!(map[&0x20], vec![annotation(0x20, Purpose::Label, "b1")]);
    assert_eq!(
        map[&0x30],
        vec![annotation(0x30, Purpose::Comment, "c1"), annotation(0x30, Purpose::Section, "c2")]
    );
}

#[test]
fn test_annotation_parse_passes_over_blank_and_comment_lines() {
    let data = "\n# a comment line\n   \n\t\n0x1 C one\n\n#0x2 C two\n0x3 C three\n";
    let map = Annotation::parse(data).unwrap();
    let keys: Vec<usize> = map.keys().copied().collect();
    assert_eq!(keys, vec![1, 3]);
    assert!(Annotation::parse("").unwrap().is_empty());
    assert!(Annotation::parse("\n\n").unwrap().is_empty());
    assert!(Annotation::parse("\u{a0}\u{2003}\u{3000}").unwrap().is_empty());
    // A line that starts with a space and then holds text is no blank line.
    assert!(matches!(
        Annotation::parse(" # indented").unwrap_err(),
        AnnotationError::ParseError(_)
    ));
}

#[test]
fn test_annotation_first_failure_wins() {
    let data = "0x1 C ok\n0x2 Q bad letter\n0x3w C bad number\nshort";
    assert!(matches!(
        Annotation::parse(data).unwrap_err(),
        AnnotationError::InvalidMnemonic(letter) if letter == "Q"
    ));
    // Within one line the address is read before the purpose letter.
    assert!(matches!(
        Annotation::from_line("0xzz Q value").unwrap_err(),
        AnnotationError::ParseError(_)
    ));
}

#[test]
fn test_annotation_addresses() {
    assert_eq!(Annotation::from_line("1f C v").unwrap().location, 0x1f);
    assert_eq!(Annotation::from_line("0x1F C v").unwrap().location, 0x1f);
    assert_eq!(Annotation::from_line("0x0x10 C v").unwrap().location, 0x10);
    assert_eq!(Annotation::from_line("+a C v").unwrap().location, 10);
    assert_eq!(Annotation::from_line("0x+a C v").unwrap().location, 10);
    assert_eq!(Annotation::from_line("0x0 C v").unwrap().location, 0);
    assert_eq!(Annotation::from_line("00000000000000000000001 C v").unwrap().location, 1);
    assert_eq!(Annotation::from_line("0xffffffff C v").unwrap().location, 0xffff_ffff);
    for bad in ["0x C v", " C v", "0X10 C v", "-1 C v", "0x1g C v", "x10 C v", "+ C v", "1_0 C v"] {
        assert!(matches!(
            Annotation::from_line(bad).unwrap_err(),
            AnnotationError::ParseError(_)
        ));
    }
    let too_big = format!("0x1{} C v", "0".repeat(usize::BITS as usize / 4));
    assert!(matches!(
        Annotation::from_line(&too_big).unwrap_err(),
        AnnotationError::ParseError(_)
    ));
}

#[test]
fn test_annotation_fields() {
    assert_eq!(
        Annotation::from_line("0x10 L  two  spaces ").unwrap(),
        annotation(0x10, Purpose::Label, " two  spaces ")
    );
    assert_eq!(Annotation::from_line("0x10 D ").unwrap(), annotation(0x10, Purpose::Data, ""));
    assert_eq!(
        Annotation::from_line("0x10 C caf\u{e9} \u{2603}").unwrap(),
        annotation(0x10, Purpose::Comment, "caf\u{e9} \u{2603}")
    );
    for short in ["", "0x10", "0x10 C", "nospaces"] {
        assert!(matches!(
            Annotation::from_line(short).unwrap_err(),
            AnnotationError::MissingField
        ));
    }
    for letter in ["c", "CC", "", "X", "\u{e9}"] {
        let line = format!("0x10 {} value", letter);
        assert!(matches!(
            Annotation::from_line(&line).unwrap_err(),
            AnnotationError::InvalidMnemonic(found) if found == letter
        ));
    }
}
