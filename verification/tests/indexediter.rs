use gb::indexediter::IndexedIter;

#[test]
fn test_indexed_iter_empty_vec() {
    let mut iter = IndexedIter::from_vec(Vec::<u8>::new());
    assert_eq!(iter.index(), 0);
    assert_eq!(iter.next(), None);
    assert_eq!(iter.index(), 0);
}

#[test]
fn test_indexed_iter_single_element_vec() {
    let mut iter = IndexedIter::from_vec(vec![1]);
    assert_eq!(iter.next(), Some(1));
    assert_eq!(iter.index(), 1);
    assert_eq!(iter.next(), None);
    assert_eq!(iter.index(), 1);
}

#[test]
fn test_indexed_iter_multi_element_vec() {
    let mut iter = IndexedIter::from_vec(vec![1, 2, 3]);
    assert_eq!(iter.next(), Some(1));
    assert_eq!(iter.index(), 1);

    assert_eq!(iter.next(), Some(2));
    assert_eq!(iter.index(), 2);

    assert_eq!(iter.next(), Some(3));
    assert_eq!(iter.index(), 3);

    assert_eq!(iter.next(), None);
    assert_eq!(iter.index(), 3);
}

#[test]
fn test_indexed_iter_peek_does_not_consume() {
    let mut iter = IndexedIter::from_vec(vec![7u8, 9u8]);
    assert_eq!(iter.peek(), Some(7));
    assert_eq!(iter.peek(), Some(7));
    assert_eq!(iter.index(), 0);
    assert_eq!(iter.remaining_len(), 2);
    assert_eq!(iter.next(), Some(7));
    assert_eq!(iter.peek(), Some(9));
    assert_eq!(iter.remaining_len(), 1);
    assert_eq!(iter.next(), Some(9));
    assert_eq!(iter.peek(), None);
    assert_eq!(iter.remaining_len(), 0);
    assert_eq!(iter.index(), 2);
}
