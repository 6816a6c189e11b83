use rope::RopeElem;

#[test]
fn an_owned_chunk_shows_its_text() {
    let elem = RopeElem::new(b"hello".to_vec());
    assert_eq!(elem.fmt(), "Owned(\"hello\")");
}

#[test]
fn a_shared_chunk_says_so() {
    let elem = RopeElem::new(b"hello".to_vec());
    let other = elem.clone();
    assert_eq!(elem.fmt(), "Shared(\"hello\")");
    assert_eq!(other.fmt(), "Shared(\"hello\")");
    drop(other);
    assert_eq!(elem.fmt(), "Owned(\"hello\")");
}

#[test]
fn bytes_that_are_no_text_show_a_placeholder() {
    let elem = RopeElem::new(vec![0xff, 0xfe]);
    assert_eq!(elem.shown_text(), "[u8 bytes]");
    assert_eq!(elem.fmt(), "Owned(\"[u8 bytes]\")");
}

#[test]
fn text_is_shown_in_its_debug_form() {
    let elem = RopeElem::new(b"a\"b\n".to_vec());
    assert_eq!(elem.shown_text(), "a\"b\n");
    assert_eq!(elem.fmt(), "Owned(\"a\\\"b\\n\")");
}

#[test]
fn ownership_labels() {
    assert_eq!(RopeElem::ownership(0), "Owned");
    assert_eq!(RopeElem::ownership(1), "Owned");
    assert_eq!(RopeElem::ownership(2), "Shared");
    assert_eq!(RopeElem::ownership(usize::MAX), "Shared");
}

#[test]
fn a_label_and_a_text_are_put_together() {
    assert_eq!(RopeElem::labelled("Owned", "hi"), "Owned(\"hi\")");
    assert_eq!(RopeElem::labelled("Shared", ""), "Shared(\"\")");
    assert_eq!(RopeElem::labelled("Owned", "a\tb"), "Owned(\"a\\tb\")");
    assert_eq!(RopeElem::new(b"hi".to_vec()).fmt(), RopeElem::labelled("Owned", "hi"));
}
