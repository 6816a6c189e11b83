use rope::Rope;
use std::collections::hash_map::DefaultHasher;
use std::hash::Hasher;
use std::sync::Arc;

fn in_pieces(bytes: &[u8], size: usize) -> Rope {
    let mut rope = Rope::Concat { length: 0, data: Vec::new() };
    for piece in bytes.chunks(size) {
        rope.push_shared_bytes(Arc::new(piece.to_vec()));
    }
    rope
}

fn std_hash(rope: &Rope) -> u64 {
    let mut state = DefaultHasher::new();
    rope.hash(&mut state);
    state.finish()
}

#[test]
fn equal_content_in_other_chunks_is_equal() {
    let content = b"the quick brown fox jumps over the lazy dog";
    let whole = Rope::new(content.to_vec());
    let pieces = in_pieces(content, 3);
    let bytes = in_pieces(content, 1);
    assert!(whole == pieces);
    assert!(pieces == whole);
    assert!(pieces == bytes);
    assert_eq!(whole.content_hash(), pieces.content_hash());
    assert_eq!(whole.content_hash(), bytes.content_hash());
    assert_eq!(std_hash(&whole), std_hash(&pieces));
    assert_eq!(std_hash(&whole), std_hash(&bytes));
}

#[test]
fn equal_content_of_many_chunks_is_equal() {
    let content: Vec<u8> = (0..1000u32).map(|i| (i % 251) as u8).collect();
    let whole = Rope::new(content.clone());
    let pieces = in_pieces(&content, 256);
    let odd = in_pieces(&content, 300);
    assert!(whole == pieces);
    assert!(whole == odd);
    assert_eq!(whole.content_hash(), odd.content_hash());
    assert_eq!(std_hash(&pieces), std_hash(&odd));
}

#[test]
fn different_lengths_are_not_equal() {
    let short = Rope::new(b"abc".to_vec());
    let long = Rope::new(b"abcd".to_vec());
    assert!(short != long);
    assert!(long != short);
    assert!(Rope::default() != short);
}

#[test]
fn different_content_of_one_length_is_not_equal() {
    let one = Rope::new(b"abc".to_vec());
    let other = Rope::new(b"abd".to_vec());
    assert!(one != other);
    assert_ne!(one.content_hash(), other.content_hash());
}

#[test]
fn empty_ropes_are_equal() {
    let mut list = Rope::default();
    list.concat(&Rope::default());
    assert!(Rope::default() == list);
    assert!(Rope::default() == Rope::new(Vec::new()));
}

#[test]
fn content_hash_is_the_xxh3_digest_of_the_content() {
    let rope = in_pieces(b"hello world!", 5);
    assert_eq!(rope.content_hash(), twox_hash::xxh3::hash64(b"hello world!"));
    assert_eq!(Rope::default().content_hash(), twox_hash::xxh3::hash64(b""));
}

#[test]
fn content_hash_of_known_content() {
    assert_eq!(Rope::new(b"abc".to_vec()).content_hash(), 0xd39e_eb71_bb53_42e8);
    assert_eq!(Rope::default().content_hash(), 0);
}

#[test]
fn same_content_needs_both_length_and_hash() {
    assert!(Rope::same_content(3, 7, 3, 7));
    assert!(!Rope::same_content(3, 7, 4, 7));
    assert!(!Rope::same_content(3, 7, 3, 8));
    assert!(!Rope::same_content(3, 7, 4, 8));
}

#[test]
fn hash_feeds_the_content_in_one_write() {
    let rope = in_pieces(b"hello world!", 5);
    let mut expected = DefaultHasher::new();
    expected.write(b"hello world!");
    assert_eq!(std_hash(&rope), expected.finish());
}
