use rope::{Rope, RopeReader};
use std::sync::Arc;
use std::task::Poll;
use tokio::io::ReadBuf;

fn sample() -> Rope {
    let mut rope = Rope::new(b"abc".to_vec());
    rope.push_shared_bytes(Arc::new(b"de".to_vec()));
    rope.push_shared_bytes(Arc::new(b"fghi".to_vec()));
    rope
}

fn drain(reader: &mut RopeReader<'_>, step: usize) -> Vec<u8> {
    let mut out = Vec::new();
    let mut memory = vec![0u8; step];
    loop {
        let mut buf = ReadBuf::new(&mut memory);
        let count = reader.read(&mut buf).unwrap();
        assert_eq!(buf.filled().len(), count);
        if count == 0 {
            return out;
        }
        out.extend_from_slice(buf.filled());
    }
}

#[test]
fn a_full_read_yields_the_content_for_every_step() {
    let rope = sample();
    for step in 1..12 {
        let mut reader = rope.read();
        assert_eq!(drain(&mut reader, step), b"abcdefghi");
    }
    let mut reader = RopeReader::new_full(&rope);
    assert_eq!(drain(&mut reader, 1), drain(&mut rope.read(), 100));
}

#[test]
fn a_full_read_yields_the_content_for_changing_steps() {
    let rope = sample();
    let mut reader = rope.read();
    let mut out = Vec::new();
    for step in [2usize, 1, 3, 1, 1, 5, 4, 4] {
        let mut memory = vec![0u8; step];
        let mut buf = ReadBuf::new(&mut memory);
        let count = reader.read(&mut buf).unwrap();
        out.extend_from_slice(buf.filled());
        if count == 0 {
            break;
        }
    }
    assert_eq!(out, b"abcdefghi");
}

#[test]
fn a_read_crosses_chunk_boundaries() {
    let rope = sample();
    let mut reader = rope.read();
    let mut memory = [0u8; 4];
    let mut buf = ReadBuf::new(&mut memory);
    assert_eq!(reader.read(&mut buf).unwrap(), 4);
    assert_eq!(buf.filled(), b"abcd");
    let mut memory = [0u8; 4];
    let mut buf = ReadBuf::new(&mut memory);
    assert_eq!(reader.read(&mut buf).unwrap(), 4);
    assert_eq!(buf.filled(), b"efgh");
    let mut memory = [0u8; 4];
    let mut buf = ReadBuf::new(&mut memory);
    assert_eq!(reader.read(&mut buf).unwrap(), 1);
    assert_eq!(buf.filled(), b"i");
    let mut memory = [0u8; 4];
    let mut buf = ReadBuf::new(&mut memory);
    assert_eq!(reader.read(&mut buf).unwrap(), 0);
    assert_eq!(buf.filled(), b"");
}

#[test]
fn a_read_appends_to_what_the_destination_holds() {
    let rope = sample();
    let mut reader = rope.read();
    let mut memory = [0u8; 6];
    let mut buf = ReadBuf::new(&mut memory);
    buf.put_slice(b"xy");
    assert_eq!(reader.read(&mut buf).unwrap(), 4);
    assert_eq!(buf.filled(), b"xyabcd");
    assert_eq!(buf.remaining(), 0);
    assert_eq!(reader.read(&mut buf).unwrap(), 0);
    assert_eq!(buf.filled(), b"xyabcd");
}

#[test]
fn a_flat_rope_is_read_like_any_other() {
    let rope = Rope::new(b"abcdef".to_vec());
    assert_eq!(drain(&mut rope.read(), 4), b"abcdef");
    assert_eq!(drain(&mut rope.slice(2, 5), 2), b"cde");
    assert_eq!(drain(&mut Rope::default().read(), 4), b"");
}

#[test]
fn slices_yield_their_range() {
    let rope = sample();
    assert_eq!(drain(&mut rope.slice(0, 0), 4), b"");
    assert_eq!(drain(&mut rope.slice(0, 9), 4), b"abcdefghi");
    assert_eq!(drain(&mut rope.slice(2, 6), 4), b"cdef");
    assert_eq!(drain(&mut rope.slice(2, 6), 1), b"cdef");
    assert_eq!(drain(&mut rope.slice(3, 5), 8), b"de");
    assert_eq!(drain(&mut rope.slice(4, 4), 8), b"");
    assert_eq!(drain(&mut rope.slice(9, 9), 8), b"");
    assert_eq!(drain(&mut RopeReader::new_slice(&rope, 1, 8), 3), b"bcdefgh");
}

#[test]
fn every_slice_yields_its_range() {
    let rope = sample();
    let content = rope.flatten().into_owned();
    for start in 0..=content.len() {
        for end in start..=content.len() {
            for step in 1..4 {
                assert_eq!(drain(&mut rope.slice(start, end), step), &content[start..end]);
            }
        }
    }
}

#[test]
fn a_read_stops_at_the_budget() {
    let rope = sample();
    let mut reader = rope.slice(1, 3);
    let mut memory = [0u8; 8];
    let mut buf = ReadBuf::new(&mut memory);
    assert_eq!(reader.read(&mut buf).unwrap(), 2);
    assert_eq!(buf.filled(), b"bc");
    assert_eq!(reader.read(&mut buf).unwrap(), 0);
}

#[test]
fn read_internal_skips_without_a_destination() {
    let rope = sample();
    let mut reader = rope.read();
    let mut nothing: Option<&mut ReadBuf<'_>> = None;
    assert_eq!(reader.read_internal(4, &mut nothing), 4);
    assert_eq!(reader.read_internal(0, &mut nothing), 0);
    assert_eq!(drain(&mut reader, 8), b"efghi");
    assert_eq!(reader.read_internal(4, &mut nothing), 0);
}

#[test]
fn read_internal_produces_no_more_than_it_is_asked_for() {
    let rope = sample();
    let mut reader = rope.read();
    let mut memory = [0u8; 8];
    let mut buf = ReadBuf::new(&mut memory);
    let mut dest = Some(&mut buf);
    assert_eq!(reader.read_internal(2, &mut dest), 2);
    assert_eq!(reader.read_internal(5, &mut dest), 5);
    assert_eq!(buf.filled(), b"abcdefg");
    assert_eq!(drain(&mut reader, 8), b"hi");
}

#[test]
fn a_read_comes_up_short_at_an_empty_chunk() {
    let mut rope = Rope::new(b"ab".to_vec());
    rope.push_shared_bytes(Arc::new(Vec::new()));
    rope.push_shared_bytes(Arc::new(b"cd".to_vec()));
    let mut reader = rope.read();
    let mut memory = [0u8; 8];
    let mut buf = ReadBuf::new(&mut memory);
    assert_eq!(reader.read(&mut buf).unwrap(), 2);
    assert_eq!(buf.filled(), b"ab");
    assert_eq!(reader.read(&mut buf).unwrap(), 2);
    assert_eq!(buf.filled(), b"abcd");
    assert_eq!(reader.read(&mut buf).unwrap(), 0);
}

#[test]
fn a_read_at_an_empty_chunk_steps_over_it() {
    let mut rope = Rope::new(Vec::new());
    rope.push_shared_bytes(Arc::new(b"abc".to_vec()));
    let mut reader = rope.read();
    let mut memory = [0u8; 8];
    let mut buf = ReadBuf::new(&mut memory);
    assert_eq!(reader.read(&mut buf).unwrap(), 0);
    assert_eq!(reader.read(&mut buf).unwrap(), 3);
    assert_eq!(buf.filled(), b"abc");
}

#[test]
fn a_read_that_fills_the_destination_does_not_look_at_the_next_chunk() {
    let mut rope = Rope::new(b"ab".to_vec());
    rope.push_shared_bytes(Arc::new(Vec::new()));
    rope.push_shared_bytes(Arc::new(b"cd".to_vec()));
    let mut reader = rope.read();
    let mut memory = [0u8; 2];
    let mut buf = ReadBuf::new(&mut memory);
    assert_eq!(reader.read(&mut buf).unwrap(), 2);
    let mut memory = [0u8; 2];
    let mut buf = ReadBuf::new(&mut memory);
    assert_eq!(reader.read(&mut buf).unwrap(), 0);
    assert_eq!(reader.read(&mut buf).unwrap(), 2);
    assert_eq!(buf.filled(), b"cd");
}

#[test]
fn a_slice_behind_an_empty_chunk_starts_where_the_skip_stopped() {
    let mut rope = Rope::new(b"ab".to_vec());
    rope.push_shared_bytes(Arc::new(Vec::new()));
    rope.push_shared_bytes(Arc::new(b"cd".to_vec()));
    assert_eq!(drain(&mut rope.slice(0, 2), 8), b"ab");
    assert_eq!(drain(&mut rope.slice(1, 2), 8), b"b");
    assert_eq!(drain(&mut rope.slice(3, 4), 8), b"c");
    assert_eq!(drain(&mut rope.slice(3, 3), 8), b"");
}

#[test]
fn trailing_empty_chunks_do_no_harm() {
    let mut rope = Rope::new(b"ab".to_vec());
    rope.push_shared_bytes(Arc::new(b"cd".to_vec()));
    rope.push_shared_bytes(Arc::new(Vec::new()));
    rope.push_shared_bytes(Arc::new(Vec::new()));
    for step in 1..6 {
        assert_eq!(drain(&mut rope.read(), step), b"abcd");
        assert_eq!(drain(&mut rope.slice(1, 4), step), b"bcd");
    }
}

#[test]
fn poll_read_is_ready_at_once() {
    let rope = sample();
    let mut reader = rope.read();
    let mut memory = [0u8; 5];
    let mut buf = ReadBuf::new(&mut memory);
    assert!(matches!(reader.poll_read(&mut buf), Poll::Ready(Ok(()))));
    assert_eq!(buf.filled(), b"abcde");
    let mut memory = [0u8; 5];
    let mut buf = ReadBuf::new(&mut memory);
    assert!(matches!(reader.poll_read(&mut buf), Poll::Ready(Ok(()))));
    assert_eq!(buf.filled(), b"fghi");
    let mut memory = [0u8; 5];
    let mut buf = ReadBuf::new(&mut memory);
    assert!(matches!(reader.poll_read(&mut buf), Poll::Ready(Ok(()))));
    assert_eq!(buf.filled(), b"");
}

#[test]
fn a_reader_leaves_the_rope_as_it_was() {
    let rope = sample();
    assert_eq!(drain(&mut rope.read(), 2), b"abcdefghi");
    assert_eq!(rope.len(), 9);
    assert_eq!(rope.flatten().as_slice(), b"abcdefghi");
}

#[test]
fn a_destination_with_room_for_the_budget_is_enough() {
    let rope = sample();
    let mut reader = rope.slice(2, 5);
    let mut memory = [0u8; 3];
    let mut buf = ReadBuf::new(&mut memory);
    let mut dest = Some(&mut buf);
    assert_eq!(reader.read_internal(100, &mut dest), 3);
    assert_eq!(buf.filled(), b"cde");
    assert_eq!(buf.remaining(), 0);

    let mut reader = rope.slice(4, 4);
    let mut memory = [0u8; 0];
    let mut buf = ReadBuf::new(&mut memory);
    let mut dest = Some(&mut buf);
    assert_eq!(reader.read_internal(7, &mut dest), 0);
    assert_eq!(buf.filled(), b"");
}
