//! Where bytes lie in a list of chunks: offsets of chunks in the flattened
//! content, and how a cursor moves over them.
use vstd::prelude::*;

verus! {

/// The number of bytes in the first `index` chunks: the offset at which chunk
/// `index` starts in the flattened content.
pub open spec fn offset_of(chunks: Seq<Seq<u8>>, index: int) -> int {
    chunks.take(index).flatten().len() as int
}

/// A cursor is a chunk index and a byte offset into that chunk. It stands
/// inside a chunk, at the start of a chunk, or past the last chunk.
pub open spec fn cursor_ok(chunks: Seq<Seq<u8>>, index: int, byte_pos: int) -> bool {
    &&& 0 <= index <= chunks.len()
    &&& byte_pos == 0 || (index < chunks.len() && 0 < byte_pos < chunks[index].len())
}

/// The number of bytes between the cursor and the next empty chunk, or the end
/// of the chunks if no empty chunk follows: what one read can reach.
pub open spec fn run_len(chunks: Seq<Seq<u8>>, index: int, byte_pos: int) -> int
    decreases chunks.len() - index,
{
    if index < 0 || index >= chunks.len() || chunks[index].len() == 0 {
        0
    } else {
        chunks[index].len() - byte_pos + run_len(chunks, index + 1, 0)
    }
}

/// The cursor `count` bytes further on. A cursor that reaches the end of a
/// chunk moves to the start of the next one.
pub open spec fn locate(chunks: Seq<Seq<u8>>, index: int, byte_pos: int, count: int) -> (int, int)
    decreases chunks.len() - index,
{
    if count <= 0 || index < 0 || index >= chunks.len() {
        (index, byte_pos)
    } else if count < chunks[index].len() - byte_pos {
        (index, byte_pos + count)
    } else {
        locate(chunks, index + 1, 0, count - (chunks[index].len() - byte_pos))
    }
}

/// Where a read leaves the cursor after it produced `count` of the `want`
/// bytes it was asked for. A read that came up short at an empty chunk has
/// stepped over that chunk.
pub open spec fn stop_after(
    chunks: Seq<Seq<u8>>,
    index: int,
    byte_pos: int,
    count: int,
    want: int,
) -> (int, int) {
    let (at, pos) = locate(chunks, index, byte_pos, count);
    if count < want && 0 <= at < chunks.len() && chunks[at].len() == 0 {
        (at + 1, 0)
    } else {
        (at, pos)
    }
}

/// The smallest of three numbers.
pub open spec fn min3(a: int, b: int, c: int) -> int {
    if a <= b && a <= c {
        a
    } else if b <= c {
        b
    } else {
        c
    }
}

/// A chunk ends where the next one starts.
pub proof fn lemma_offset_step(chunks: Seq<Seq<u8>>, index: int)
    requires
        0 <= index < chunks.len(),
    ensures
        offset_of(chunks, index + 1) == offset_of(chunks, index) + chunks[index].len(),
{
    assert(chunks.take(index + 1) =~= chunks.take(index).push(chunks[index]));
    chunks.take(index).lemma_flatten_push(chunks[index]);
}

/// Each chunk is a stretch of the flattened content, starting at its offset.
pub proof fn lemma_chunk_in_content(chunks: Seq<Seq<u8>>, index: int)
    requires
        0 <= index < chunks.len(),
    ensures
        offset_of(chunks, index) + chunks[index].len() <= chunks.flatten().len(),
        chunks.flatten().subrange(
            offset_of(chunks, index),
            offset_of(chunks, index) + chunks[index].len(),
        ) == chunks[index],
{
    let head = chunks.take(index);
    let tail = chunks.skip(index + 1);
    assert(chunks =~= head.push(chunks[index]) + tail);
    vstd::seq_lib::lemma_flatten_concat(head.push(chunks[index]), tail);
    head.lemma_flatten_push(chunks[index]);
}

/// The offset past the last chunk is the length of the content.
pub proof fn lemma_offset_end(chunks: Seq<Seq<u8>>)
    ensures
        offset_of(chunks, chunks.len() as int) == chunks.flatten().len(),
{
    assert(chunks.take(chunks.len() as int) =~= chunks);
}

/// A cursor lies within the content, and so does the stretch it can reach.
pub proof fn lemma_run_within_content(chunks: Seq<Seq<u8>>, index: int, byte_pos: int)
    requires
        cursor_ok(chunks, index, byte_pos),
    ensures
        0 <= offset_of(chunks, index),
        0 <= run_len(chunks, index, byte_pos),
        offset_of(chunks, index) + byte_pos + run_len(chunks, index, byte_pos)
            <= chunks.flatten().len(),
    decreases chunks.len() - index,
{
    if index >= chunks.len() {
        lemma_offset_end(chunks);
    } else {
        lemma_chunk_in_content(chunks, index);
        if chunks[index].len() > 0 {
            lemma_offset_step(chunks, index);
            lemma_run_within_content(chunks, index + 1, 0);
        }
    }
}

/// Moving a cursor by no more than it can reach gives a cursor again: it lies
/// that many bytes further on in the content, and reaches that much less.
pub proof fn lemma_locate(chunks: Seq<Seq<u8>>, index: int, byte_pos: int, count: int)
    requires
        cursor_ok(chunks, index, byte_pos),
        0 <= count <= run_len(chunks, index, byte_pos),
    ensures
        ({
            let (at, pos) = locate(chunks, index, byte_pos, count);
            &&& cursor_ok(chunks, at, pos)
            &&& index <= at
            &&& offset_of(chunks, at) + pos == offset_of(chunks, index) + byte_pos + count
            &&& run_len(chunks, at, pos) == run_len(chunks, index, byte_pos) - count
        }),
    decreases chunks.len() - index,
{
    if count == 0 || index >= chunks.len() {
    } else if count < chunks[index].len() - byte_pos {
    } else {
        lemma_offset_step(chunks, index);
        lemma_locate(chunks, index + 1, 0, count - (chunks[index].len() - byte_pos));
    }
}

/// Moving a cursor in two steps is moving it by the sum of the steps.
pub proof fn lemma_locate_twice(
    chunks: Seq<Seq<u8>>,
    index: int,
    byte_pos: int,
    first: int,
    second: int,
)
    requires
        cursor_ok(chunks, index, byte_pos),
        0 <= first,
        0 <= second,
    ensures
        ({
            let (at, pos) = locate(chunks, index, byte_pos, first);
            locate(chunks, at, pos, second) == locate(chunks, index, byte_pos, first + second)
        }),
    decreases chunks.len() - index,
{
    if first == 0 || index >= chunks.len() {
    } else if first < chunks[index].len() - byte_pos {
    } else {
        lemma_locate_twice(
            chunks,
            index + 1,
            0,
            first - (chunks[index].len() - byte_pos),
            second,
        );
    }
}

/// One step of a read: the cursor stands `done` bytes after where the read
/// began and takes `got` more bytes from the chunk it is in.
pub proof fn lemma_read_step(
    chunks: Seq<Seq<u8>>,
    start: (int, int),
    done: int,
    at: (int, int),
    got: int,
)
    requires
        cursor_ok(chunks, start.0, start.1),
        0 <= done,
        at == locate(chunks, start.0, start.1, done),
        cursor_ok(chunks, at.0, at.1),
        at.0 < chunks.len(),
        0 < got <= chunks[at.0].len() - at.1,
    ensures
        ({
            let next = if at.1 + got == chunks[at.0].len() {
                (at.0 + 1, 0int)
            } else {
                (at.0, at.1 + got)
            };
            &&& locate(chunks, start.0, start.1, done + got) == next
            &&& cursor_ok(chunks, next.0, next.1)
            &&& run_len(chunks, next.0, next.1) == run_len(chunks, at.0, at.1) - got
            &&& 0 <= run_len(chunks, next.0, next.1)
            &&& offset_of(chunks, next.0) + next.1 == offset_of(chunks, at.0) + at.1 + got
            &&& offset_of(chunks, at.0) + at.1 + got <= chunks.flatten().len()
            &&& chunks.flatten().subrange(
                offset_of(chunks, at.0) + at.1,
                offset_of(chunks, at.0) + at.1 + got,
            ) == chunks[at.0].subrange(at.1, at.1 + got)
        }),
{
    lemma_locate_twice(chunks, start.0, start.1, done, got);
    assert(locate(chunks, at.0 + 1, 0, 0) == (at.0 + 1, 0int));
    lemma_offset_step(chunks, at.0);
    lemma_chunk_in_content(chunks, at.0);
    lemma_run_within_content(chunks, at.0 + 1, 0);
}

/// The number of bytes a read produces: no more than it is asked for, than
/// the budget allows, and than it can reach.
pub open spec fn read_count(
    chunks: Seq<Seq<u8>>,
    index: int,
    byte_pos: int,
    budget: int,
    want: int,
) -> int {
    min3(want, budget, run_len(chunks, index, byte_pos))
}

/// The bytes that come out of a cursor with a budget when it is read until a
/// read produces nothing. The read number `round`, counted from zero, is asked
/// for `sizes(round)` bytes; `round` is the number of the read that comes next.
pub open spec fn drained(
    chunks: Seq<Seq<u8>>,
    index: int,
    byte_pos: int,
    budget: int,
    sizes: spec_fn(nat) -> int,
    round: nat,
) -> Seq<u8>
    decreases budget,
{
    let count = read_count(chunks, index, byte_pos, budget, sizes(round));
    if count <= 0 {
        Seq::empty()
    } else {
        let from = offset_of(chunks, index) + byte_pos;
        let next = stop_after(chunks, index, byte_pos, count, sizes(round));
        chunks.flatten().subrange(from, from + count) + drained(
            chunks,
            next.0,
            next.1,
            budget - count,
            sizes,
            round + 1,
        )
    }
}

/// The stretch of the content that starts at `from` and is `budget` bytes
/// long, or ends with the content if that comes first.
pub open spec fn window(content: Seq<u8>, from: int, budget: int) -> Seq<u8> {
    let end = if from + budget <= content.len() {
        from + budget
    } else {
        content.len() as int
    };
    content.subrange(from, end)
}

/// Reading until nothing comes yields exactly the window under the cursor, in
/// order, whatever the sizes of the single reads, provided that no empty chunk
/// lies before the end of the window.
pub proof fn lemma_drained(
    chunks: Seq<Seq<u8>>,
    index: int,
    byte_pos: int,
    budget: int,
    sizes: spec_fn(nat) -> int,
    round: nat,
)
    requires
        cursor_ok(chunks, index, byte_pos),
        0 <= budget,
        forall|n: nat| 0 < #[trigger] sizes(n),
        window(chunks.flatten(), offset_of(chunks, index) + byte_pos, budget).len() <= run_len(
            chunks,
            index,
            byte_pos,
        ),
    ensures
        drained(chunks, index, byte_pos, budget, sizes, round) == window(
            chunks.flatten(),
            offset_of(chunks, index) + byte_pos,
            budget,
        ),
    decreases budget,
{
    let want = sizes(round);
    let count = read_count(chunks, index, byte_pos, budget, want);
    lemma_run_within_content(chunks, index, byte_pos);
    if count > 0 {
        lemma_locate(chunks, index, byte_pos, count);
        let at = locate(chunks, index, byte_pos, count);
        let next = stop_after(chunks, index, byte_pos, count, want);
        if next != at {
            lemma_offset_step(chunks, at.0);
        }
        lemma_run_within_content(chunks, next.0, next.1);
        lemma_drained(chunks, next.0, next.1, budget - count, sizes, round + 1);
    }
}

} // verus!
