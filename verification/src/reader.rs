//! A cursor over a rope, or over a range of it, that hands out the bytes in
//! order, across chunk boundaries.
use crate::buffer::Rope;
use crate::chunk::RopeElem;
use crate::layout::{
    cursor_ok, drained, lemma_drained, lemma_locate, lemma_offset_step, lemma_read_step,
    lemma_run_within_content, locate, min3, offset_of, read_count, run_len, stop_after, window,
};
use crate::sink::{capacity, filled, put_slice, remaining, room};
use std::task::Poll;
use tokio::io::ReadBuf;
use vstd::prelude::*;

verus! {

/// Reads a rope from a position on, up to a budget of bytes.
pub struct RopeReader<'a> {
    rope: &'a Rope,
    byte_pos: usize,
    concat_index: usize,
    max_bytes: usize,
}

impl<'a> View for RopeReader<'a> {
    type V = Seq<u8>;

    /// The bytes that are still to be read: the content from the cursor on, as
    /// far as the budget goes.
    open spec fn view(&self) -> Seq<u8> {
        window(self.rope()@, self.position(), self.budget())
    }
}

impl<'a> RopeReader<'a> {
    /// The rope that is read.
    pub closed spec fn rope(&self) -> Rope {
        *self.rope
    }

    /// The index of the chunk the cursor is in.
    pub closed spec fn index(&self) -> int {
        self.concat_index as int
    }

    /// The offset of the cursor in its chunk.
    pub closed spec fn byte_pos(&self) -> int {
        self.byte_pos as int
    }

    /// The number of bytes the reader may still hand out.
    pub closed spec fn budget(&self) -> int {
        self.max_bytes as int
    }

    /// The chunks of the rope that is read.
    pub open spec fn chunks(&self) -> Seq<Seq<u8>> {
        self.rope().chunks()
    }

    /// The rope is well formed and the cursor lies in it.
    pub open spec fn wf(&self) -> bool {
        &&& self.rope().wf()
        &&& cursor_ok(self.chunks(), self.index(), self.byte_pos())
        &&& 0 <= self.budget()
    }

    #[verifier::type_invariant]
    spec fn inv(&self) -> bool {
        self.wf()
    }

    /// The offset of the cursor in the content of the rope.
    pub open spec fn position(&self) -> int {
        offset_of(self.chunks(), self.index()) + self.byte_pos()
    }

    /// The number of bytes one read can reach from the cursor: those up to the
    /// next empty chunk, or to the end of the rope.
    pub open spec fn reach(&self) -> int {
        run_len(self.chunks(), self.index(), self.byte_pos())
    }

    /// The number of bytes a read produces that is asked for `want` bytes.
    pub open spec fn read_len(&self, want: int) -> int {
        read_count(self.chunks(), self.index(), self.byte_pos(), self.budget(), want)
    }

    /// `self` is the reader that a read of `count` bytes, asked for `want`,
    /// leaves behind when it starts from `before`.
    pub open spec fn follows(&self, before: &Self, count: int, want: int) -> bool {
        &&& self.rope() == before.rope()
        &&& (self.index(), self.byte_pos()) == stop_after(
            before.chunks(),
            before.index(),
            before.byte_pos(),
            count,
            want,
        )
        &&& self.budget() == before.budget() - count
    }

    /// `self` is what a read leaves of the reader `before`, when the read was
    /// asked for `want` bytes and produced `count`.
    pub open spec fn delivered(&self, before: &Self, count: int, want: int) -> bool {
        &&& count == before.read_len(want)
        &&& self.follows(before, count, want)
        &&& self.wf()
        &&& self@ == before@.skip(count)
    }

    /// The bytes that come out of the reader when it is read until a read
    /// produces nothing. The read number `round`, counted from zero, is into a
    /// destination with room for `sizes(round)` bytes; `round` is the number
    /// of the read that comes next.
    pub open spec fn drained(&self, sizes: spec_fn(nat) -> int, round: nat) -> Seq<u8> {
        drained(self.chunks(), self.index(), self.byte_pos(), self.budget(), sizes, round)
    }

    /// `self` is the reader over the whole of `rope`: it stands at the start,
    /// with the length of the rope as its budget.
    pub open spec fn is_full(&self, rope: &Rope) -> bool {
        &&& self.wf()
        &&& self.rope() == *rope
        &&& self.index() == 0
        &&& self.byte_pos() == 0
        &&& self.budget() == rope@.len()
    }

    /// `self` is the reader over the bytes of `rope` from `start` up to `end`:
    /// it stands where a read for `start` bytes leaves the reader over the
    /// whole of `rope`, with `end - start` as its budget.
    pub open spec fn is_slice(&self, rope: &Rope, start: int, end: int) -> bool {
        &&& self.wf()
        &&& self.rope() == *rope
        &&& (self.index(), self.byte_pos()) == stop_after(
            rope.chunks(),
            0,
            0,
            read_count(rope.chunks(), 0, 0, rope@.len() as int, start),
            start,
        )
        &&& self.budget() == end - start
    }

    /// A reader over the whole of `rope`.
    pub fn new_full(rope: &'a Rope) -> (reader: Self)
        requires
            rope.wf(),
        ensures
            reader.is_full(rope),
            reader@ == rope@,
    {
        RopeReader { rope, byte_pos: 0, concat_index: 0, max_bytes: rope.len() }
    }

    /// Takes bytes from `bytes`, the chunk under the cursor: as many as the
    /// chunk still has, but no more than `remaining` nor than the budget.
    /// Copies them to `buf`, if there is one, and moves the cursor past them.
    /// The budget is left for the caller to lower.
    fn read_bytes(
        &mut self,
        bytes: &Vec<u8>,
        remaining: usize,
        buf: &mut Option<&mut ReadBuf<'_>>,
    ) -> (amount: usize)
        requires
            old(self).index() < old(self).chunks().len() <= usize::MAX,
            bytes@ == old(self).chunks()[old(self).index()],
            *old(buf) matches Some(dest) ==> remaining <= room(&*dest) || old(self).budget()
                <= room(&*dest),
        ensures
            amount == min3(
                bytes@.len() - old(self).byte_pos(),
                remaining as int,
                old(self).budget(),
            ),
            final(self).rope() == old(self).rope(),
            final(self).budget() == old(self).budget(),
            final(self).index() == old(self).index() + (if old(self).byte_pos() + amount
                == bytes@.len() {
                1int
            } else {
                0int
            }),
            final(self).byte_pos() == (if old(self).byte_pos() + amount == bytes@.len() {
                0int
            } else {
                old(self).byte_pos() + amount
            }),
            *old(buf) is Some <==> *final(buf) is Some,
            *old(buf) matches Some(dest) ==> {
                &&& filled(&*final(buf).unwrap()) == filled(&*dest) + bytes@.subrange(
                    old(self).byte_pos(),
                    old(self).byte_pos() + amount,
                )
                &&& capacity(&*final(buf).unwrap()) == capacity(&*dest)
                &&& *final(final(buf).unwrap()) == *final(dest)
            },
    {
        proof {
            use_type_invariant(&*self);
        }
        let pos: usize = self.byte_pos;
        let mut amount: usize = bytes.len() - pos;
        if remaining < amount {
            amount = remaining;
        }
        if self.max_bytes < amount {
            amount = self.max_bytes;
        }
        let end: usize = pos + amount;

        if end == bytes.len() {
            self.byte_pos = 0;
            self.concat_index += 1;
        } else {
            self.byte_pos = end;
        }

        match buf {
            Some(dest) => {
                put_slice(*dest, &bytes[pos..end]);
            },
            None => {},
        }
        amount
    }

    /// The chunk under the cursor, if the cursor is not past the last chunk.
    fn current(&self) -> (chunk: Option<&'a RopeElem>)
        ensures
            match chunk {
                Some(elem) => self.index() < self.chunks().len() <= usize::MAX && elem@
                    == self.chunks()[self.index()],
                None => self.index() >= self.chunks().len(),
            },
    {
        let rope: &'a Rope = self.rope;
        match rope {
            Rope::Flat(el) => {
                if self.concat_index > 0 {
                    None
                } else {
                    Some(el)
                }
            },
            Rope::Concat { data, .. } => {
                if self.concat_index >= data.len() {
                    None
                } else {
                    Some(&data[self.concat_index])
                }
            },
        }
    }

    /// The core of every read: produces up to `want` bytes, chunk by chunk,
    /// into `buf` if there is one, and only moves the cursor if there is none.
    /// It stops when `want` bytes are produced, when the budget is used up,
    /// when no chunk is left, or at an empty chunk, which it steps over.
    /// Returns the number of bytes produced. No more than `want` bytes and no
    /// more than the budget are ever produced, so `buf` needs room for the
    /// smaller of the two.
    pub fn read_internal(&mut self, want: usize, buf: &mut Option<&mut ReadBuf<'_>>) -> (count:
        usize)
        requires
            *old(buf) matches Some(dest) ==> want <= room(&*dest) || old(self).budget() <= room(
                &*dest,
            ),
        ensures
            final(self).delivered(old(self), count as int, want as int),
            final(self).position() == old(self).position() + count,
            *old(buf) is Some <==> *final(buf) is Some,
            *old(buf) matches Some(dest) ==> {
                &&& filled(&*final(buf).unwrap()) == filled(&*dest) + old(self)@.take(count as int)
                &&& capacity(&*final(buf).unwrap()) == capacity(&*dest)
                &&& *final(final(buf).unwrap()) == *final(dest)
            },
    {
        proof {
            use_type_invariant(&*self);
            Self::lemma_start(old(self));
        }
        let ghost content = self.rope()@;
        let ghost from = self.position();
        let mut remaining: usize = want;

        while remaining > 0
            invariant
                remaining <= want,
                content == old(self).rope()@,
                from == old(self).position(),
                self.advanced(old(self), want - remaining),
                *old(buf) is Some <==> *buf is Some,
                *old(buf) matches Some(dest) ==> {
                    &&& want <= room(&*dest) || old(self).budget() <= room(&*dest)
                    &&& filled(&*buf.unwrap()) == filled(&*dest) + content.subrange(
                        from,
                        from + (want - remaining),
                    )
                    &&& capacity(&*buf.unwrap()) == capacity(&*dest)
                    &&& *final(buf.unwrap()) == *final(dest)
                },
            decreases remaining,
        {
            let ghost before = *self;
            let el: &RopeElem = match self.current() {
                Some(el) => el,
                None => {
                    proof {
                        let done = want - remaining;
                        Self::lemma_stop(old(self), &before, &before, done, want as int);
                    }
                    return want - remaining;
                },
            };
            let got: usize = self.read_bytes(&el.0, remaining, buf);
            if got == 0 {
                proof {
                    let done = want - remaining;
                    Self::lemma_stop(old(self), &before, &*self, done, want as int);
                }
                return want - remaining;
            }
            let ghost moved = *self;
            remaining -= got;
            self.max_bytes -= got;
            proof {
                let done = want - remaining - got;
                Self::lemma_step(old(self), &before, &moved, &*self, done, got as int);
            }
        }
        proof {
            Self::lemma_stop(old(self), &*self, &*self, want as int, want as int);
        }
        want - remaining
    }

    /// A reader over the bytes from `start` up to `end`: a reader over the
    /// whole rope that has read `start` bytes into nothing and has a budget
    /// of `end - start` bytes left.
    pub fn new_slice(rope: &'a Rope, start: usize, end: usize) -> (reader: Self)
        requires
            rope.wf(),
            start <= end <= rope@.len(),
        ensures
            reader.is_slice(rope, start as int, end as int),
            start <= run_len(rope.chunks(), 0, 0) || start == end ==> reader@ == rope@.subrange(
                start as int,
                end as int,
            ),
    {
        let mut reader = RopeReader::new_full(rope);
        let mut nothing: Option<&mut ReadBuf<'_>> = None;
        reader.read_internal(start, &mut nothing);
        reader.max_bytes = end - start;
        reader
    }

    /// Reads into the room that is left in `buf`, and returns the number of
    /// bytes read. It never fails. Zero bytes mean that `buf` was full, that
    /// the budget is used up, or that the cursor stood at an empty chunk or at
    /// the end of the rope.
    pub fn read(&mut self, buf: &mut ReadBuf<'_>) -> (result: Result<usize, std::io::Error>)
        ensures
            result is Ok,
            final(self).delivered(old(self), result.unwrap() as int, room(old(buf))),
            filled(final(buf)) == filled(old(buf)) + old(self)@.take(result.unwrap() as int),
            capacity(final(buf)) == capacity(old(buf)),
    {
        let want: usize = remaining(buf);
        let mut dest = Some(buf);
        let count: usize = self.read_internal(want, &mut dest);
        Ok(count)
    }

    /// The read of a poll-based consumer. All bytes are in memory, so the
    /// read is done when the call returns: the result is always ready, and
    /// never an error.
    pub fn poll_read(&mut self, buf: &mut ReadBuf<'_>) -> (result: Poll<
        Result<(), std::io::Error>,
    >)
        ensures
            result matches Poll::Ready(Ok(_)),
            final(self).delivered(
                old(self),
                old(self).read_len(room(old(buf))),
                room(old(buf)),
            ),
            filled(final(buf)) == filled(old(buf)) + old(self)@.take(
                old(self).read_len(room(old(buf))),
            ),
            capacity(final(buf)) == capacity(old(buf)),
    {
        let want: usize = remaining(buf);
        let mut dest = Some(buf);
        self.read_internal(want, &mut dest);
        Poll::Ready(Ok(()))
    }

    /// Reading to exhaustion is reading once and, unless nothing came, reading
    /// what is left to exhaustion.
    pub proof fn lemma_drained_unfolds(
        &self,
        after: &Self,
        count: int,
        sizes: spec_fn(nat) -> int,
        round: nat,
    )
        requires
            self.wf(),
            after.delivered(self, count, sizes(round)),
        ensures
            self.drained(sizes, round) == (if count <= 0 {
                Seq::<u8>::empty()
            } else {
                self@.take(count) + after.drained(sizes, round + 1)
            }),
    {
        lemma_run_within_content(self.chunks(), self.index(), self.byte_pos());
    }

    /// Reading a reader to exhaustion yields the bytes of its view, in order,
    /// whatever the sizes of the destinations that drive the reads, provided
    /// that no empty chunk lies before the end of the view.
    pub proof fn lemma_read_to_exhaustion(&self, sizes: spec_fn(nat) -> int)
        requires
            self.wf(),
            forall|round: nat| 0 < #[trigger] sizes(round),
            self@.len() <= self.reach(),
        ensures
            self.drained(sizes, 0) == self@,
    {
        lemma_drained(self.chunks(), self.index(), self.byte_pos(), self.budget(), sizes, 0);
    }

    /// Reading the reader over a whole rope to exhaustion yields the flattened
    /// content of the rope, whether the reads take one byte at a time, all at
    /// once or anything between, provided that no empty chunk lies before the
    /// last byte.
    pub proof fn lemma_full_read(&self, rope: &Rope, sizes: spec_fn(nat) -> int)
        requires
            self.is_full(rope),
            forall|round: nat| 0 < #[trigger] sizes(round),
            rope@.len() <= run_len(rope.chunks(), 0, 0),
        ensures
            self.drained(sizes, 0) == rope@,
    {
        self.lemma_read_to_exhaustion(sizes);
    }

    /// Reading the reader over the bytes from `start` up to `end` to
    /// exhaustion yields exactly those bytes of the flattened content,
    /// provided that the range is empty or no empty chunk lies before its end.
    pub proof fn lemma_slice_read(
        &self,
        rope: &Rope,
        start: int,
        end: int,
        sizes: spec_fn(nat) -> int,
    )
        requires
            self.is_slice(rope, start, end),
            0 <= start <= end <= rope@.len(),
            forall|round: nat| 0 < #[trigger] sizes(round),
            start == end || end <= run_len(rope.chunks(), 0, 0),
        ensures
            self.drained(sizes, 0) == rope@.subrange(start, end),
    {
        if start < end {
            lemma_locate(rope.chunks(), 0, 0, start);
            self.lemma_read_to_exhaustion(sizes);
        }
    }

    /// `self` is the reader `start` after a read has taken `done` bytes and
    /// has not come to a stop yet.
    spec fn advanced(&self, start: &Self, done: int) -> bool {
        &&& self.wf()
        &&& start.wf()
        &&& self.rope() == start.rope()
        &&& 0 <= done <= start.budget()
        &&& done <= start.reach()
        &&& start.position() + start.reach() <= start.rope()@.len()
        &&& self.budget() == start.budget() - done
        &&& self.reach() == start.reach() - done
        &&& self.position() == start.position() + done
        &&& (self.index(), self.byte_pos()) == locate(
            start.chunks(),
            start.index(),
            start.byte_pos(),
            done,
        )
    }

    /// A read begins with nothing taken.
    proof fn lemma_start(start: &Self)
        requires
            start.wf(),
        ensures
            start.advanced(start, 0),
            start.rope()@.subrange(start.position(), start.position()) == Seq::<u8>::empty(),
    {
        lemma_run_within_content(start.chunks(), start.index(), start.byte_pos());
    }

    /// A read takes `got` more bytes from the chunk under the cursor: `moved`
    /// is the reader with the cursor past them, `after` the reader with the
    /// budget lowered as well.
    proof fn lemma_step(
        start: &Self,
        before: &Self,
        moved: &Self,
        after: &Self,
        done: int,
        got: int,
    )
        requires
            before.advanced(start, done),
            before.index() < before.chunks().len(),
            0 < got <= before.chunks()[before.index()].len() - before.byte_pos(),
            got <= before.budget(),
            moved.rope() == before.rope(),
            moved.index() == before.index() + (if before.byte_pos() + got
                == before.chunks()[before.index()].len() {
                1int
            } else {
                0int
            }),
            moved.byte_pos() == (if before.byte_pos() + got
                == before.chunks()[before.index()].len() {
                0int
            } else {
                before.byte_pos() + got
            }),
            after.rope() == moved.rope(),
            after.index() == moved.index(),
            after.byte_pos() == moved.byte_pos(),
            after.budget() == before.budget() - got,
        ensures
            after.advanced(start, done + got),
            start.rope()@.subrange(start.position(), start.position() + done)
                + before.chunks()[before.index()].subrange(
                before.byte_pos(),
                before.byte_pos() + got,
            ) == start.rope()@.subrange(start.position(), start.position() + done + got),
    {
        lemma_read_step(
            start.chunks(),
            (start.index(), start.byte_pos()),
            done,
            (before.index(), before.byte_pos()),
            got,
        );
    }

    /// A read stops after `done` bytes: because it has all the bytes it
    /// wanted, because no chunk is left, or because the chunk under the
    /// cursor gave nothing, which leaves the reader as `last`.
    proof fn lemma_stop(start: &Self, before: &Self, last: &Self, done: int, want: int)
        requires
            before.advanced(start, done),
            done <= want,
            last.rope() == before.rope(),
            last.budget() == before.budget(),
            ({
                ||| done == want && last == before
                ||| before.index() >= before.chunks().len() && last == before
                ||| {
                    &&& done < want
                    &&& before.index() < before.chunks().len()
                    &&& before.chunks()[before.index()].len() == before.byte_pos()
                        || before.budget() == 0
                    &&& last.index() == before.index() + (if before.byte_pos()
                        == before.chunks()[before.index()].len() {
                        1int
                    } else {
                        0int
                    })
                    &&& last.byte_pos() == (if before.byte_pos()
                        == before.chunks()[before.index()].len() {
                        0int
                    } else {
                        before.byte_pos()
                    })
                }
            }),
        ensures
            last.delivered(start, done, want),
            last.position() == start.position() + done,
            start@.take(done) == start.rope()@.subrange(start.position(), start.position() + done),
    {
        Self::lemma_skip_take(start, done);
        if before.index() < before.chunks().len() {
            lemma_offset_step(before.chunks(), before.index());
        }
    }

    /// A reader that has handed out `count` bytes has the rest of its view left.
    proof fn lemma_skip_take(before: &Self, count: int)
        requires
            before.wf(),
            0 <= count <= before.budget(),
            before.position() + count <= before.rope()@.len(),
        ensures
            before@.take(count) == before.rope()@.subrange(
                before.position(),
                before.position() + count,
            ),
            before@.skip(count) == window(
                before.rope()@,
                before.position() + count,
                before.budget() - count,
            ),
    {
    }
}

} // verus!
