//! The rope: a single chunk, or an ordered list of chunks with a cached total
//! length. Appending and concatenating share chunks instead of copying bytes.
use crate::chunk::RopeElem;
use crate::layout::{
    lemma_chunk_in_content, lemma_offset_end, lemma_offset_step, offset_of, run_len,
};
use crate::reader::RopeReader;
use std::borrow::Cow;
use std::io::Write;
use std::sync::Arc;
use vstd::prelude::*;
use vstd::std_specs::convert::FromSpecImpl;

verus! {

/// A byte buffer made of shared chunks.
pub enum Rope {
    /// Exactly one chunk.
    Flat(RopeElem),
    /// Chunks in append order, with the number of bytes they hold together.
    Concat { length: usize, data: Vec<RopeElem> },
}

impl View for Rope {
    type V = Seq<u8>;

    /// The content of the buffer: the bytes of its chunks, in order.
    open spec fn view(&self) -> Seq<u8> {
        self.chunks().flatten()
    }
}

/// Appending `bytes` to the last chunk of `before` gives `after`.
pub open spec fn extends_last_chunk(
    before: Seq<Seq<u8>>,
    after: Seq<Seq<u8>>,
    bytes: Seq<u8>,
) -> bool {
    &&& before.len() > 0
    &&& after == before.update(before.len() - 1, before.last() + bytes)
}

/// Growing the last chunk of a list of chunks appends the same bytes to the
/// flattened content.
pub proof fn lemma_extend_last_chunk(before: Seq<Seq<u8>>, after: Seq<Seq<u8>>, bytes: Seq<u8>)
    requires
        extends_last_chunk(before, after, bytes),
    ensures
        after.flatten() == before.flatten() + bytes,
{
    let front = before.drop_last();
    assert(before == front.push(before.last()));
    assert(after == front.push(before.last() + bytes));
    front.lemma_flatten_push(before.last());
    front.lemma_flatten_push(before.last() + bytes);
}

impl Rope {
    /// The contents of the chunks, in order.
    pub open spec fn chunks(&self) -> Seq<Seq<u8>> {
        match self {
            Rope::Flat(elem) => seq![elem@],
            Rope::Concat { data, .. } => data@.map_values(|elem: RopeElem| elem@),
        }
    }

    /// The cached length of a `Concat` is the number of bytes in its chunks.
    pub open spec fn wf(&self) -> bool {
        match self {
            Rope::Flat(_) => true,
            Rope::Concat { length, .. } => *length == self@.len(),
        }
    }

    /// A buffer of one chunk that holds `bytes`.
    pub fn new(bytes: Vec<u8>) -> (rope: Self)
        ensures
            rope == Rope::Flat(RopeElem(Arc::new(bytes))),
            rope.chunks() == seq![bytes@],
            rope@ == bytes@,
            rope.wf(),
    {
        proof {
            seq![bytes@].lemma_flatten_singleton();
        }
        Rope::Flat(RopeElem::new(bytes))
    }

    /// Whether the buffer is well formed. The variants are open to everyone, so
    /// a `Concat` can be put together by hand; this tells whether its cached
    /// length is right.
    pub fn is_well_formed(&self) -> (ok: bool)
        ensures
            ok == self.wf(),
    {
        match self {
            Rope::Flat(_) => true,
            Rope::Concat { length, data } => {
                let ghost chunks = self.chunks();
                let mut total: usize = 0;
                let mut index: usize = 0;
                while index < data.len()
                    invariant
                        index <= data.len(),
                        chunks == self.chunks(),
                        chunks == data@.map_values(|elem: RopeElem| elem@),
                        *self matches Rope::Concat { length: cached, .. } && cached == *length,
                        total == offset_of(chunks, index as int),
                    decreases data.len() - index,
                {
                    proof {
                        lemma_offset_step(chunks, index as int);
                        lemma_chunk_in_content(chunks, index as int);
                    }
                    match total.checked_add(data[index].0.len()) {
                        Some(sum) => {
                            total = sum;
                        },
                        None => {
                            return false;
                        },
                    }
                    index += 1;
                }
                proof {
                    lemma_offset_end(chunks);
                }
                total == *length
            },
        }
    }

    /// The length that the buffer reports: the length of the chunk of a `Flat`,
    /// the cached length of a `Concat`.
    pub open spec fn cached_len(&self) -> int {
        match self {
            Rope::Flat(elem) => elem@.len() as int,
            Rope::Concat { length, .. } => *length as int,
        }
    }

    /// A well-formed buffer reports the length of its content.
    pub proof fn lemma_cached_len(&self)
        requires
            self.wf(),
        ensures
            self.cached_len() == self@.len(),
    {
        if self is Flat {
            self.chunks().lemma_flatten_singleton();
        }
    }

    /// The number of bytes in the buffer, without walking the chunks.
    pub fn len(&self) -> (length: usize)
        ensures
            length == self.cached_len(),
            self.wf() ==> length == self@.len(),
    {
        proof {
            if self.wf() {
                self.lemma_cached_len();
            }
        }
        match self {
            Rope::Flat(data) => data.0.len(),
            Rope::Concat { length, .. } => *length,
        }
    }

    /// Whether the buffer holds no byte.
    pub fn is_empty(&self) -> (empty: bool)
        ensures
            empty == (self.cached_len() == 0),
            self.wf() ==> empty == (self@.len() == 0),
    {
        self.len() == 0
    }

    /// Adds an already shared chunk at the end. The chunk is taken as it is:
    /// its bytes are neither read nor copied.
    pub fn push_shared_bytes(&mut self, bytes: Arc<Vec<u8>>)
        requires
            old(self).wf(),
            old(self)@.len() + bytes@.len() <= usize::MAX,
        ensures
            final(self).wf(),
            final(self).grown_by_chunk(old(self), RopeElem(bytes)),
            final(self)@ == old(self)@ + bytes@,
    {
        proof {
            old(self).chunks().lemma_flatten_push(bytes@);
            if *old(self) is Flat {
                old(self).chunks().lemma_flatten_singleton();
            }
        }
        match self {
            Rope::Flat(data) => {
                let length: usize = data.0.len() + bytes.len();
                let mut chunks: Vec<RopeElem> = Vec::new();
                chunks.push(data.clone());
                chunks.push(RopeElem(bytes));
                *self = Rope::Concat { length, data: chunks };
                assert(self.chunks() =~= old(self).chunks().push(bytes@));
            },
            Rope::Concat { length, data } => {
                *length += bytes.len();
                data.push(RopeElem(bytes));
                assert(self.chunks() =~= old(self).chunks().push(bytes@));
            },
        }
    }

    /// The chunk handles, in order.
    pub open spec fn handles(&self) -> Seq<RopeElem> {
        match self {
            Rope::Flat(elem) => seq![*elem],
            Rope::Concat { data, .. } => data@,
        }
    }

    /// `self` is `before` with `bytes` appended to its last chunk, in place.
    /// The variant and the number of chunks are the same, and every handle but
    /// the last is the handle it was.
    pub open spec fn grown_in_place(&self, before: &Rope, bytes: Seq<u8>) -> bool {
        &&& *self is Flat <==> *before is Flat
        &&& before.handles().len() > 0
        &&& self.handles().len() == before.handles().len()
        &&& self.handles().drop_last() == before.handles().drop_last()
        &&& forall|i: int|
            0 <= i < before.handles().len() - 1 ==> #[trigger] self.handles()[i]
                == before.handles()[i]
        &&& self.handles().last()@ == before.handles().last()@ + bytes
        &&& extends_last_chunk(before.chunks(), self.chunks(), bytes)
    }

    /// `self` is `before` with `chunk` as a new last chunk. It is a `Concat`
    /// whose handles are those of `before`, in their order, and then `chunk`.
    pub open spec fn grown_by_chunk(&self, before: &Rope, chunk: RopeElem) -> bool {
        &&& *self is Concat
        &&& self.handles() == before.handles().push(chunk)
        &&& self.chunks() == before.chunks().push(chunk@)
    }

    /// Appends owned bytes. They go into the last chunk, in place, when this
    /// buffer is the only owner of that chunk; otherwise they become a new chunk
    /// of their own, behind a fresh handle, and no chunk that was there is
    /// touched. The content that results is the same either way.
    pub fn push_bytes(&mut self, bytes: Vec<u8>)
        requires
            old(self).wf(),
            old(self)@.len() + bytes@.len() <= usize::MAX,
        ensures
            final(self).wf(),
            final(self)@ == old(self)@ + bytes@,
            final(self).grown_in_place(old(self), bytes@) || final(self).grown_by_chunk(
                old(self),
                RopeElem(Arc::new(bytes)),
            ),
    {
        let added: usize = bytes.len();
        let rest = match self {
            Rope::Flat(data) => data.try_extend(bytes),
            Rope::Concat { data, .. } => {
                let count: usize = data.len();
                if count == 0 {
                    Some(bytes)
                } else {
                    data[count - 1].try_extend(bytes)
                }
            },
        };
        match rest {
            None => {
                if let Rope::Concat { length, .. } = self {
                    *length += added;
                }
                proof {
                    assert(self.handles().drop_last() =~= old(self).handles().drop_last());
                    assert(self.handles().last()@ == old(self).handles().last()@ + bytes@);
                    assert(self.chunks() =~= old(self).chunks().update(
                        old(self).chunks().len() - 1,
                        old(self).chunks().last() + bytes@,
                    ));
                    lemma_extend_last_chunk(old(self).chunks(), self.chunks(), bytes@);
                }
            },
            Some(bytes) => {
                assert(self.handles() =~= old(self).handles());
                assert(self.chunks() =~= old(self).chunks());
                self.push_shared_bytes(Arc::new(bytes));
            },
        }
    }

    /// Appends the content of the buffer to `buf`, chunk by chunk.
    pub fn flatten_internal(&self, buf: &mut Vec<u8>)
        ensures
            final(buf)@ == old(buf)@ + self@,
    {
        match self {
            Rope::Flat(data) => {
                proof {
                    self.chunks().lemma_flatten_singleton();
                }
                buf.extend_from_slice(data.0.as_slice());
            },
            Rope::Concat { data, .. } => {
                let mut index: usize = 0;
                while index < data.len()
                    invariant
                        index <= data.len(),
                        *self matches Rope::Concat { data: chunks, .. } && chunks == data,
                        buf@ == old(buf)@ + self.chunks().take(index as int).flatten(),
                    decreases data.len() - index,
                {
                    proof {
                        let done = self.chunks().take(index as int);
                        assert(self.chunks().take(index + 1) == done.push(data[index as int]@));
                        done.lemma_flatten_push(data[index as int]@);
                    }
                    buf.extend_from_slice(data[index].0.as_slice());
                    index += 1;
                }
                assert(self.chunks().take(data.len() as int) == self.chunks());
            },
        }
    }

    /// The content as one contiguous byte vector. A `Flat` buffer lends its
    /// chunk; a `Concat` buffer copies its chunks, in order, into a new vector.
    pub fn flatten(&self) -> (bytes: Cow<'_, Vec<u8>>)
        ensures
            bytes@ == self@,
            *self is Flat <==> bytes is Borrowed,
    {
        match self {
            Rope::Flat(data) => {
                proof {
                    self.chunks().lemma_flatten_singleton();
                }
                Cow::Borrowed(&*data.0)
            },
            Rope::Concat { .. } => {
                let mut buf: Vec<u8> = Vec::with_capacity(self.len());
                self.flatten_internal(&mut buf);
                Cow::Owned(buf)
            },
        }
    }

    /// Appends the chunks of `other`, sharing them: handles are cloned, bytes
    /// are not.
    pub fn concat(&mut self, other: &Rope)
        requires
            old(self).wf(),
            other.wf(),
            old(self)@.len() + other@.len() <= usize::MAX,
        ensures
            final(self).wf(),
            *final(self) is Concat,
            (*final(self))->data@ == old(self).handles() + other.handles(),
            final(self).chunks() == old(self).chunks() + other.chunks(),
            final(self)@ == old(self)@ + other@,
    {
        proof {
            vstd::seq_lib::lemma_flatten_concat(old(self).chunks(), other.chunks());
        }
        let extra: usize = other.len();
        match self {
            Rope::Flat(left) => {
                proof {
                    old(self).chunks().lemma_flatten_singleton();
                }
                let length: usize = left.0.len() + extra;
                let mut data: Vec<RopeElem> = Vec::new();
                data.push(left.clone());
                Self::share_chunks(&mut data, other);
                *self = Rope::Concat { length, data };
            },
            Rope::Concat { length, data } => {
                *length += extra;
                Self::share_chunks(data, other);
            },
        }
        proof {
            assert(self.chunks() =~= old(self).chunks() + other.chunks());
        }
    }

    /// A reader over the bytes from `start` up to `end`.
    pub fn slice(&self, start: usize, end: usize) -> (reader: RopeReader<'_>)
        requires
            self.wf(),
            start <= end <= self@.len(),
        ensures
            reader.is_slice(self, start as int, end as int),
            start <= run_len(self.chunks(), 0, 0) || start == end ==> reader@ == self@.subrange(
                start as int,
                end as int,
            ),
    {
        RopeReader::new_slice(self, start, end)
    }

    /// A reader over the whole buffer.
    pub fn read(&self) -> (reader: RopeReader<'_>)
        requires
            self.wf(),
        ensures
            reader.is_full(self),
            reader@ == self@,
    {
        RopeReader::new_full(self)
    }

    /// Pushes a handle to each chunk of `other` onto `data`.
    fn share_chunks(data: &mut Vec<RopeElem>, other: &Rope)
        ensures
            final(data)@ == old(data)@ + other.handles(),
    {
        match other {
            Rope::Flat(right) => {
                data.push(right.clone());
            },
            Rope::Concat { data: right, .. } => {
                let mut index: usize = 0;
                while index < right.len()
                    invariant
                        index <= right.len(),
                        data@ == old(data)@ + right@.take(index as int),
                    decreases right.len() - index,
                {
                    data.push(right[index].clone());
                    index += 1;
                }
            },
        }
    }
}

impl Clone for Rope {
    /// A rope of the same chunks: the handles are cloned, the bytes are shared.
    fn clone(&self) -> (other: Self)
        ensures
            *self is Flat <==> other is Flat,
            other.handles() == self.handles(),
            other.cached_len() == self.cached_len(),
            other.chunks() == self.chunks(),
            other@ == self@,
            self.wf() ==> other.wf(),
    {
        match self {
            Rope::Flat(data) => Rope::Flat(data.clone()),
            Rope::Concat { length, data } => {
                let mut chunks: Vec<RopeElem> = Vec::with_capacity(data.len());
                Self::share_chunks(&mut chunks, self);
                Rope::Concat { length: *length, data: chunks }
            },
        }
    }
}

/// Bytes that are appended in place leave the number of chunks as it was.
pub proof fn lemma_grown_in_place(before: &Rope, after: &Rope, bytes: Seq<u8>)
    requires
        after.grown_in_place(before, bytes),
    ensures
        after.handles().len() == before.handles().len(),
        after@ == before@ + bytes,
{
    lemma_extend_last_chunk(before.chunks(), after.chunks(), bytes);
}

/// A new chunk raises the number of chunks by one and keeps every handle that
/// was there, with the bytes it had: whoever shares one of them sees what they
/// saw before.
pub proof fn lemma_grown_by_chunk(before: &Rope, after: &Rope, chunk: RopeElem)
    requires
        after.grown_by_chunk(before, chunk),
    ensures
        after.handles().len() == before.handles().len() + 1,
        after.handles().take(before.handles().len() as int) == before.handles(),
        after.handles().last() == chunk,
        after@ == before@ + chunk@,
{
    before.chunks().lemma_flatten_push(chunk@);
}

/// Joining the lists of chunks of two ropes, of any shape and any length,
/// joins their contents: the content of the first, then that of the second.
pub proof fn lemma_concat_flattens(left: &Rope, right: &Rope, joined: &Rope)
    requires
        joined.chunks() == left.chunks() + right.chunks(),
    ensures
        joined@ == left@ + right@,
        joined@.len() == left@.len() + right@.len(),
{
    vstd::seq_lib::lemma_flatten_concat(left.chunks(), right.chunks());
}

/// `Rope::new` makes a list of one chunk, `concat` joins the lists of chunks of
/// two ropes, and `flatten` gives the bytes of a list of chunks in order. So the
/// concatenation of the single-chunk ropes of `a` and `b` flattens to `a`
/// followed by `b`, whatever `a` and `b` are.
pub proof fn lemma_concat_of_new(
    a: Seq<u8>,
    b: Seq<u8>,
    left: &Rope,
    right: &Rope,
    joined: &Rope,
)
    requires
        left.chunks() == seq![a],
        right.chunks() == seq![b],
        joined.chunks() == left.chunks() + right.chunks(),
    ensures
        joined@ == a + b,
{
    lemma_concat_flattens(left, right, joined);
    seq![a].lemma_flatten_singleton();
    seq![b].lemma_flatten_singleton();
}

impl Default for Rope {
    /// The empty buffer: one chunk without bytes.
    fn default() -> (rope: Self)
        ensures
            rope.chunks() == seq![Seq::<u8>::empty()],
            rope@ == Seq::<u8>::empty(),
            rope.wf(),
    {
        Rope::new(Vec::new())
    }
}

impl From<Vec<u8>> for Rope {
    fn from(bytes: Vec<u8>) -> (rope: Self)
        ensures
            rope.chunks() == seq![bytes@],
            rope@ == bytes@,
            rope.wf(),
    {
        Rope::new(bytes)
    }
}

impl FromSpecImpl<Vec<u8>> for Rope {
    open spec fn obeys_from_spec() -> bool {
        true
    }

    open spec fn from_spec(bytes: Vec<u8>) -> Self {
        Rope::Flat(RopeElem(Arc::new(bytes)))
    }
}

impl From<&[u8]> for Rope {
    fn from(content: &[u8]) -> (rope: Self)
        ensures
            rope.chunks() == seq![content@],
            rope@ == content@,
            rope.wf(),
    {
        Rope::new(vstd::slice::slice_to_vec(content))
    }
}

impl FromSpecImpl<&[u8]> for Rope {
    open spec fn obeys_from_spec() -> bool {
        false
    }

    open spec fn from_spec(content: &[u8]) -> Self {
        arbitrary()
    }
}

impl Write for Rope {
    /// Appends a copy of `bytes`, and says that all of them were taken.
    fn write(&mut self, bytes: &[u8]) -> (written: Result<usize, std::io::Error>)
        requires
            old(self).wf(),
            old(self)@.len() + bytes@.len() <= usize::MAX,
        ensures
            written matches Ok(count) && count == bytes@.len(),
            final(self).wf(),
            final(self)@ == old(self)@ + bytes@,
    {
        self.push_bytes(vstd::slice::slice_to_vec(bytes));
        Ok(bytes.len())
    }

    /// Nothing is held back, so there is nothing to flush.
    fn flush(&mut self) -> (done: Result<(), std::io::Error>)
        ensures
            done is Ok,
            *final(self) == *old(self),
    {
        Ok(())
    }
}

} // verus!
