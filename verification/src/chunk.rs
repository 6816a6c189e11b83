//! Shared chunks: reference-counted byte sequences, the unit of structural
//! sharing between buffers.
use std::ops::{Deref, DerefMut};
use std::str::Utf8Error;
use std::sync::Arc;
use vstd::prelude::*;
use vstd::string::StringExecFns;
use vstd::utf8::{decode_utf8, encode_utf8, valid_utf8};

verus! {

/// `Arc::clone` of the standard library: the new handle points to the same
/// allocation, so it holds the same bytes as the handle it was made from.
#[verifier::external_body]
pub(crate) fn arc_clone(handle: &Arc<Vec<u8>>) -> (copy: Arc<Vec<u8>>)
    ensures
        copy == *handle,
{
    Arc::clone(handle)
}

/// `Arc::get_mut` of the standard library. Whether exclusive access is granted
/// depends on the other handles to the allocation, so nothing is promised about
/// which variant comes back. When access is granted, the reference starts at the
/// bytes the handle holds and the handle ends with whatever is written through
/// it; when it is refused, the handle is left as it was.
#[verifier::external_body]
pub(crate) fn arc_get_mut(handle: &mut Arc<Vec<u8>>) -> (access: Option<&mut Vec<u8>>)
    ensures
        match access {
            Some(bytes) => *bytes == **old(handle) && **final(handle) == *final(bytes),
            None => *final(handle) == *old(handle),
        },
{
    Arc::get_mut(handle)
}

/// `Arc::strong_count` of the standard library: the number of handles to the
/// allocation at the time of the call. It depends on what other holders do, so
/// nothing is promised about it.
#[verifier::external_body]
pub(crate) fn arc_strong_count(handle: &Arc<Vec<u8>>) -> (owners: usize) {
    Arc::strong_count(handle)
}

/// The error of `std::str::from_utf8`. Nothing is read from it.
#[verifier::external_type_specification]
#[verifier::external_body]
pub struct ExUtf8Error(Utf8Error);

/// `std::str::from_utf8`: it succeeds exactly on valid UTF-8, and the text it
/// returns is made of the bytes it was given.
pub assume_specification[ std::str::from_utf8 ](bytes: &[u8]) -> (text: Result<&str, Utf8Error>)
    ensures
        text is Ok <==> valid_utf8(bytes@),
        text matches Ok(string) ==> encode_utf8(string@) == bytes@,
;

/// The `Debug` form of a piece of text: the text in double quotes, with the
/// characters escaped that `Debug` escapes.
pub uninterp spec fn debug_str(text: Seq<char>) -> Seq<char>;

/// `format!` of the standard library with `{:?}` on a `&str`: the `Debug` form
/// of the text, which depends on the text alone.
#[verifier::external_body]
pub(crate) fn format_debug_str(text: &str) -> (shown: String)
    ensures
        shown@ == debug_str(text@),
{
    format!("{:?}", text)
}

/// A reference-counted byte sequence. Several buffers, or several places in
/// one buffer, may hold handles to the same bytes.
pub struct RopeElem(pub Arc<Vec<u8>>);

impl View for RopeElem {
    type V = Seq<u8>;

    /// The bytes of the chunk.
    open spec fn view(&self) -> Seq<u8> {
        self.0@
    }
}

impl RopeElem {
    /// Puts `bytes` behind a fresh handle, of which the result is the only owner.
    pub fn new(bytes: Vec<u8>) -> (elem: Self)
        ensures
            elem == RopeElem(Arc::new(bytes)),
            elem@ == bytes@,
    {
        RopeElem(Arc::new(bytes))
    }

    /// Appends `bytes` to the chunk behind `access` when exclusive access was
    /// granted; hands them back untouched when it was refused.
    pub fn extend_or_return(access: Option<&mut Vec<u8>>, bytes: Vec<u8>) -> (rest: Option<Vec<u8>>)
        ensures
            match access {
                Some(chunk) => rest is None && final(chunk)@ == chunk@ + bytes@,
                None => rest == Some(bytes),
            },
    {
        match access {
            Some(chunk) => {
                let mut bytes = bytes;
                chunk.append(&mut bytes);
                None
            },
            None => Some(bytes),
        }
    }

    /// Appends `bytes` in place if this handle is the only owner of its chunk.
    /// Otherwise the chunk is left alone and the bytes are handed back.
    pub fn try_extend(&mut self, bytes: Vec<u8>) -> (rest: Option<Vec<u8>>)
        ensures
            match rest {
                None => final(self)@ == old(self)@ + bytes@,
                Some(unused) => unused == bytes && *final(self) == *old(self),
            },
    {
        Self::extend_or_return(arc_get_mut(&mut self.0), bytes)
    }

    /// How a chunk with `owners` handles is called in diagnostics: `Shared` if
    /// there is more than one, `Owned` otherwise.
    pub fn ownership(owners: usize) -> (label: &'static str)
        ensures
            label@ == Self::spec_ownership(owners),
    {
        if owners > 1 {
            "Shared"
        } else {
            "Owned"
        }
    }

    /// The label for a chunk with `owners` handles.
    pub open spec fn spec_ownership(owners: usize) -> Seq<char> {
        if owners > 1 {
            "Shared"@
        } else {
            "Owned"@
        }
    }

    /// The bytes as text, for diagnostics: the text they encode if they are
    /// valid UTF-8, a placeholder if they are not.
    pub fn shown_text(&self) -> (text: &str)
        ensures
            text@ == self.spec_shown_text(),
    {
        match std::str::from_utf8(self.0.as_slice()) {
            Ok(text) => {
                proof {
                    vstd::utf8::encode_utf8_decode_utf8(text@);
                }
                text
            },
            Err(_) => "[u8 bytes]",
        }
    }

    /// What diagnostics show of the bytes.
    pub open spec fn spec_shown_text(&self) -> Seq<char> {
        if valid_utf8(self@) {
            decode_utf8(self@)
        } else {
            "[u8 bytes]"@
        }
    }

    /// A label and a piece of text as diagnostics show them together: the
    /// label, then the `Debug` form of the text in round brackets. This is how
    /// `Debug` shows a tuple struct with one field when it is not asked for
    /// its pretty form.
    pub open spec fn spec_labelled(label: Seq<char>, text: Seq<char>) -> Seq<char> {
        label + "("@ + debug_str(text) + ")"@
    }

    /// Puts a label and a piece of text together for diagnostics.
    pub fn labelled(label: &str, text: &str) -> (shown: String)
        ensures
            shown@ == Self::spec_labelled(label@, text@),
    {
        let mut shown = String::from_str(label);
        shown.append("(");
        shown.append(format_debug_str(text).as_str());
        shown.append(")");
        shown
    }

    /// The chunk as diagnostics show it: whether it is shared or owned at the
    /// time of the call, and its bytes as text.
    pub fn fmt(&self) -> (text: String)
        ensures
            text@ == Self::spec_labelled("Shared"@, self.spec_shown_text()) || text@
                == Self::spec_labelled("Owned"@, self.spec_shown_text()),
    {
        let owners: usize = arc_strong_count(&self.0);
        Self::labelled(Self::ownership(owners), self.shown_text())
    }
}

impl Clone for RopeElem {
    /// Another handle to the same bytes; no byte is copied.
    fn clone(&self) -> (other: Self)
        ensures
            other == *self,
    {
        RopeElem(arc_clone(&self.0))
    }
}

impl Deref for RopeElem {
    type Target = Arc<Vec<u8>>;

    fn deref(&self) -> (handle: &Arc<Vec<u8>>)
        ensures
            *handle == self.0,
    {
        &self.0
    }
}

impl DerefMut for RopeElem {
    fn deref_mut(&mut self) -> (handle: &mut Arc<Vec<u8>>)
        ensures
            *handle == old(self).0,
            final(self).0 == *final(handle),
    {
        &mut self.0
    }
}

} // verus!
