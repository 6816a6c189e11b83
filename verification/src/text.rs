//! Ropes and text: a rope is made from text by taking its UTF-8 bytes, and
//! turned into text by decoding its flattened content.
use crate::buffer::Rope;
use std::ops::AddAssign;
use std::string::FromUtf8Error;
use vstd::prelude::*;
use vstd::std_specs::convert::FromSpecImpl;
use vstd::utf8::{decode_utf8, encode_utf8, valid_utf8};

verus! {

/// The error of `String::from_utf8`. Nothing is read from it.
#[verifier::external_type_specification]
#[verifier::external_body]
pub struct ExFromUtf8Error(FromUtf8Error);

/// `String::from_utf8` of the standard library: it succeeds exactly on valid
/// UTF-8, and the string it returns is made of the bytes it was given.
pub assume_specification[ String::from_utf8 ](bytes: Vec<u8>) -> (text: Result<
    String,
    FromUtf8Error,
>)
    ensures
        text is Ok <==> valid_utf8(bytes@),
        text matches Ok(string) ==> encode_utf8(string@) == bytes@,
;

/// `String::into_bytes` of the standard library: the UTF-8 bytes of the string.
pub assume_specification[ String::into_bytes ](string: String) -> (bytes: Vec<u8>)
    ensures
        bytes@ == encode_utf8(string@),
;

/// The content of a rope is not valid UTF-8, so it is no text.
#[derive(Debug, Clone, Copy, PartialEq, Eq)]
pub struct InvalidText;

impl InvalidText {
    /// What went wrong, in words.
    pub fn message(&self) -> (words: &'static str)
        ensures
            words@ == "failed to convert rope into string"@,
    {
        "failed to convert rope into string"
    }
}

impl Rope {
    /// The content as text. This succeeds exactly when the flattened content is
    /// valid UTF-8, and the text then has the content as its bytes.
    pub fn to_string(&self) -> (text: Result<String, InvalidText>)
        ensures
            text is Ok <==> valid_utf8(self@),
            text matches Ok(string) ==> string@ == decode_utf8(self@) && encode_utf8(string@)
                == self@,
    {
        let mut bytes: Vec<u8> = Vec::with_capacity(self.len());
        self.flatten_internal(&mut bytes);
        match String::from_utf8(bytes) {
            Ok(string) => {
                proof {
                    vstd::utf8::encode_utf8_decode_utf8(string@);
                }
                Ok(string)
            },
            Err(_) => Err(InvalidText),
        }
    }

    /// Text survives the way through a rope. `to_string` gives the text that
    /// the content decodes to, and a rope made from a text holds the bytes that
    /// the text encodes to: those are the bytes of the content again, whatever
    /// chunks it was made of.
    pub proof fn lemma_text_round_trip(&self)
        requires
            valid_utf8(self@),
        ensures
            encode_utf8(decode_utf8(self@)) == self@,
    {
        vstd::utf8::decode_utf8_encode_utf8(self@);
    }
}

impl AddAssign<&str> for Rope {
    /// Appends the UTF-8 bytes of `rhs`.
    fn add_assign(&mut self, rhs: &str)
        requires
            old(self).wf(),
            old(self)@.len() + encode_utf8(rhs@).len() <= usize::MAX,
        ensures
            final(self).wf(),
            final(self)@ == old(self)@ + encode_utf8(rhs@),
    {
        self.push_bytes(vstd::slice::slice_to_vec(rhs.as_bytes()));
    }
}

impl From<&str> for Rope {
    /// A rope of one chunk that holds the UTF-8 bytes of `content`.
    fn from(content: &str) -> (rope: Self)
        ensures
            rope.chunks() == seq![encode_utf8(content@)],
            rope@ == encode_utf8(content@),
            rope.wf(),
    {
        Rope::new(vstd::slice::slice_to_vec(content.as_bytes()))
    }
}

impl FromSpecImpl<&str> for Rope {
    open spec fn obeys_from_spec() -> bool {
        false
    }

    open spec fn from_spec(content: &str) -> Self {
        arbitrary()
    }
}

impl From<String> for Rope {
    /// A rope of one chunk that holds the UTF-8 bytes of `content`.
    fn from(content: String) -> (rope: Self)
        ensures
            rope.chunks() == seq![encode_utf8(content@)],
            rope@ == encode_utf8(content@),
            rope.wf(),
    {
        Rope::new(content.into_bytes())
    }
}

impl FromSpecImpl<String> for Rope {
    open spec fn obeys_from_spec() -> bool {
        false
    }

    open spec fn from_spec(content: String) -> Self {
        arbitrary()
    }
}

} // verus!
