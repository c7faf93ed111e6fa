//! The payload that flows through the loader pipeline: text or raw bytes.

use vstd::prelude::*;
use vstd::string::StrSliceExecFns;
use vstd::utf8::{decode_utf8, encode_utf8, valid_utf8};
use crate::text::clone_bytes;

verus! {

/// The two forms a payload can take.
#[derive(Clone, Copy, Debug, PartialEq, Eq, Structural, Hash)]
pub enum ContentKind {
    Text,
    Bytes,
}

/// A payload: text, or bytes of no known encoding.
#[derive(Debug, Clone, PartialEq, Eq)]
pub enum Content {
    Text(String),
    Bytes(Vec<u8>),
}

/// Mathematical content of a [`Content`].
pub enum ContentView {
    Text(Seq<char>),
    Bytes(Seq<u8>),
}

impl View for Content {
    type V = ContentView;

    open spec fn view(&self) -> ContentView {
        match self {
            Content::Text(text) => ContentView::Text(text@),
            Content::Bytes(bytes) => ContentView::Bytes(bytes@),
        }
    }
}

impl ContentView {
    pub open spec fn kind(self) -> ContentKind {
        match self {
            ContentView::Text(_) => ContentKind::Text,
            ContentView::Bytes(_) => ContentKind::Bytes,
        }
    }

    /// The payload as bytes: text is encoded as UTF-8.
    pub open spec fn bytes(self) -> Seq<u8> {
        match self {
            ContentView::Text(text) => encode_utf8(text),
            ContentView::Bytes(bytes) => bytes,
        }
    }

    /// Whether the payload can be given in a form: any payload as bytes, and
    /// as text what is text or well-formed UTF-8.
    pub open spec fn convertible(self, kind: ContentKind) -> bool {
        match (self, kind) {
            (ContentView::Bytes(bytes), ContentKind::Text) => valid_utf8(bytes),
            _ => true,
        }
    }

    /// The payload in a form it can be given in.
    pub open spec fn converted(self, kind: ContentKind) -> ContentView {
        match (self, kind) {
            (ContentView::Bytes(bytes), ContentKind::Text) => ContentView::Text(
                decode_utf8(bytes),
            ),
            (ContentView::Text(text), ContentKind::Bytes) => ContentView::Bytes(
                encode_utf8(text),
            ),
            _ => self,
        }
    }
}

/// Bytes that were asked for as text and are not well-formed UTF-8.
#[derive(Clone, Copy, Debug, PartialEq, Eq, Structural)]
pub struct InvalidUtf8;

/// `String::from_utf8` of the standard library. It accepts exactly the byte
/// sequences that are well-formed UTF-8, and the text it returns is made of
/// the very bytes it was given.
#[verifier::external_body]
fn string_from_utf8(bytes: Vec<u8>) -> (text: Option<String>)
    ensures
        text is Some == valid_utf8(bytes@),
        text matches Some(s) ==> encode_utf8(s@) == bytes@,
{
    String::from_utf8(bytes).ok()
}

impl Content {
    pub fn kind(&self) -> (kind: ContentKind)
        ensures
            kind == self@.kind(),
    {
        match self {
            Content::Text(_) => ContentKind::Text,
            Content::Bytes(_) => ContentKind::Bytes,
        }
    }

    /// A copy of the payload.
    pub fn duplicate(&self) -> (copy: Content)
        ensures
            copy@ == self@,
    {
        match self {
            Content::Text(text) => Content::Text(text.clone()),
            Content::Bytes(bytes) => Content::Bytes(clone_bytes(bytes)),
        }
    }

    /// The payload as bytes; text is encoded as UTF-8.
    pub fn into_bytes(self) -> (bytes: Vec<u8>)
        ensures
            bytes@ == self@.bytes(),
    {
        match self {
            Content::Text(text) => text.as_str().as_bytes_vec(),
            Content::Bytes(bytes) => bytes,
        }
    }

    /// The payload as text. Bytes are accepted where they are well-formed
    /// UTF-8 and refused otherwise.
    pub fn try_into_string(self) -> (text: Result<String, InvalidUtf8>)
        ensures
            text is Ok == self@.convertible(ContentKind::Text),
            text matches Ok(s) ==> ContentView::Text(s@) == self@.converted(ContentKind::Text),
    {
        match self {
            Content::Text(text) => Ok(text),
            Content::Bytes(bytes) => {
                let ghost given = bytes@;
                match string_from_utf8(bytes) {
                    Some(text) => {
                        proof {
                            vstd::utf8::encode_utf8_decode_utf8(text@);
                        }
                        Ok(text)
                    },
                    None => Err(InvalidUtf8),
                }
            },
        }
    }

    /// The payload in the form asked for, where it can be given in it. The
    /// payload itself is left as it is.
    pub fn convert(&self, kind: ContentKind) -> (converted: Result<Content, InvalidUtf8>)
        ensures
            converted is Ok == self@.convertible(kind),
            converted matches Ok(content) ==> content@ == self@.converted(kind),
    {
        match kind {
            ContentKind::Bytes => Ok(Content::Bytes(self.duplicate().into_bytes())),
            ContentKind::Text => match self.duplicate().try_into_string() {
                Ok(text) => Ok(Content::Text(text)),
                Err(refused) => Err(refused),
            },
        }
    }
}

/// Text survives the way to bytes and back.
pub proof fn lemma_text_round_trip(text: Seq<char>)
    ensures
        ContentView::Text(text).convertible(ContentKind::Bytes),
        ContentView::Text(text).converted(ContentKind::Bytes).convertible(ContentKind::Text),
        ContentView::Text(text).converted(ContentKind::Bytes).converted(ContentKind::Text)
            == ContentView::Text(text),
{
    vstd::utf8::encode_utf8_valid_utf8(text);
    vstd::utf8::encode_utf8_decode_utf8(text);
}

/// Bytes that are well-formed UTF-8 survive the way to text and back.
pub proof fn lemma_bytes_round_trip(bytes: Seq<u8>)
    requires
        valid_utf8(bytes),
    ensures
        ContentView::Bytes(bytes).converted(ContentKind::Text).converted(ContentKind::Bytes)
            == ContentView::Bytes(bytes),
{
    vstd::utf8::decode_utf8_encode_utf8(bytes);
}

/// Converting a payload to the form it already has changes nothing, and a
/// converted payload has the form asked for.
pub proof fn lemma_converted_kind(content: ContentView, kind: ContentKind)
    ensures
        content.converted(kind).kind() == kind,
        content.converted(content.kind()) == content,
        content.convertible(content.kind()),
{
}

} // verus!
