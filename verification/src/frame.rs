//! The frame codec: from one binary message of the transport to a header and a body.
//!
//! A message is a DAG-CBOR map, the header, and after it the body. The header holds the
//! integer `op`, 1 for a message and -1 for an error, and for a message the text `t` that says
//! what the body is. The body of a message is left as it is; the body of an error is a map
//! with the texts `error` and `message`.

use vstd::prelude::*;
use vstd::slice::{slice_subrange, slice_to_vec};
use crate::cbor::{
    field_views, find_integer, find_text, integer_of, leading_map, map_bytes, read_map,
    text_of, write_map, Field, FieldView, Scalar, ScalarView,
};
use crate::text::{same_bytes, same_text};

verus! {

/// The body of a message, not yet interpreted.
#[derive(Debug, Clone, PartialEq, Eq)]
pub struct MessageFrame {
    pub body: Vec<u8>,
}

/// What the other side reported in place of a message.
#[derive(Debug, Clone, PartialEq, Eq)]
pub struct ErrorFrame {
    /// The name of the error; empty where the body gives none.
    pub kind: String,
    /// The description of the error; empty where the body gives none.
    pub message: String,
}

/// One decoded unit of the transport.
#[derive(Debug, Clone, PartialEq, Eq)]
pub enum Frame {
    /// A message: the discriminator of its header, where it has one, and its body.
    Message(Option<String>, MessageFrame),
    /// An error that the other side reported.
    Error(ErrorFrame),
}

/// The mathematical value of a [`Frame`].
pub enum FrameView {
    Message { discriminator: Option<Seq<char>>, body: Seq<u8> },
    Error { kind: Seq<char>, message: Seq<char> },
}

impl View for Frame {
    type V = FrameView;

    open spec fn view(&self) -> FrameView {
        match self {
            Frame::Message(discriminator, frame) => FrameView::Message {
                discriminator: match discriminator {
                    Some(t) => Some(t@),
                    None => None,
                },
                body: frame.body@,
            },
            Frame::Error(frame) => FrameView::Error { kind: frame.kind@, message: frame.message@ },
        }
    }
}

/// Why a message gave no frame to work on.
#[derive(Debug, Clone, PartialEq, Eq)]
pub enum FrameError {
    /// The header does not decode, or is no header.
    Malformed,
    /// The header announces an error; this is the description that the body gives.
    Remote(String),
}

/// The mathematical value of a [`FrameError`].
pub enum FrameErrorView {
    Malformed,
    Remote(Seq<char>),
}

impl View for FrameError {
    type V = FrameErrorView;

    open spec fn view(&self) -> FrameErrorView {
        match self {
            FrameError::Malformed => FrameErrorView::Malformed,
            FrameError::Remote(message) => FrameErrorView::Remote(message@),
        }
    }
}

/// What the body of a message is, as far as this library tells bodies apart.
#[derive(Debug, Clone, Copy, PartialEq, Eq, Structural)]
pub enum MessageKind {
    /// A commit: one author's batch of operations.
    Commit,
    /// Anything else, an error frame included.
    Unknown,
}

/// The text under `key` in the map at the front of `body`; empty where there is none.
pub open spec fn body_text(body: Seq<u8>, key: Seq<char>) -> Seq<char> {
    match leading_map(body) {
        Some(map) => match text_of(map.fields, key) {
            Some(text) => text,
            None => Seq::empty(),
        },
        None => Seq::empty(),
    }
}

/// The frame that `raw` holds.
///
/// The header is the map at the front of `raw`, and the body is all that follows it. `None`
/// where no map stands at the front, or its `op` is neither 1 nor -1.
pub open spec fn parsed_frame(raw: Seq<u8>) -> Option<FrameView> {
    match leading_map(raw) {
        Some(header) => if header.length <= raw.len() {
            let body = raw.subrange(header.length as int, raw.len() as int);
            match integer_of(header.fields, "op"@) {
                Some(op) => if op == 1 {
                    Some(
                        FrameView::Message {
                            discriminator: text_of(header.fields, "t"@),
                            body: body,
                        },
                    )
                } else if op == -1 {
                    Some(
                        FrameView::Error {
                            kind: body_text(body, "error"@),
                            message: body_text(body, "message"@),
                        },
                    )
                } else {
                    None
                },
                None => None,
            }
        } else {
            None
        },
        None => None,
    }
}

/// What [`decode`] returns on `raw`.
pub open spec fn decoded(raw: Seq<u8>) -> Result<FrameView, FrameErrorView> {
    match parsed_frame(raw) {
        Some(FrameView::Message { discriminator, body }) => Ok(
            FrameView::Message { discriminator: discriminator, body: body },
        ),
        Some(FrameView::Error { kind, message }) => Err(FrameErrorView::Remote(message)),
        None => Err(FrameErrorView::Malformed),
    }
}

/// The kind of `frame`: a commit where its discriminator is `#commit`.
pub open spec fn kind_of(frame: FrameView) -> MessageKind {
    match frame {
        FrameView::Message { discriminator: Some(t), body } => if t == "#commit"@ {
            MessageKind::Commit
        } else {
            MessageKind::Unknown
        },
        _ => MessageKind::Unknown,
    }
}

impl Frame {
    /// Tells what the body of this frame is.
    pub fn kind(&self) -> (kind: MessageKind)
        ensures
            kind == kind_of(self@),
    {
        match self {
            Frame::Message(Some(t), _) => if same_text(t.as_str(), "#commit") {
                MessageKind::Commit
            } else {
                MessageKind::Unknown
            },
            _ => MessageKind::Unknown,
        }
    }
}

/// Reads the text under `key` from the map that was read from a body.
fn text_or_empty(map: &Option<crate::cbor::Item>, key: &str) -> (text: String)
    ensures
        text@ == match map {
            Some(item) => match text_of(item@.fields, key@) {
                Some(t) => t,
                None => Seq::empty(),
            },
            None => Seq::empty(),
        },
{
    match map {
        Some(item) => match find_text(&item.fields, key) {
            Some(text) => text,
            None => String::new(),
        },
        None => String::new(),
    }
}

/// Splits one binary message into its header and its body.
///
/// Returns a message frame where the header's `op` is 1, with the text under `t` as its
/// discriminator, and an error frame where `op` is -1, with the texts that the body gives.
/// Returns `None` where no header stands at the front of `raw`.
pub fn parse(raw: &[u8]) -> (frame: Option<Frame>)
    ensures
        match frame {
            Some(f) => parsed_frame(raw@) == Some(f@),
            None => parsed_frame(raw@) is None,
        },
{
    match read_map(raw) {
        Some(header) => {
            if header.length > raw.len() {
                return None;
            }
            let rest = slice_subrange(raw, header.length, raw.len());
            match find_integer(&header.fields, "op") {
                Some(op) => if op == 1 {
                    let discriminator = find_text(&header.fields, "t");
                    Some(Frame::Message(discriminator, MessageFrame { body: slice_to_vec(rest) }))
                } else if op == -1 {
                    let body = read_map(rest);
                    let kind = text_or_empty(&body, "error");
                    let message = text_or_empty(&body, "message");
                    Some(Frame::Error(ErrorFrame { kind, message }))
                } else {
                    None
                },
                None => None,
            }
        },
        None => None,
    }
}

/// Decodes one binary message of the transport.
///
/// A message whose header does not decode is [`FrameError::Malformed`]. One whose header
/// announces an error is [`FrameError::Remote`] with the description from its body. Every
/// other message comes back as [`Frame::Message`], its body untouched.
pub fn decode(raw_bytes: &[u8]) -> (result: Result<Frame, FrameError>)
    ensures
        match result {
            Ok(frame) => decoded(raw_bytes@) == Ok::<FrameView, FrameErrorView>(frame@),
            Err(e) => decoded(raw_bytes@) == Err::<FrameView, FrameErrorView>(e@),
        },
        result matches Ok(frame) ==> frame is Message,
{
    match parse(raw_bytes) {
        Some(Frame::Message(discriminator, body)) => Ok(Frame::Message(discriminator, body)),
        Some(Frame::Error(error)) => Err(FrameError::Remote(error.message)),
        None => Err(FrameError::Malformed),
    }
}

/// The entries of the header of a message with this discriminator.
pub open spec fn header_fields(discriminator: Option<Seq<char>>) -> Seq<FieldView> {
    let op = FieldView { key: "op"@, value: ScalarView::Integer(1) };
    match discriminator {
        Some(t) => seq![op, FieldView { key: "t"@, value: ScalarView::Text(t) }],
        None => seq![op],
    }
}

/// What [`encode`] returns: the encoded header and after it the body, where the encoder gives
/// a header and the whole reads back as the message that went in.
pub open spec fn encoded(discriminator: Option<Seq<char>>, body: Seq<u8>) -> Option<Seq<u8>> {
    match map_bytes(header_fields(discriminator)) {
        Some(header) => if parsed_frame(header + body) == Some(
            FrameView::Message { discriminator: discriminator, body: body },
        ) {
            Some(header + body)
        } else {
            None
        },
        None => None,
    }
}

/// Whether two optional texts are equal.
fn same_optional_text(a: &Option<String>, b: &Option<String>) -> (same: bool)
    ensures
        same == (match a {
            Some(t) => Some(t@),
            None => None,
        } == match b {
            Some(t) => Some(t@),
            None => None,
        }),
{
    match (a, b) {
        (Some(x), Some(y)) => same_text(x.as_str(), y.as_str()),
        (None, None) => true,
        _ => false,
    }
}

/// Encodes a message frame: the header for `discriminator`, then `body`.
///
/// The bytes are read back before they are handed out, so what comes out always decodes to
/// the message that went in. `None` where the encoder gives no header, or the bytes do not
/// read back.
pub fn encode(discriminator: &Option<String>, body: &[u8]) -> (out: Option<Vec<u8>>)
    ensures
        match out {
            Some(raw) => encoded(
                match discriminator {
                    Some(t) => Some(t@),
                    None => None,
                },
                body@,
            ) == Some(raw@),
            None => encoded(
                match discriminator {
                    Some(t) => Some(t@),
                    None => None,
                },
                body@,
            ) is None,
        },
{
    let mut fields: Vec<Field> = Vec::new();
    fields.push(Field { key: "op".to_string(), value: Scalar::Integer(1) });
    match discriminator {
        Some(t) => {
            fields.push(Field { key: "t".to_string(), value: Scalar::Text(t.clone()) });
        },
        None => {},
    }
    assert(field_views(fields@) =~= header_fields(
        match discriminator {
            Some(t) => Some(t@),
            None => None,
        },
    ));
    match write_map(&fields) {
        Some(header) => {
            let mut raw = header;
            let ghost front = raw@;
            raw.extend_from_slice(body);
            assert(raw@ =~= front + body@);
            match parse(raw.as_slice()) {
                Some(Frame::Message(d, frame)) => {
                    if same_optional_text(&d, discriminator) && same_bytes(
                        frame.body.as_slice(),
                        body,
                    ) {
                        Some(raw)
                    } else {
                        None
                    }
                },
                _ => None,
            }
        },
        None => None,
    }
}

/// What was encoded decodes to the discriminator and the body that went in.
pub proof fn lemma_encode_then_decode(
    discriminator: Option<Seq<char>>,
    body: Seq<u8>,
    raw: Seq<u8>,
)
    requires
        encoded(discriminator, body) == Some(raw),
    ensures
        decoded(raw) == Ok::<FrameView, FrameErrorView>(
            FrameView::Message { discriminator: discriminator, body: body },
        ),
{
}

/// A message that decodes and is encoded again decodes to the same discriminator and the
/// same body.
pub proof fn lemma_decode_encode_decode(raw: Seq<u8>, again: Seq<u8>)
    requires
        decoded(raw) matches Ok(FrameView::Message { discriminator, body }) && encoded(
            discriminator,
            body,
        ) == Some(again),
    ensures
        decoded(again) == decoded(raw),
{
}

/// The body of a decoded message is the message without its header: the bytes of the
/// message are the bytes of the header and then, unchanged, the body.
pub proof fn lemma_decode_keeps_body(raw: Seq<u8>, discriminator: Option<Seq<char>>, body: Seq<u8>)
    requires
        decoded(raw) == Ok::<FrameView, FrameErrorView>(
            FrameView::Message { discriminator: discriminator, body: body },
        ),
    ensures
        body.len() <= raw.len(),
        raw == raw.subrange(0, raw.len() - body.len()) + body,
        leading_map(raw) matches Some(header) && header.length == raw.len() - body.len()
            && text_of(header.fields, "t"@) == discriminator,
{
    let header = leading_map(raw).unwrap();
    assert(raw =~= raw.subrange(0, header.length as int) + raw.subrange(
        header.length as int,
        raw.len() as int,
    ));
}

} // verus!
