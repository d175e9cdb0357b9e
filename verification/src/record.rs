//! Content records: the decoded payload of one content block.

use vstd::prelude::*;
use vstd::string::StringExecFns;
use crate::text::{split_lines, split_on, text_views};

verus! {

/// A text post as its author published it.
#[derive(Debug, Clone, PartialEq, Eq)]
pub struct ContentRecord {
    /// The author-supplied timestamp, in the form in which it was written.
    pub created_at: String,
    /// The body text.
    pub text: String,
}

/// The mathematical value of a [`ContentRecord`].
pub struct RecordView {
    pub created_at: Seq<char>,
    pub text: Seq<char>,
}

impl View for ContentRecord {
    type V = RecordView;

    open spec fn view(&self) -> RecordView {
        RecordView { created_at: self.created_at@, text: self.text@ }
    }
}

impl ContentRecord {
    /// A copy with the same fields.
    pub fn duplicate(&self) -> (copy: ContentRecord)
        ensures
            copy@ == self@,
    {
        ContentRecord { created_at: self.created_at.clone(), text: self.text.clone() }
    }
}

/// Why a block is not a content record.
#[derive(Debug, Clone, Copy, PartialEq, Eq, Structural)]
pub enum DecodeError {
    /// The bytes are cut short or do not have the shape of a record.
    Invalid,
}

/// The post record that the DAG-CBOR decoder reads from `bytes`, if it reads one.
pub uninterp spec fn post_record(bytes: Seq<u8>) -> Option<RecordView>;

/// Calls `serde_ipld_dagcbor::from_reader` for the post record type of `atrium_api` and keeps
/// the two fields that a notification carries; an error of the decoder becomes `None`. The
/// result is that of the decoder on these bytes; nothing is claimed about which bytes it
/// accepts.
#[verifier::external_body]
fn read_post(bytes: &[u8]) -> (out: Option<ContentRecord>)
    ensures
        out is Some == post_record(bytes@) is Some,
        out matches Some(record) ==> post_record(bytes@) == Some(record@),
{
    match serde_ipld_dagcbor::from_reader::<atrium_api::app::bsky::feed::post::Record, _>(bytes) {
        Ok(record) => Some(ContentRecord {
            created_at: record.created_at.as_str().to_string(),
            text: record.data.text,
        }),
        Err(_) => None,
    }
}

/// What [`decode_record`] returns on `bytes`.
pub open spec fn decoded_record(bytes: Seq<u8>) -> Result<RecordView, DecodeError> {
    match post_record(bytes) {
        Some(record) => Ok(record),
        None => Err(DecodeError::Invalid),
    }
}

/// Decodes the raw bytes of a content block into a record.
///
/// Any failure of the decoder, a truncated block or one of another shape, is reported as
/// [`DecodeError::Invalid`].
pub fn decode_record(raw_bytes: &[u8]) -> (result: Result<ContentRecord, DecodeError>)
    ensures
        match result {
            Ok(record) => decoded_record(raw_bytes@) == Ok::<RecordView, DecodeError>(record@),
            Err(e) => decoded_record(raw_bytes@) == Err::<RecordView, DecodeError>(e),
        },
{
    match read_post(raw_bytes) {
        Some(record) => Ok(record),
        None => Err(DecodeError::Invalid),
    }
}

/// A post together with its author, as it is shown on a terminal.
#[derive(Debug, Clone, PartialEq, Eq)]
pub struct NewPost {
    pub record: ContentRecord,
    /// The stable identity of the author.
    pub author: String,
}

/// `line` behind two spaces.
pub open spec fn indented(line: Seq<char>) -> Seq<char> {
    "  "@ + line
}

impl NewPost {
    /// The lines in which the text of the post is shown: each line of the text, behind two
    /// spaces.
    pub fn body_lines(&self) -> (lines: Vec<String>)
        ensures
            text_views(lines@) == split_on(self.record.text@, '\n').map_values(
                |line: Seq<char>| indented(line),
            ),
    {
        let parts = split_lines(self.record.text.as_str());
        let ghost wanted = split_on(self.record.text@, '\n').map_values(
            |line: Seq<char>| indented(line),
        );
        let mut lines: Vec<String> = Vec::new();
        let mut i: usize = 0;
        while i < parts.len()
            invariant
                i <= parts.len(),
                text_views(parts@) == split_on(self.record.text@, '\n'),
                wanted == split_on(self.record.text@, '\n').map_values(
                    |line: Seq<char>| indented(line),
                ),
                lines@.len() == i,
                forall|k: int| 0 <= k < i ==> (#[trigger] lines@[k])@ == wanted[k],
            decreases parts.len() - i,
        {
            let mut line = "  ".to_string();
            line.append(parts[i].as_str());
            lines.push(line);
            i += 1;
        }
        lines
    }
}

} // verus!
