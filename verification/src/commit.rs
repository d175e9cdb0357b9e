//! Commit events: one author's batch of repository operations with the blocks they refer to.

use vstd::prelude::*;
use crate::record::DecodeError;

verus! {

/// One operation of a commit.
#[derive(Debug, Clone, PartialEq, Eq)]
pub struct Operation {
    /// What was done: `create`, `update` or `delete`.
    pub action: String,
    /// The path of the record: its collection, a `/`, and its key.
    pub path: String,
    /// The byte encoding of the identifier of the record's block, where the operation names one.
    pub content_identifier: Option<Vec<u8>>,
}

/// The mathematical value of an [`Operation`].
pub struct OperationView {
    pub action: Seq<char>,
    pub path: Seq<char>,
    pub content_identifier: Option<Seq<u8>>,
}

impl View for Operation {
    type V = OperationView;

    open spec fn view(&self) -> OperationView {
        OperationView {
            action: self.action@,
            path: self.path@,
            content_identifier: match self.content_identifier {
                Some(cid) => Some(cid@),
                None => None,
            },
        }
    }
}

/// The views of `operations`, in their order.
pub open spec fn operation_views(operations: Seq<Operation>) -> Seq<OperationView> {
    operations.map_values(|op: Operation| op@)
}

/// One author's batch of operations.
#[derive(Debug, Clone, PartialEq, Eq)]
pub struct CommitEvent {
    /// The stable identity of the author.
    pub author_id: String,
    /// The operations, in the order of the batch.
    pub operations: Vec<Operation>,
    /// The archive of the blocks that the operations refer to.
    pub blocks: Vec<u8>,
}

/// The mathematical value of a [`CommitEvent`].
pub struct CommitView {
    pub author_id: Seq<char>,
    pub operations: Seq<OperationView>,
    pub blocks: Seq<u8>,
}

impl View for CommitEvent {
    type V = CommitView;

    open spec fn view(&self) -> CommitView {
        CommitView {
            author_id: self.author_id@,
            operations: operation_views(self.operations@),
            blocks: self.blocks@,
        }
    }
}

/// The commit that the DAG-CBOR decoder reads from `bytes`, if it reads one.
pub uninterp spec fn commit_of(bytes: Seq<u8>) -> Option<CommitView>;

/// Calls `serde_ipld_dagcbor::from_reader` for the commit type of `atrium_api` and keeps the
/// author, the operations and the archive; each identifier goes through `Cid::to_bytes`, and an
/// error of the decoder becomes `None`. The result is that of the decoder on these bytes;
/// nothing is claimed about which bytes it accepts.
#[verifier::external_body]
fn read_commit(bytes: &[u8]) -> (out: Option<CommitEvent>)
    ensures
        out is Some == commit_of(bytes@) is Some,
        out matches Some(commit) ==> commit_of(bytes@) == Some(commit@),
{
    match serde_ipld_dagcbor::from_reader::<
        atrium_api::com::atproto::sync::subscribe_repos::Commit,
        _,
    >(bytes) {
        Ok(commit) => Some(CommitEvent {
            author_id: commit.data.repo.as_str().to_string(),
            operations: commit.data.ops.into_iter().map(|op| Operation {
                action: op.data.action,
                path: op.data.path,
                content_identifier: op.data.cid.map(|link| link.0.to_bytes()),
            }).collect(),
            blocks: commit.data.blocks,
        }),
        Err(_) => None,
    }
}

/// What [`decode_commit`] returns on `bytes`.
pub open spec fn decoded_commit(bytes: Seq<u8>) -> Result<CommitView, DecodeError> {
    match commit_of(bytes) {
        Some(commit) => Ok(commit),
        None => Err(DecodeError::Invalid),
    }
}

/// Decodes the body of a commit frame into a commit event.
///
/// Any failure of the decoder is reported as [`DecodeError::Invalid`].
pub fn decode_commit(body: &[u8]) -> (result: Result<CommitEvent, DecodeError>)
    ensures
        match result {
            Ok(commit) => decoded_commit(body@) == Ok::<CommitView, DecodeError>(commit@),
            Err(e) => decoded_commit(body@) == Err::<CommitView, DecodeError>(e),
        },
{
    match read_commit(body) {
        Some(commit) => Ok(commit),
        None => Err(DecodeError::Invalid),
    }
}

} // verus!
