//! The commit dispatcher: from a commit event to the notifications that it calls for.
//!
//! The dispatcher decides; it sends nothing. For a commit it hands back the deliveries that
//! are due, in order, and whoever owns the notification sink performs them one by one. How a
//! delivery fares is nothing to the dispatcher: a delivery that fails is reported by the sink's
//! owner and holds up no other.

use vstd::prelude::*;
use crate::archive::{
    entries, extract, extracted, parsed, ExtractError, ExtractErrorView,
};
use crate::commit::{operation_views, CommitEvent, CommitView, Operation, OperationView};
use crate::record::{decode_record, decoded_record, ContentRecord, DecodeError, RecordView};
use crate::registry::{
    mapping_of, subscriber_views, Registry, ReloadError, Subscriber, SubscriberView,
};
use crate::text::{leading_segment, leading_segment_is, same_text};

verus! {

/// One notification that is due: this record, to this destination.
#[derive(Debug, Clone, PartialEq, Eq)]
pub struct Delivery {
    pub destination_address: String,
    pub record: ContentRecord,
}

/// The mathematical value of a [`Delivery`].
pub struct DeliveryView {
    pub destination_address: Seq<char>,
    pub record: RecordView,
}

impl View for Delivery {
    type V = DeliveryView;

    open spec fn view(&self) -> DeliveryView {
        DeliveryView { destination_address: self.destination_address@, record: self.record@ }
    }
}

/// The views of `deliveries`, in their order.
pub open spec fn delivery_views(deliveries: Seq<Delivery>) -> Seq<DeliveryView> {
    deliveries.map_values(|d: Delivery| d@)
}

/// Why a commit was dropped.
#[derive(Debug, Clone, PartialEq, Eq)]
pub enum DispatchError {
    /// The block of an operation did not come out of the archive.
    Extract(ExtractError),
    /// The block of an operation is no content record.
    Decode(DecodeError),
}

/// The mathematical value of a [`DispatchError`].
pub enum DispatchErrorView {
    Extract(ExtractErrorView),
    Decode(DecodeError),
}

impl View for DispatchError {
    type V = DispatchErrorView;

    open spec fn view(&self) -> DispatchErrorView {
        match self {
            DispatchError::Extract(e) => DispatchErrorView::Extract(e@),
            DispatchError::Decode(e) => DispatchErrorView::Decode(*e),
        }
    }
}

/// Whether `op` creates a record in the collection of posts: its action is `create` and the
/// part of its path before the first `/` is `app.bsky.feed.post`.
pub open spec fn creates_post(op: OperationView) -> bool {
    op.action == "create"@ && leading_segment(op.path, '/') == "app.bsky.feed.post"@
}

/// The bytes that `blocks` holds under `cid`. An operation that names no identifier finds
/// nothing in an archive that parses.
pub open spec fn located(blocks: Seq<u8>, cid: Option<Seq<u8>>) -> Result<
    Seq<u8>,
    ExtractErrorView,
> {
    match cid {
        Some(target) => extracted(blocks, target),
        None => match parsed(blocks) {
            Some(all) => Err(
                ExtractErrorView::NotFound { target_cid: None, entries_scanned: all.len() },
            ),
            None => Err(ExtractErrorView::Malformed),
        },
    }
}

/// The record that `op` refers to in `blocks`.
pub open spec fn record_for(blocks: Seq<u8>, op: OperationView) -> Result<
    RecordView,
    DispatchErrorView,
> {
    match located(blocks, op.content_identifier) {
        Ok(bytes) => match decoded_record(bytes) {
            Ok(record) => Ok(record),
            Err(e) => Err(DispatchErrorView::Decode(e)),
        },
        Err(e) => Err(DispatchErrorView::Extract(e)),
    }
}

/// One delivery of `record` to each of `subscribers`, in their order.
pub open spec fn deliveries_to(subscribers: Seq<SubscriberView>, record: RecordView) -> Seq<
    DeliveryView,
> {
    subscribers.map_values(
        |s: SubscriberView|
            DeliveryView { destination_address: s.destination_address, record: record },
    )
}

/// What a commit calls for: the deliveries that are due, and the failure on which the work on
/// the commit ended, where it ended on one.
#[derive(Debug, PartialEq, Eq)]
pub struct Dispatch {
    /// The deliveries that are due, in order.
    pub deliveries: Vec<Delivery>,
    /// `Ok` where every operation was dealt with, else the failure of the first that was not.
    pub result: Result<(), DispatchError>,
}

/// The mathematical value of a [`Dispatch`].
pub struct DispatchView {
    pub deliveries: Seq<DeliveryView>,
    pub failure: Option<DispatchErrorView>,
}

impl View for Dispatch {
    type V = DispatchView;

    open spec fn view(&self) -> DispatchView {
        DispatchView {
            deliveries: delivery_views(self.deliveries@),
            failure: match self.result {
                Ok(_) => None,
                Err(e) => Some(e@),
            },
        }
    }
}

/// What `operations` call for, taken in their order.
///
/// Each operation that creates a post has its record looked up and decoded, and the record
/// is due to every subscriber. Every other operation is passed over. The first operation
/// whose record cannot be had ends the work: what was due before it stays due, and nothing
/// after it is looked at.
pub open spec fn dispatched(
    subscribers: Seq<SubscriberView>,
    operations: Seq<OperationView>,
    blocks: Seq<u8>,
) -> DispatchView
    decreases operations.len(),
{
    if operations.len() == 0 {
        DispatchView { deliveries: Seq::empty(), failure: None }
    } else {
        let before = dispatched(subscribers, operations.drop_last(), blocks);
        if before.failure is Some || !creates_post(operations.last()) {
            before
        } else {
            match record_for(blocks, operations.last()) {
                Ok(record) => DispatchView {
                    deliveries: before.deliveries + deliveries_to(subscribers, record),
                    failure: None,
                },
                Err(e) => DispatchView { deliveries: before.deliveries, failure: Some(e) },
            }
        }
    }
}

/// What a commit calls for, given the subscribers of its author: nothing where there are
/// none, else what its operations call for.
pub open spec fn handled(subscribers: Seq<SubscriberView>, commit: CommitView) -> DispatchView {
    if subscribers.len() == 0 {
        DispatchView { deliveries: Seq::empty(), failure: None }
    } else {
        dispatched(subscribers, commit.operations, commit.blocks)
    }
}

/// Once the front of a batch has failed, the rest of the batch changes nothing.
pub proof fn lemma_dispatch_ends_on_failure(
    subscribers: Seq<SubscriberView>,
    operations: Seq<OperationView>,
    blocks: Seq<u8>,
    n: int,
)
    requires
        0 <= n <= operations.len(),
        dispatched(subscribers, operations.take(n), blocks).failure is Some,
    ensures
        dispatched(subscribers, operations, blocks) == dispatched(
            subscribers,
            operations.take(n),
            blocks,
        ),
    decreases operations.len() - n,
{
    if n < operations.len() {
        assert(operations.take(n + 1).drop_last() =~= operations.take(n));
        lemma_dispatch_ends_on_failure(subscribers, operations, blocks, n + 1);
    } else {
        assert(operations.take(n) =~= operations);
    }
}

/// A commit of an author without subscribers calls for nothing and does not fail, whatever
/// its operations and its archive hold.
pub proof fn lemma_no_subscriber_no_work(commit: CommitView)
    ensures
        handled(Seq::empty(), commit) == (DispatchView {
            deliveries: Seq::empty(),
            failure: None,
        }),
{
}

/// A commit without an operation that creates a post calls for nothing and does not fail,
/// whatever its archive holds.
pub proof fn lemma_other_operations_are_ignored(
    subscribers: Seq<SubscriberView>,
    operations: Seq<OperationView>,
    blocks: Seq<u8>,
)
    requires
        forall|i: int| 0 <= i < operations.len() ==> !creates_post(#[trigger] operations[i]),
    ensures
        dispatched(subscribers, operations, blocks) == (DispatchView {
            deliveries: Seq::empty(),
            failure: None,
        }),
    decreases operations.len(),
{
    if operations.len() > 0 {
        let front = operations.drop_last();
        assert forall|i: int| 0 <= i < front.len() implies !creates_post(#[trigger] front[i]) by {
            assert(front[i] == operations[i]);
        }
        lemma_other_operations_are_ignored(subscribers, front, blocks);
    }
}

/// A failure leaves due what the operations before it called for: the deliveries of a batch
/// start with the deliveries of each of its fronts.
pub proof fn lemma_deliveries_only_grow(
    subscribers: Seq<SubscriberView>,
    operations: Seq<OperationView>,
    blocks: Seq<u8>,
    n: int,
)
    requires
        0 <= n <= operations.len(),
    ensures
        dispatched(subscribers, operations.take(n), blocks).deliveries.is_prefix_of(
            dispatched(subscribers, operations, blocks).deliveries,
        ),
    decreases operations.len() - n,
{
    if n < operations.len() {
        assert(operations.take(n + 1).drop_last() =~= operations.take(n));
        lemma_deliveries_only_grow(subscribers, operations, blocks, n + 1);
    } else {
        assert(operations.take(n) =~= operations);
    }
}

/// Whether `op` creates a record in the collection of posts.
pub fn is_post_creation(op: &Operation) -> (creates: bool)
    ensures
        creates == creates_post(op@),
{
    same_text(op.action.as_str(), "create") && leading_segment_is(
        op.path.as_str(),
        "app.bsky.feed.post",
    )
}

/// Looks up the block that `cid` names in `blocks`.
fn locate(blocks: &[u8], cid: &Option<Vec<u8>>) -> (result: Result<Vec<u8>, ExtractError>)
    ensures
        match result {
            Ok(bytes) => located(
                blocks@,
                match cid {
                    Some(c) => Some(c@),
                    None => None,
                },
            ) == Ok::<Seq<u8>, ExtractErrorView>(bytes@),
            Err(e) => located(
                blocks@,
                match cid {
                    Some(c) => Some(c@),
                    None => None,
                },
            ) == Err::<Seq<u8>, ExtractErrorView>(e@),
        },
{
    match cid {
        Some(target) => extract(blocks, target.as_slice()),
        None => match entries(blocks) {
            Ok(all) => {
                Err(ExtractError::NotFound { target_cid: None, entries_scanned: all.len() })
            },
            Err(e) => Err(e),
        },
    }
}

/// Looks up and decodes the record that `op` refers to.
fn fetch_record(blocks: &[u8], op: &Operation) -> (result: Result<ContentRecord, DispatchError>)
    ensures
        match result {
            Ok(record) => record_for(blocks@, op@) == Ok::<RecordView, DispatchErrorView>(record@),
            Err(e) => record_for(blocks@, op@) == Err::<RecordView, DispatchErrorView>(e@),
        },
{
    match locate(blocks, &op.content_identifier) {
        Ok(bytes) => match decode_record(bytes.as_slice()) {
            Ok(record) => Ok(record),
            Err(e) => Err(DispatchError::Decode(e)),
        },
        Err(e) => Err(DispatchError::Extract(e)),
    }
}

/// Adds one delivery of `record` for each of `subscribers` to `deliveries`.
fn deliver_to_all(
    deliveries: &mut Vec<Delivery>,
    subscribers: &Vec<Subscriber>,
    record: &ContentRecord,
)
    ensures
        delivery_views(final(deliveries)@) == delivery_views(old(deliveries)@) + deliveries_to(
            subscriber_views(subscribers@),
            record@,
        ),
{
    let ghost before = delivery_views(deliveries@);
    let ghost added = deliveries_to(subscriber_views(subscribers@), record@);
    let mut i: usize = 0;
    while i < subscribers.len()
        invariant
            i <= subscribers.len(),
            added == deliveries_to(subscriber_views(subscribers@), record@),
            delivery_views(deliveries@) == before + added.take(i as int),
        decreases subscribers.len() - i,
    {
        let ghost so_far = delivery_views(deliveries@);
        let delivery = Delivery {
            destination_address: subscribers[i].destination_address.clone(),
            record: record.duplicate(),
        };
        deliveries.push(delivery);
        assert(before + added.take(i + 1) =~= so_far.push(added[i as int]));
        i += 1;
    }
}

/// The dispatcher: the registry of subscribers and the rules by which a commit is routed.
pub struct Handler {
    registry: Registry,
}

impl Handler {
    /// The registry by which this handler routes.
    pub closed spec fn registry_view(&self) -> Map<Seq<char>, Seq<SubscriberView>> {
        self.registry@
    }

    /// The subscribers of `author`.
    pub open spec fn subscribers_of(&self, author: Seq<char>) -> Seq<SubscriberView> {
        if self.registry_view().dom().contains(author) {
            self.registry_view()[author]
        } else {
            Seq::empty()
        }
    }

    /// A handler that routes by the rows that the subscriber store handed out.
    pub fn from_db(rows: &Vec<Subscriber>) -> (handler: Handler)
        ensures
            handler.registry_view() == mapping_of(subscriber_views(rows@)),
    {
        Handler { registry: Registry::from_rows(rows) }
    }

    /// Takes over what the subscriber store answered: routes by its rows from now on, or, where
    /// the store failed, goes on as before and hands the failure back.
    pub fn update_from_db(&mut self, fetched: Result<Vec<Subscriber>, ReloadError>) -> (result:
        Result<(), ReloadError>)
        ensures
            match fetched {
                Ok(rows) => result is Ok && final(self).registry_view() == mapping_of(
                    subscriber_views(rows@),
                ),
                Err(e) => result == Err::<(), ReloadError>(e) && final(self).registry_view()
                    == old(self).registry_view(),
            },
    {
        self.registry.reload(fetched)
    }

    /// The registry by which this handler routes.
    pub fn registry(&self) -> (registry: &Registry)
        ensures
            registry@ == self.registry_view(),
    {
        &self.registry
    }

    /// Decides what one commit calls for.
    ///
    /// A commit of an author without subscribers is passed over at once: its archive is not
    /// looked at. Otherwise the operations are taken in turn. Each one that creates a post has
    /// its record taken out of the archive and decoded, and one delivery per subscriber is due
    /// for it. A record that cannot be had ends the work on the commit with that failure; the
    /// deliveries for the operations before it stay due.
    pub fn handle_commit(&self, commit: &CommitEvent) -> (dispatch: Dispatch)
        ensures
            dispatch@ == handled(self.subscribers_of(commit@.author_id), commit@),
    {
        let subscribers = self.registry.lookup(commit.author_id.as_str());
        let mut deliveries: Vec<Delivery> = Vec::new();
        assert(delivery_views(deliveries@) =~= Seq::<DeliveryView>::empty());
        if subscribers.len() == 0 {
            return Dispatch { deliveries, result: Ok(()) };
        }
        let ghost interested = subscriber_views(subscribers@);
        let ghost operations = operation_views(commit.operations@);
        let mut i: usize = 0;
        assert(operations.take(0) =~= Seq::<OperationView>::empty());
        while i < commit.operations.len()
            invariant
                i <= commit.operations.len(),
                interested == subscriber_views(subscribers@),
                interested == self.subscribers_of(commit@.author_id),
                interested.len() > 0,
                operations == operation_views(commit.operations@),
                dispatched(interested, operations.take(i as int), commit.blocks@) == (
                DispatchView { deliveries: delivery_views(deliveries@), failure: None }),
            decreases commit.operations.len() - i,
        {
            let op = &commit.operations[i];
            assert(operations.take(i + 1).drop_last() =~= operations.take(i as int));
            assert(operations.take(i + 1).last() == op@);
            if is_post_creation(op) {
                match fetch_record(commit.blocks.as_slice(), op) {
                    Ok(record) => {
                        deliver_to_all(&mut deliveries, &subscribers, &record);
                    },
                    Err(e) => {
                        proof {
                            lemma_dispatch_ends_on_failure(
                                interested,
                                operations,
                                commit.blocks@,
                                i + 1,
                            );
                        }
                        return Dispatch { deliveries, result: Err(e) };
                    },
                }
            }
            i += 1;
        }
        assert(operations.take(i as int) =~= operations);
        Dispatch { deliveries, result: Ok(()) }
    }
}

} // verus!
