//! The subscription registry: who wants to hear of which author.
//!
//! A registry is a snapshot. It is built in one piece from the rows of the subscriber store and
//! is never changed in place; a reload puts a whole new snapshot in its stead.

use vstd::prelude::*;
use crate::text::same_text;

verus! {

/// One row of interest: notify this destination when this author posts.
#[derive(Debug, Clone, PartialEq, Eq)]
pub struct Subscriber {
    /// The stable identity of the author.
    pub author_id: String,
    /// Where the notification goes.
    pub destination_address: String,
}

/// The mathematical value of a [`Subscriber`].
pub struct SubscriberView {
    pub author_id: Seq<char>,
    pub destination_address: Seq<char>,
}

impl View for Subscriber {
    type V = SubscriberView;

    open spec fn view(&self) -> SubscriberView {
        SubscriberView {
            author_id: self.author_id@,
            destination_address: self.destination_address@,
        }
    }
}

impl Subscriber {
    /// A copy with the same fields.
    pub fn duplicate(&self) -> (copy: Subscriber)
        ensures
            copy@ == self@,
    {
        Subscriber {
            author_id: self.author_id.clone(),
            destination_address: self.destination_address.clone(),
        }
    }
}

/// The views of `rows`, in their order.
pub open spec fn subscriber_views(rows: Seq<Subscriber>) -> Seq<SubscriberView> {
    rows.map_values(|s: Subscriber| s@)
}

/// The test that a subscriber is interested in `author`.
pub open spec fn by_author(author: Seq<char>) -> spec_fn(SubscriberView) -> bool {
    |s: SubscriberView| s.author_id == author
}

/// The rows that are interested in `author`, in the order of `rows`.
pub open spec fn interested(rows: Seq<SubscriberView>, author: Seq<char>) -> Seq<SubscriberView> {
    rows.filter(by_author(author))
}

/// The mapping that `rows` describe: each author that a row names, to the rows that name it.
pub open spec fn mapping_of(rows: Seq<SubscriberView>) -> Map<Seq<char>, Seq<SubscriberView>> {
    Map::new(
        |author: Seq<char>| interested(rows, author).len() > 0,
        |author: Seq<char>| interested(rows, author),
    )
}

/// The identity that the identity parser of `atrium_api` reads from `text`; `None` where the
/// parser rejects `text`.
pub uninterp spec fn did_of(text: Seq<char>) -> Option<Seq<char>>;

/// Calls `str::parse` for `atrium_api::types::string::Did` and hands the identity back as
/// text; an error of the parser becomes `None`. The result is that of the parser on this
/// text; nothing is claimed about which texts it accepts.
#[verifier::external_body]
fn parse_did(text: &str) -> (out: Option<String>)
    ensures
        out is Some == did_of(text@) is Some,
        out matches Some(did) ==> did_of(text@) == Some(did@),
{
    match text.parse::<atrium_api::types::string::Did>() {
        Ok(did) => Some(String::from(did)),
        Err(_) => None,
    }
}

/// `row` with its author named by the identity that was parsed from it.
pub open spec fn identified_row(row: SubscriberView) -> SubscriberView {
    SubscriberView {
        author_id: did_of(row.author_id).unwrap(),
        destination_address: row.destination_address,
    }
}

/// `rows` with each author named by the identity that was parsed from it; `None` where a row
/// names no identity.
pub open spec fn identified(rows: Seq<SubscriberView>) -> Option<Seq<SubscriberView>> {
    if forall|i: int| 0 <= i < rows.len() ==> did_of((#[trigger] rows[i]).author_id) is Some {
        Some(rows.map_values(|row: SubscriberView| identified_row(row)))
    } else {
        None
    }
}

/// Reads the identity of the author out of each row of the subscriber store.
///
/// Returns the rows with their authors as the identity parser gives them, or `None` where a
/// row names no identity. A registry is built from any rows; it is for the owner of the store
/// to say what becomes of rows that fail here.
pub fn identify(rows: &Vec<Subscriber>) -> (out: Option<Vec<Subscriber>>)
    ensures
        match out {
            Some(named) => identified(subscriber_views(rows@)) == Some(subscriber_views(named@)),
            None => identified(subscriber_views(rows@)) is None,
        },
{
    let ghost all = subscriber_views(rows@);
    let mut named: Vec<Subscriber> = Vec::new();
    let mut i: usize = 0;
    while i < rows.len()
        invariant
            i <= rows.len(),
            all == subscriber_views(rows@),
            named@.len() == i,
            forall|k: int| 0 <= k < i ==> did_of((#[trigger] all[k]).author_id) is Some,
            forall|k: int| 0 <= k < i ==> (#[trigger] named@[k])@ == identified_row(all[k]),
        decreases rows.len() - i,
    {
        assert(all[i as int] == rows@[i as int]@);
        match parse_did(rows[i].author_id.as_str()) {
            Some(did) => {
                named.push(
                    Subscriber {
                        author_id: did,
                        destination_address: rows[i].destination_address.clone(),
                    },
                );
            },
            None => {
                return None;
            },
        }
        i += 1;
    }
    assert(subscriber_views(named@) =~= all.map_values(|row: SubscriberView| identified_row(row)));
    Some(named)
}

/// Why a reload did not take place.
#[derive(Debug, Clone, PartialEq, Eq)]
pub enum ReloadError {
    /// The subscriber store did not hand out its rows.
    Unavailable {
        /// What the store said.
        reason: String,
    },
}

/// The subscribers of one author.
struct Group {
    author_id: String,
    subscribers: Vec<Subscriber>,
}

/// A snapshot of the mapping from authors to their subscribers.
pub struct Registry {
    groups: Vec<Group>,
}

/// The index of the group of `author`, where there is one.
spec fn group_index(groups: Seq<Group>, author: Seq<char>) -> int {
    choose|i: int| 0 <= i < groups.len() && (#[trigger] groups[i]).author_id@ == author
}

/// Whether `author` has a group.
spec fn has_group(groups: Seq<Group>, author: Seq<char>) -> bool {
    exists|i: int| 0 <= i < groups.len() && (#[trigger] groups[i]).author_id@ == author
}

impl View for Registry {
    type V = Map<Seq<char>, Seq<SubscriberView>>;

    closed spec fn view(&self) -> Map<Seq<char>, Seq<SubscriberView>> {
        Map::new(
            |author: Seq<char>| has_group(self.groups@, author),
            |author: Seq<char>|
                subscriber_views(self.groups@[group_index(self.groups@, author)].subscribers@),
        )
    }
}

/// Finds the group of `author`.
fn position(groups: &Vec<Group>, author: &str) -> (found: Option<usize>)
    ensures
        match found {
            Some(i) => i < groups.len() && groups@[i as int].author_id@ == author@,
            None => !has_group(groups@, author@),
        },
{
    let mut i: usize = 0;
    while i < groups.len()
        invariant
            i <= groups.len(),
            forall|j: int| 0 <= j < i ==> (#[trigger] groups@[j]).author_id@ != author@,
        decreases groups.len() - i,
    {
        if same_text(groups[i].author_id.as_str(), author) {
            return Some(i);
        }
        i += 1;
    }
    None
}

/// Copies the rows that are interested in `author`.
fn collect(rows: &Vec<Subscriber>, author: &str) -> (found: Vec<Subscriber>)
    ensures
        subscriber_views(found@) == interested(subscriber_views(rows@), author@),
{
    let ghost all = subscriber_views(rows@);
    let mut found: Vec<Subscriber> = Vec::new();
    let mut i: usize = 0;
    proof {
        reveal(Seq::filter);
    }
    while i < rows.len()
        invariant
            i <= rows.len(),
            all == subscriber_views(rows@),
            subscriber_views(found@) == interested(all.take(i as int), author@),
        decreases rows.len() - i,
    {
        proof {
            reveal(Seq::filter);
            assert(all.take(i + 1).drop_last() =~= all.take(i as int));
        }
        if same_text(rows[i].author_id.as_str(), author) {
            found.push(rows[i].duplicate());
        }
        i += 1;
    }
    assert(all.take(i as int) =~= all);
    found
}

impl Registry {
    #[verifier::type_invariant]
    spec fn well_formed(self) -> bool {
        forall|i: int, j: int|
            0 <= i < j < self.groups@.len() ==> (#[trigger] self.groups@[i]).author_id@ != (
            #[trigger] self.groups@[j]).author_id@
    }

    /// The subscribers of `author` in this snapshot; none where the author has none.
    pub open spec fn subscribers_of(&self, author: Seq<char>) -> Seq<SubscriberView> {
        if self@.dom().contains(author) {
            self@[author]
        } else {
            Seq::empty()
        }
    }

    /// The registry without subscribers.
    pub fn new() -> (registry: Registry)
        ensures
            registry@ == Map::<Seq<char>, Seq<SubscriberView>>::empty(),
    {
        Registry { groups: Vec::new() }
    }

    /// Builds the snapshot that the rows of the subscriber store describe. The subscribers of
    /// an author keep the order of the rows.
    pub fn from_rows(rows: &Vec<Subscriber>) -> (registry: Registry)
        ensures
            registry@ == mapping_of(subscriber_views(rows@)),
    {
        let ghost all = subscriber_views(rows@);
        let mut groups: Vec<Group> = Vec::new();
        let mut i: usize = 0;
        while i < rows.len()
            invariant
                i <= rows.len(),
                all == subscriber_views(rows@),
                forall|a: int, b: int|
                    0 <= a < b < groups@.len() ==> (#[trigger] groups@[a]).author_id@ != (
                    #[trigger] groups@[b]).author_id@,
                forall|g: int|
                    0 <= g < groups@.len() ==> subscriber_views(
                        (#[trigger] groups@[g]).subscribers@,
                    ) == interested(all, groups@[g].author_id@),
                forall|g: int|
                    0 <= g < groups@.len() ==> interested(
                        all,
                        (#[trigger] groups@[g]).author_id@,
                    ).len() > 0,
                forall|k: int| 0 <= k < i ==> has_group(groups@, (#[trigger] all[k]).author_id),
            decreases rows.len() - i,
        {
            let author = rows[i].author_id.as_str();
            assert(all[i as int] == rows@[i as int]@);
            if position(&groups, author).is_none() {
                let subscribers = collect(rows, author);
                let ghost before = groups@;
                proof {
                    lemma_interested(all, author@);
                }
                groups.push(Group { author_id: rows[i].author_id.clone(), subscribers });
                assert forall|k: int| 0 <= k < i + 1 implies has_group(
                    groups@,
                    (#[trigger] all[k]).author_id,
                ) by {
                    if k < i {
                        let g = group_index(before, all[k].author_id);
                        assert(groups@[g] == before[g]);
                    } else {
                        assert(groups@[before.len() as int].author_id@ == all[k].author_id);
                    }
                }
            }
            i += 1;
        }
        let registry = Registry { groups };
        proof {
            let target = mapping_of(all);
            assert forall|author: Seq<char>| registry@.dom().contains(author)
                == target.dom().contains(author) by {
                lemma_interested(all, author);
                if has_group(registry.groups@, author) {
                    let g = group_index(registry.groups@, author);
                    assert(registry.groups@[g].author_id@ == author);
                }
                if interested(all, author).len() > 0 {
                    let k = choose|k: int|
                        0 <= k < all.len() && (#[trigger] all[k]).author_id == author;
                    assert(has_group(registry.groups@, all[k].author_id));
                }
            }
            assert forall|author: Seq<char>| registry@.dom().contains(author)
                implies registry@[author] == target[author] by {
                let g = group_index(registry.groups@, author);
                assert(registry.groups@[g].author_id@ == author);
            }
            assert(registry@ =~= target);
        }
        registry
    }

    /// The subscribers of `author_id`, in the order of the rows from which this snapshot was
    /// built; none where the author has no subscriber.
    pub fn lookup(&self, author_id: &str) -> (found: Vec<Subscriber>)
        ensures
            subscriber_views(found@) == self.subscribers_of(author_id@),
    {
        proof {
            use_type_invariant(self);
        }
        match position(&self.groups, author_id) {
            Some(i) => copy_rows(&self.groups[i].subscribers),
            None => Vec::new(),
        }
    }

    /// Puts the snapshot that `fetched` describes in the place of this one, or leaves this one
    /// as it is where the store failed.
    ///
    /// `fetched` is what the subscriber store answered: all of its rows, or its failure. A
    /// failure is handed back and changes nothing: it is never taken for an empty set of rows.
    pub fn reload(&mut self, fetched: Result<Vec<Subscriber>, ReloadError>) -> (result: Result<
        (),
        ReloadError,
    >)
        ensures
            match fetched {
                Ok(rows) => result is Ok && final(self)@ == mapping_of(subscriber_views(rows@)),
                Err(e) => result == Err::<(), ReloadError>(e) && final(self)@ == old(self)@,
            },
    {
        match fetched {
            Ok(rows) => {
                let next = Registry::from_rows(&rows);
                *self = next;
                Ok(())
            },
            Err(e) => Err(e),
        }
    }

    /// The authors that have a subscriber, each once.
    pub fn authors(&self) -> (authors: Vec<String>)
        ensures
            forall|author: Seq<char>|
                self@.dom().contains(author) <==> exists|i: int|
                    0 <= i < authors@.len() && (#[trigger] authors@[i])@ == author,
            forall|i: int, j: int|
                0 <= i < j < authors@.len() ==> (#[trigger] authors@[i])@ != (
                #[trigger] authors@[j])@,
    {
        proof {
            use_type_invariant(self);
        }
        let mut authors: Vec<String> = Vec::new();
        let mut i: usize = 0;
        while i < self.groups.len()
            invariant
                i <= self.groups.len(),
                authors@.len() == i,
                forall|k: int|
                    0 <= k < i ==> (#[trigger] authors@[k])@ == self.groups@[k].author_id@,
            decreases self.groups.len() - i,
        {
            authors.push(self.groups[i].author_id.clone());
            i += 1;
        }
        proof {
            assert forall|author: Seq<char>| self@.dom().contains(author) <==> exists|i: int|
                0 <= i < authors@.len() && (#[trigger] authors@[i])@ == author by {
                if has_group(self.groups@, author) {
                    let g = group_index(self.groups@, author);
                    assert(authors@[g]@ == author);
                }
                if exists|i: int| 0 <= i < authors@.len() && (#[trigger] authors@[i])@ == author {
                    let k = choose|i: int|
                        0 <= i < authors@.len() && (#[trigger] authors@[i])@ == author;
                    assert(self.groups@[k].author_id@ == author);
                }
            }
            assert forall|i: int, j: int| 0 <= i < j < authors@.len() implies (
            #[trigger] authors@[i])@ != (#[trigger] authors@[j])@ by {
                assert(self.groups@[i].author_id@ != self.groups@[j].author_id@);
            }
        }
        authors
    }
}

/// Copies `rows`.
fn copy_rows(rows: &Vec<Subscriber>) -> (copy: Vec<Subscriber>)
    ensures
        subscriber_views(copy@) == subscriber_views(rows@),
{
    let mut copy: Vec<Subscriber> = Vec::new();
    let mut i: usize = 0;
    while i < rows.len()
        invariant
            i <= rows.len(),
            copy@.len() == i,
            forall|k: int| 0 <= k < i ==> (#[trigger] copy@[k])@ == rows@[k]@,
        decreases rows.len() - i,
    {
        copy.push(rows[i].duplicate());
        i += 1;
    }
    copy
}

/// Some row is interested in `author` exactly where some row names `author`.
pub proof fn lemma_interested(rows: Seq<SubscriberView>, author: Seq<char>)
    ensures
        interested(rows, author).len() > 0 <==> exists|k: int|
            0 <= k < rows.len() && (#[trigger] rows[k]).author_id == author,
    decreases rows.len(),
{
    reveal(Seq::filter);
    if rows.len() > 0 {
        let front = rows.drop_last();
        lemma_interested(front, author);
        if exists|k: int| 0 <= k < rows.len() && (#[trigger] rows[k]).author_id == author {
            let k = choose|k: int| 0 <= k < rows.len() && (#[trigger] rows[k]).author_id == author;
            if k < front.len() {
                assert(front[k].author_id == author);
            }
        }
        if exists|k: int| 0 <= k < front.len() && (#[trigger] front[k]).author_id == author {
            let k = choose|k: int|
                0 <= k < front.len() && (#[trigger] front[k]).author_id == author;
            assert(rows[k].author_id == author);
        }
    }
}

} // verus!
