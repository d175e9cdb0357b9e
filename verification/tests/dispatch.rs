use std::collections::BTreeMap;

use atrium_api::types::Collection;
use firehose_dispatch::archive::ExtractError;
use firehose_dispatch::commit::{decode_commit, CommitEvent, Operation};
use firehose_dispatch::dispatch::{is_post_creation, Delivery, Dispatch, DispatchError, Handler};
use firehose_dispatch::record::{ContentRecord, DecodeError};
use firehose_dispatch::registry::{ReloadError, Subscriber};
use ipld_core::cid::Cid;
use ipld_core::ipld::Ipld;
use sha2::{Digest, Sha256};

fn varint(mut n: u64) -> Vec<u8> {
    let mut out = Vec::new();
    loop {
        let byte = (n & 0x7f) as u8;
        n >>= 7;
        if n == 0 {
            out.push(byte);
            return out;
        }
        out.push(byte | 0x80);
    }
}

fn cid_of(data: &[u8]) -> Vec<u8> {
    let mut cid = vec![0x01, 0x71, 0x12, 0x20];
    cid.extend_from_slice(&Sha256::digest(data));
    cid
}

fn archive_of(blocks: &[Vec<u8>]) -> Vec<u8> {
    let root = cid_of(blocks.first().map(|b| b.as_slice()).unwrap_or(b""));
    let mut map = BTreeMap::new();
    map.insert(
        "roots".to_string(),
        Ipld::List(vec![Ipld::Link(Cid::try_from(root.as_slice()).unwrap())]),
    );
    map.insert("version".to_string(), Ipld::Integer(1));
    let header = serde_ipld_dagcbor::to_vec(&Ipld::Map(map)).unwrap();
    let mut out = varint(header.len() as u64);
    out.extend_from_slice(&header);
    for data in blocks {
        let cid = cid_of(data);
        out.extend_from_slice(&varint((cid.len() + data.len()) as u64));
        out.extend_from_slice(&cid);
        out.extend_from_slice(data);
    }
    out
}

fn post(created_at: &str, text: &str) -> Vec<u8> {
    let mut map = BTreeMap::new();
    map.insert("$type".to_string(), Ipld::String("app.bsky.feed.post".to_string()));
    map.insert("createdAt".to_string(), Ipld::String(created_at.to_string()));
    map.insert("text".to_string(), Ipld::String(text.to_string()));
    serde_ipld_dagcbor::to_vec(&Ipld::Map(map)).unwrap()
}

fn subscriber(author: &str, destination: &str) -> Subscriber {
    Subscriber { author_id: author.to_string(), destination_address: destination.to_string() }
}

fn create(path: &str, cid: Option<Vec<u8>>) -> Operation {
    Operation { action: "create".to_string(), path: path.to_string(), content_identifier: cid }
}

fn commit(author: &str, operations: Vec<Operation>, blocks: Vec<u8>) -> CommitEvent {
    CommitEvent { author_id: author.to_string(), operations, blocks }
}

fn due(deliveries: Vec<Delivery>) -> Dispatch {
    Dispatch { deliveries, result: Ok(()) }
}

fn failed(deliveries: Vec<Delivery>, error: DispatchError) -> Dispatch {
    Dispatch { deliveries, result: Err(error) }
}

fn hello() -> ContentRecord {
    ContentRecord { created_at: "2024-01-01T00:00:00Z".to_string(), text: "hello".to_string() }
}

#[test]
fn one_subscriber_gets_one_notification() {
    let handler = Handler::from_db(&vec![subscriber("did:example:abc", "+15555550123")]);
    let block = post("2024-01-01T00:00:00Z", "hello");
    let event = commit(
        "did:example:abc",
        vec![create("app.bsky.feed.post/3k2yihcrp6f2c", Some(cid_of(&block)))],
        archive_of(&[block]),
    );
    assert_eq!(
        handler.handle_commit(&event),
        due(vec![Delivery { destination_address: "+15555550123".to_string(), record: hello() }])
    );
}

#[test]
fn an_identifier_absent_from_the_archive_fails_the_commit() {
    let handler = Handler::from_db(&vec![subscriber("did:example:abc", "+15555550123")]);
    let block = post("2024-01-01T00:00:00Z", "hello");
    let absent = cid_of(b"not in the archive");
    let event = commit(
        "did:example:abc",
        vec![create("app.bsky.feed.post/3k2yihcrp6f2c", Some(absent.clone()))],
        archive_of(&[block]),
    );
    assert_eq!(
        handler.handle_commit(&event),
        failed(vec![], DispatchError::Extract(ExtractError::NotFound {
            target_cid: Some(absent),
            entries_scanned: 1
        }))
    );
}

#[test]
fn an_author_without_subscribers_is_passed_over_whatever_the_archive_holds() {
    let handler = Handler::from_db(&vec![subscriber("did:example:abc", "+15555550123")]);
    let event = commit(
        "did:example:other",
        vec![create("app.bsky.feed.post/3k2yihcrp6f2c", Some(cid_of(b"x")))],
        b"this is no archive".to_vec(),
    );
    assert_eq!(handler.handle_commit(&event), due(vec![]));
    let empty = Handler::from_db(&vec![]);
    assert_eq!(empty.handle_commit(&event), due(vec![]));
}

#[test]
fn a_malformed_archive_fails_the_commit_of_a_subscribed_author() {
    let handler = Handler::from_db(&vec![subscriber("did:example:abc", "+15555550123")]);
    let event = commit(
        "did:example:abc",
        vec![create("app.bsky.feed.post/3k2yihcrp6f2c", Some(cid_of(b"x")))],
        b"this is no archive".to_vec(),
    );
    assert_eq!(handler.handle_commit(&event), failed(vec![], DispatchError::Extract(ExtractError::Malformed)));
}

#[test]
fn a_malformed_archive_does_no_harm_where_no_post_is_created() {
    let handler = Handler::from_db(&vec![subscriber("did:example:abc", "+15555550123")]);
    let operations = vec![
        Operation {
            action: "update".to_string(),
            path: "app.bsky.feed.post/3k2yihcrp6f2c".to_string(),
            content_identifier: Some(cid_of(b"x")),
        },
        Operation {
            action: "delete".to_string(),
            path: "app.bsky.feed.post/3k2yihcrp6f2c".to_string(),
            content_identifier: None,
        },
        create("app.bsky.feed.like/3k2yihcrp6f2c", Some(cid_of(b"x"))),
        create("app.bsky.feed.postings/3k2yihcrp6f2c", Some(cid_of(b"x"))),
    ];
    let event = commit("did:example:abc", operations, b"this is no archive".to_vec());
    assert_eq!(handler.handle_commit(&event), due(vec![]));
}

#[test]
fn a_block_that_is_no_record_fails_the_commit() {
    let handler = Handler::from_db(&vec![subscriber("did:example:abc", "+15555550123")]);
    let block = b"\xa1\x61\x61\x01".to_vec();
    let event = commit(
        "did:example:abc",
        vec![create("app.bsky.feed.post/3k2yihcrp6f2c", Some(cid_of(&block)))],
        archive_of(&[block]),
    );
    assert_eq!(handler.handle_commit(&event), failed(vec![], DispatchError::Decode(DecodeError::Invalid)));
}

#[test]
fn an_operation_without_identifier_finds_nothing() {
    let handler = Handler::from_db(&vec![subscriber("did:example:abc", "+15555550123")]);
    let block = post("2024-01-01T00:00:00Z", "hello");
    let event = commit(
        "did:example:abc",
        vec![create("app.bsky.feed.post/3k2yihcrp6f2c", None)],
        archive_of(&[block.clone(), b"another".to_vec()]),
    );
    assert_eq!(
        handler.handle_commit(&event),
        failed(vec![], DispatchError::Extract(ExtractError::NotFound { target_cid: None, entries_scanned: 2 }))
    );
    let broken = commit(
        "did:example:abc",
        vec![create("app.bsky.feed.post/3k2yihcrp6f2c", None)],
        vec![0x00],
    );
    assert_eq!(handler.handle_commit(&broken), failed(vec![], DispatchError::Extract(ExtractError::Malformed)));
}

#[test]
fn every_subscriber_gets_every_post_in_order() {
    let handler = Handler::from_db(&vec![
        subscriber("did:example:abc", "+1"),
        subscriber("did:example:xyz", "+2"),
        subscriber("did:example:abc", "+3"),
    ]);
    let first = post("2024-01-01T00:00:00Z", "first");
    let second = post("2024-01-02T00:00:00Z", "second");
    let event = commit(
        "did:example:abc",
        vec![
            create("app.bsky.feed.post/a", Some(cid_of(&second))),
            create("app.bsky.graph.follow/b", Some(cid_of(b"unused"))),
            create("app.bsky.feed.post/c", Some(cid_of(&first))),
        ],
        archive_of(&[first, second]),
    );
    let first_record =
        ContentRecord { created_at: "2024-01-01T00:00:00Z".to_string(), text: "first".to_string() };
    let second_record =
        ContentRecord { created_at: "2024-01-02T00:00:00Z".to_string(), text: "second".to_string() };
    assert_eq!(
        handler.handle_commit(&event),
        due(vec![
            Delivery { destination_address: "+1".to_string(), record: second_record.clone() },
            Delivery { destination_address: "+3".to_string(), record: second_record },
            Delivery { destination_address: "+1".to_string(), record: first_record.clone() },
            Delivery { destination_address: "+3".to_string(), record: first_record },
        ])
    );
}

#[test]
fn a_failure_leaves_due_what_came_before_it() {
    let handler = Handler::from_db(&vec![subscriber("did:example:abc", "+1")]);
    let first = post("2024-01-01T00:00:00Z", "first");
    let absent = cid_of(b"absent");
    let event = commit(
        "did:example:abc",
        vec![
            create("app.bsky.feed.post/a", Some(cid_of(&first))),
            create("app.bsky.feed.post/b", Some(absent.clone())),
        ],
        archive_of(&[first]),
    );
    let first_record =
        ContentRecord { created_at: "2024-01-01T00:00:00Z".to_string(), text: "first".to_string() };
    assert_eq!(
        handler.handle_commit(&event),
        failed(
            vec![Delivery { destination_address: "+1".to_string(), record: first_record }],
            DispatchError::Extract(ExtractError::NotFound {
                target_cid: Some(absent),
                entries_scanned: 1
            })
        )
    );
}

#[test]
fn nothing_after_a_failure_is_looked_at() {
    let handler = Handler::from_db(&vec![subscriber("did:example:abc", "+1")]);
    let last = post("2024-01-01T00:00:00Z", "last");
    let absent = cid_of(b"absent");
    let event = commit(
        "did:example:abc",
        vec![
            create("app.bsky.feed.post/a", Some(absent.clone())),
            create("app.bsky.feed.post/b", Some(cid_of(&last))),
        ],
        archive_of(&[last]),
    );
    assert_eq!(
        handler.handle_commit(&event),
        failed(
            vec![],
            DispatchError::Extract(ExtractError::NotFound {
                target_cid: Some(absent),
                entries_scanned: 1
            })
        )
    );
}

#[test]
fn the_first_failure_is_the_one_reported() {
    let handler = Handler::from_db(&vec![subscriber("did:example:abc", "+1")]);
    let junk = b"\x80".to_vec();
    let absent = cid_of(b"absent");
    let event = commit(
        "did:example:abc",
        vec![
            create("app.bsky.feed.post/a", Some(cid_of(&junk))),
            create("app.bsky.feed.post/b", Some(absent)),
        ],
        archive_of(&[junk]),
    );
    assert_eq!(handler.handle_commit(&event), failed(vec![], DispatchError::Decode(DecodeError::Invalid)));
}

#[test]
fn only_creations_in_the_collection_of_posts_count() {
    assert!(is_post_creation(&create("app.bsky.feed.post/3k2yihcrp6f2c", None)));
    assert!(is_post_creation(&create("app.bsky.feed.post", None)));
    assert!(is_post_creation(&create("app.bsky.feed.post/", None)));
    assert!(is_post_creation(&create("app.bsky.feed.post/a/b", None)));
    assert!(!is_post_creation(&create("app.bsky.feed.posts/a", None)));
    assert!(!is_post_creation(&create("app.bsky.feed.pos", None)));
    assert!(!is_post_creation(&create("/app.bsky.feed.post", None)));
    assert!(!is_post_creation(&create("", None)));
    assert!(!is_post_creation(&create("app.bsky.feed.like/a", None)));
    let mut op = create("app.bsky.feed.post/a", None);
    op.action = "update".to_string();
    assert!(!is_post_creation(&op));
    op.action = "delete".to_string();
    assert!(!is_post_creation(&op));
    op.action = "Create".to_string();
    assert!(!is_post_creation(&op));
}

#[test]
fn the_collection_of_posts_is_the_one_of_the_lexicon() {
    let path = format!("{}/3k2yihcrp6f2c", atrium_api::app::bsky::feed::Post::NSID);
    assert!(is_post_creation(&create(&path, None)));
}

#[test]
fn a_failed_update_leaves_the_routing_as_it_was() {
    let mut handler = Handler::from_db(&vec![subscriber("did:example:abc", "+15555550123")]);
    let before = handler.registry().lookup("did:example:abc");
    let failure = ReloadError::Unavailable { reason: "connection refused".to_string() };
    assert_eq!(handler.update_from_db(Err(failure.clone())), Err(failure));
    assert_eq!(handler.registry().lookup("did:example:abc"), before);
    assert_eq!(before, vec![subscriber("did:example:abc", "+15555550123")]);
}

#[test]
fn an_update_replaces_the_routing_as_a_whole() {
    let mut handler = Handler::from_db(&vec![subscriber("did:example:abc", "+1")]);
    assert_eq!(handler.update_from_db(Ok(vec![subscriber("did:example:xyz", "+2")])), Ok(()));
    assert_eq!(handler.registry().lookup("did:example:abc"), vec![]);
    assert_eq!(handler.registry().lookup("did:example:xyz"), vec![subscriber("did:example:xyz", "+2")]);
    let block = post("2024-01-01T00:00:00Z", "hello");
    let event = commit(
        "did:example:xyz",
        vec![create("app.bsky.feed.post/a", Some(cid_of(&block)))],
        archive_of(&[block]),
    );
    assert_eq!(
        handler.handle_commit(&event),
        due(vec![Delivery { destination_address: "+2".to_string(), record: hello() }])
    );
}

fn commit_body(repo: &str, ops: Vec<Ipld>, blocks: Vec<u8>) -> Vec<u8> {
    let link = Ipld::Link(Cid::try_from(cid_of(b"commit").as_slice()).unwrap());
    let mut map = BTreeMap::new();
    map.insert("blobs".to_string(), Ipld::List(vec![]));
    map.insert("blocks".to_string(), Ipld::Bytes(blocks));
    map.insert("commit".to_string(), link);
    map.insert("ops".to_string(), Ipld::List(ops));
    map.insert("rebase".to_string(), Ipld::Bool(false));
    map.insert("repo".to_string(), Ipld::String(repo.to_string()));
    map.insert("rev".to_string(), Ipld::String("3jzfcijpj2z2a".to_string()));
    map.insert("seq".to_string(), Ipld::Integer(42));
    map.insert("since".to_string(), Ipld::Null);
    map.insert("time".to_string(), Ipld::String("2024-01-01T00:00:00.000Z".to_string()));
    map.insert("tooBig".to_string(), Ipld::Bool(false));
    serde_ipld_dagcbor::to_vec(&Ipld::Map(map)).unwrap()
}

fn op_map(action: &str, path: &str, cid: Option<&[u8]>) -> Ipld {
    let mut map = BTreeMap::new();
    map.insert("action".to_string(), Ipld::String(action.to_string()));
    map.insert("path".to_string(), Ipld::String(path.to_string()));
    map.insert(
        "cid".to_string(),
        match cid {
            Some(bytes) => Ipld::Link(Cid::try_from(bytes).unwrap()),
            None => Ipld::Null,
        },
    );
    Ipld::Map(map)
}

#[test]
fn decode_commit_reads_author_operations_and_archive() {
    let block = post("2024-01-01T00:00:00Z", "hello");
    let cid = cid_of(&block);
    let archive = archive_of(&[block]);
    let body = commit_body(
        "did:example:abc",
        vec![
            op_map("create", "app.bsky.feed.post/3k2yihcrp6f2c", Some(&cid)),
            op_map("delete", "app.bsky.feed.like/3k2yihcrp6f2d", None),
        ],
        archive.clone(),
    );
    assert_eq!(
        decode_commit(&body),
        Ok(CommitEvent {
            author_id: "did:example:abc".to_string(),
            operations: vec![
                Operation {
                    action: "create".to_string(),
                    path: "app.bsky.feed.post/3k2yihcrp6f2c".to_string(),
                    content_identifier: Some(cid),
                },
                Operation {
                    action: "delete".to_string(),
                    path: "app.bsky.feed.like/3k2yihcrp6f2d".to_string(),
                    content_identifier: None,
                },
            ],
            blocks: archive,
        })
    );
}

#[test]
fn decode_commit_rejects_what_is_no_commit() {
    assert_eq!(decode_commit(&[]), Err(DecodeError::Invalid));
    assert_eq!(decode_commit(&post("2024-01-01T00:00:00Z", "hello")), Err(DecodeError::Invalid));
    let mut body = commit_body("did:example:abc", vec![], vec![]);
    body.pop();
    assert_eq!(decode_commit(&body), Err(DecodeError::Invalid));
    assert_eq!(decode_commit(&commit_body("no identity", vec![], vec![])), Err(DecodeError::Invalid));
}
