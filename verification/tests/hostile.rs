use std::collections::BTreeMap;

use firehose_dispatch::archive::{entries, extract, is_framed};
use firehose_dispatch::commit::decode_commit;
use firehose_dispatch::frame::{decode, parse};
use firehose_dispatch::record::decode_record;
use ipld_core::cid::Cid;
use ipld_core::ipld::Ipld;
use sha2::{Digest, Sha256};

fn varint(mut n: u64) -> Vec<u8> {
    let mut out = Vec::new();
    loop {
        let byte = (n & 0x7f) as u8;
        n >>= 7;
        if n == 0 {
            out.push(byte);
            return out;
        }
        out.push(byte | 0x80);
    }
}

fn cid_of(data: &[u8]) -> Vec<u8> {
    let mut cid = vec![0x01, 0x71, 0x12, 0x20];
    cid.extend_from_slice(&Sha256::digest(data));
    cid
}

fn small_archive() -> Vec<u8> {
    let mut map = BTreeMap::new();
    map.insert(
        "roots".to_string(),
        Ipld::List(vec![Ipld::Link(Cid::try_from(cid_of(b"a").as_slice()).unwrap())]),
    );
    map.insert("version".to_string(), Ipld::Integer(1));
    let header = serde_ipld_dagcbor::to_vec(&Ipld::Map(map)).unwrap();
    let mut out = varint(header.len() as u64);
    out.extend_from_slice(&header);
    for data in [&b"a"[..], &b"bc"[..]] {
        let cid = cid_of(data);
        out.extend_from_slice(&varint((cid.len() + data.len()) as u64));
        out.extend_from_slice(&cid);
        out.extend_from_slice(data);
    }
    let mut old = vec![0x12, 0x20];
    old.extend_from_slice(&Sha256::digest(b"d"));
    out.extend_from_slice(&varint((old.len() + 1) as u64));
    out.extend_from_slice(&old);
    out.extend_from_slice(b"d");
    out
}

fn small_archive_v2() -> Vec<u8> {
    let payload = small_archive();
    let mut out = vec![0x0a, 0xa1, 0x67, 0x76, 0x65, 0x72, 0x73, 0x69, 0x6f, 0x6e, 0x02];
    out.extend_from_slice(&[0u8; 16]);
    out.extend_from_slice(&53u64.to_le_bytes());
    out.extend_from_slice(&(payload.len() as u64).to_le_bytes());
    out.extend_from_slice(&0u64.to_le_bytes());
    out.extend_from_slice(&[0u8; 2]);
    out.extend_from_slice(&payload);
    out
}

fn every_byte_changed(good: &[u8], mut visit: impl FnMut(&[u8])) {
    let mut bytes = good.to_vec();
    for at in 0..good.len() {
        for value in 0..=255u8 {
            bytes[at] = value;
            visit(&bytes);
        }
        bytes[at] = good[at];
    }
    for end in 0..good.len() {
        visit(&good[..end]);
    }
}

#[test]
fn no_change_of_a_byte_makes_extract_give_up() {
    let good = small_archive();
    assert_eq!(entries(&good).unwrap().len(), 3);
    let target = cid_of(b"bc");
    let mut parsed = 0usize;
    every_byte_changed(&good, |bytes| {
        if extract(bytes, &target).is_ok() {
            parsed += 1;
        }
    });
    assert!(parsed > 0);
}

#[test]
fn no_change_of_a_byte_makes_extract_give_up_on_version_two() {
    let good = small_archive_v2();
    assert_eq!(entries(&good).unwrap().len(), 3);
    let target = cid_of(b"a");
    let mut parsed = 0usize;
    every_byte_changed(&good, |bytes| {
        if extract(bytes, &target).is_ok() {
            parsed += 1;
        }
    });
    assert!(parsed > 0);
}

#[test]
fn what_is_framed_and_intact_is_parsed() {
    let good = small_archive();
    let blocks = entries(&good).unwrap();
    every_byte_changed(&good, |bytes| {
        if let Ok(found) = entries(bytes) {
            assert!(is_framed(bytes));
            assert!(found.len() <= blocks.len());
        }
    });
}

#[test]
fn two_changed_bytes_do_not_make_extract_give_up() {
    let good = small_archive();
    let target = cid_of(b"a");
    let mut seed: u64 = 0x2545_f491_4f6c_dd1d;
    let mut next = move || {
        seed ^= seed << 13;
        seed ^= seed >> 7;
        seed ^= seed << 17;
        seed
    };
    for _ in 0..200_000 {
        let mut bytes = good.clone();
        for _ in 0..2 {
            let at = (next() % bytes.len() as u64) as usize;
            bytes[at] = (next() & 0xff) as u8;
        }
        let _ = extract(&bytes, &target);
    }
}

#[test]
fn no_change_of_a_byte_makes_the_frame_codec_give_up() {
    let mut map = BTreeMap::new();
    map.insert("error".to_string(), Ipld::String("ConsumerTooSlow".to_string()));
    map.insert("message".to_string(), Ipld::String("too slow".to_string()));
    let mut error = vec![0xa1, 0x62, 0x6f, 0x70, 0x20];
    error.extend_from_slice(&serde_ipld_dagcbor::to_vec(&Ipld::Map(map)).unwrap());
    let mut message = vec![
        0xa2, 0x61, 0x74, 0x67, 0x23, 0x63, 0x6f, 0x6d, 0x6d, 0x69, 0x74, 0x62, 0x6f, 0x70, 0x01,
    ];
    message.extend_from_slice(b"body");
    for good in [error, message] {
        every_byte_changed(&good, |bytes| {
            let _ = decode(bytes);
            let _ = parse(bytes);
        });
    }
}

#[test]
fn no_change_of_a_byte_makes_the_decoders_give_up() {
    let mut post = BTreeMap::new();
    post.insert("$type".to_string(), Ipld::String("app.bsky.feed.post".to_string()));
    post.insert("createdAt".to_string(), Ipld::String("2024-01-01T00:00:00Z".to_string()));
    post.insert("langs".to_string(), Ipld::List(vec![Ipld::String("en".to_string())]));
    post.insert("text".to_string(), Ipld::String("hello".to_string()));
    let post = serde_ipld_dagcbor::to_vec(&Ipld::Map(post)).unwrap();
    assert!(decode_record(&post).is_ok());
    every_byte_changed(&post, |bytes| {
        let _ = decode_record(bytes);
    });

    let link = Ipld::Link(Cid::try_from(cid_of(b"a").as_slice()).unwrap());
    let mut op = BTreeMap::new();
    op.insert("action".to_string(), Ipld::String("create".to_string()));
    op.insert("cid".to_string(), link.clone());
    op.insert("path".to_string(), Ipld::String("app.bsky.feed.post/a".to_string()));
    let mut commit = BTreeMap::new();
    commit.insert("blobs".to_string(), Ipld::List(vec![]));
    commit.insert("blocks".to_string(), Ipld::Bytes(vec![1, 2, 3]));
    commit.insert("commit".to_string(), link);
    commit.insert("ops".to_string(), Ipld::List(vec![Ipld::Map(op)]));
    commit.insert("rebase".to_string(), Ipld::Bool(false));
    commit.insert("repo".to_string(), Ipld::String("did:example:abc".to_string()));
    commit.insert("rev".to_string(), Ipld::String("3jzfcijpj2z2a".to_string()));
    commit.insert("seq".to_string(), Ipld::Integer(42));
    commit.insert("since".to_string(), Ipld::Null);
    commit.insert("time".to_string(), Ipld::String("2024-01-01T00:00:00.000Z".to_string()));
    commit.insert("tooBig".to_string(), Ipld::Bool(false));
    let commit = serde_ipld_dagcbor::to_vec(&Ipld::Map(commit)).unwrap();
    assert!(decode_commit(&commit).is_ok());
    every_byte_changed(&commit, |bytes| {
        let _ = decode_commit(bytes);
    });
}
