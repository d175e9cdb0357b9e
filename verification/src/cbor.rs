//! DAG-CBOR maps, as far as this library reads them: the keys of a map and the integers and
//! texts that stand directly under them.

use vstd::prelude::*;
use crate::text::same_text;

verus! {

/// The value under one key of a map.
#[derive(Debug, Clone, PartialEq, Eq)]
pub enum Scalar {
    Integer(i128),
    Text(String),
    /// Anything else: a list, a map, bytes, a link, a boolean, null.
    Other,
}

/// The mathematical value of a [`Scalar`].
pub enum ScalarView {
    Integer(int),
    Text(Seq<char>),
    Other,
}

impl View for Scalar {
    type V = ScalarView;

    open spec fn view(&self) -> ScalarView {
        match self {
            Scalar::Integer(i) => ScalarView::Integer(*i as int),
            Scalar::Text(t) => ScalarView::Text(t@),
            Scalar::Other => ScalarView::Other,
        }
    }
}

/// One entry of a map.
#[derive(Debug, Clone, PartialEq, Eq)]
pub struct Field {
    pub key: String,
    pub value: Scalar,
}

/// The mathematical value of a [`Field`].
pub struct FieldView {
    pub key: Seq<char>,
    pub value: ScalarView,
}

impl View for Field {
    type V = FieldView;

    open spec fn view(&self) -> FieldView {
        FieldView { key: self.key@, value: self.value@ }
    }
}

/// A map that was read from the front of some bytes.
#[derive(Debug, Clone, PartialEq, Eq)]
pub struct Item {
    /// The entries of the map.
    pub fields: Vec<Field>,
    /// The number of bytes that the map took.
    pub length: usize,
}

/// The mathematical value of an [`Item`].
pub struct ItemView {
    pub fields: Seq<FieldView>,
    pub length: nat,
}

/// The views of the entries of `fields`, in their order.
pub open spec fn field_views(fields: Seq<Field>) -> Seq<FieldView> {
    fields.map_values(|f: Field| f@)
}

impl View for Item {
    type V = ItemView;

    open spec fn view(&self) -> ItemView {
        ItemView { fields: field_views(self.fields@), length: self.length as nat }
    }
}

/// The map that the DAG-CBOR decoder reads from the front of `bytes`, with the number of bytes
/// that it took; `None` where the decoder fails or what it reads is no map.
pub uninterp spec fn leading_map(bytes: Seq<u8>) -> Option<ItemView>;

/// Calls `serde_ipld_dagcbor::de::from_reader_once` on a cursor over `bytes`, which decodes one
/// item and leaves what follows it unread. Where the item is a map, its entries are handed
/// back in the order in which the decoder's map holds them, together with the position that
/// the cursor reached. Integers and texts are kept; every other value is [`Scalar::Other`].
#[verifier::external_body]
pub(crate) fn read_map(bytes: &[u8]) -> (out: Option<Item>)
    ensures
        out is Some == leading_map(bytes@) is Some,
        out matches Some(item) ==> leading_map(bytes@) == Some(item@),
{
    let mut cursor = std::io::Cursor::new(bytes);
    match serde_ipld_dagcbor::de::from_reader_once::<ipld_core::ipld::Ipld, _>(&mut cursor) {
        Ok(ipld_core::ipld::Ipld::Map(map)) => Some(Item {
            fields: map.into_iter().map(|(key, value)| Field { key, value: match value {
                ipld_core::ipld::Ipld::Integer(i) => Scalar::Integer(i),
                ipld_core::ipld::Ipld::String(t) => Scalar::Text(t),
                _ => Scalar::Other,
            } }).collect(),
            length: cursor.position() as usize,
        }),
        _ => None,
    }
}

/// The value under the first entry of `fields` whose key is `key`.
pub open spec fn value_of(fields: Seq<FieldView>, key: Seq<char>) -> Option<ScalarView>
    decreases fields.len(),
{
    if fields.len() == 0 {
        None
    } else if fields[0].key == key {
        Some(fields[0].value)
    } else {
        value_of(fields.drop_first(), key)
    }
}

/// The integer under `key`, where the value under `key` is an integer.
pub open spec fn integer_of(fields: Seq<FieldView>, key: Seq<char>) -> Option<int> {
    match value_of(fields, key) {
        Some(ScalarView::Integer(i)) => Some(i),
        _ => None,
    }
}

/// The text under `key`, where the value under `key` is a text.
pub open spec fn text_of(fields: Seq<FieldView>, key: Seq<char>) -> Option<Seq<char>> {
    match value_of(fields, key) {
        Some(ScalarView::Text(t)) => Some(t),
        _ => None,
    }
}

/// The index of the first entry whose key is `key`.
fn position_of(fields: &Vec<Field>, key: &str) -> (found: Option<usize>)
    ensures
        match found {
            Some(i) => i < fields@.len() && value_of(field_views(fields@), key@) == Some(
                fields@[i as int].value@,
            ),
            None => value_of(field_views(fields@), key@) is None,
        },
{
    let ghost all = field_views(fields@);
    let mut i: usize = 0;
    assert(all.skip(0) =~= all);
    while i < fields.len()
        invariant
            i <= fields@.len(),
            all == field_views(fields@),
            value_of(all, key@) == value_of(all.skip(i as int), key@),
        decreases fields@.len() - i,
    {
        assert(all.skip(i as int).drop_first() =~= all.skip(i + 1));
        if same_text(fields[i].key.as_str(), key) {
            return Some(i);
        }
        i += 1;
    }
    None
}

/// Looks up the integer under `key`.
pub fn find_integer(fields: &Vec<Field>, key: &str) -> (found: Option<i128>)
    ensures
        match found {
            Some(i) => integer_of(field_views(fields@), key@) == Some(i as int),
            None => integer_of(field_views(fields@), key@) is None,
        },
{
    match position_of(fields, key) {
        Some(i) => match &fields[i].value {
            Scalar::Integer(n) => Some(*n),
            _ => None,
        },
        None => None,
    }
}

/// Looks up the text under `key`.
pub fn find_text(fields: &Vec<Field>, key: &str) -> (found: Option<String>)
    ensures
        match found {
            Some(t) => text_of(field_views(fields@), key@) == Some(t@),
            None => text_of(field_views(fields@), key@) is None,
        },
{
    match position_of(fields, key) {
        Some(i) => match &fields[i].value {
            Scalar::Text(t) => Some(t.clone()),
            _ => None,
        },
        None => None,
    }
}

/// The DAG-CBOR encoding of the map with the entries `fields`, if the encoder gives one.
pub uninterp spec fn map_bytes(fields: Seq<FieldView>) -> Option<Seq<u8>>;

/// Calls `serde_ipld_dagcbor::to_vec` on the map that holds `fields`: each key with its
/// integer or text. An error of the encoder becomes `None`. The result is that of the encoder
/// on this map; nothing is claimed about the bytes.
#[verifier::external_body]
pub(crate) fn write_map(fields: &Vec<Field>) -> (out: Option<Vec<u8>>)
    requires
        forall|i: int| 0 <= i < fields@.len() ==> !((#[trigger] fields@[i]).value is Other),
    ensures
        out is Some == map_bytes(field_views(fields@)) is Some,
        out matches Some(bytes) ==> map_bytes(field_views(fields@)) == Some(bytes@),
{
    let map = fields.iter().map(|field| (field.key.clone(), match &field.value {
        Scalar::Integer(i) => ipld_core::ipld::Ipld::Integer(*i),
        Scalar::Text(t) => ipld_core::ipld::Ipld::String(t.clone()),
        Scalar::Other => ipld_core::ipld::Ipld::Null,
    })).collect();
    serde_ipld_dagcbor::to_vec(&ipld_core::ipld::Ipld::Map(map)).ok()
}

} // verus!
