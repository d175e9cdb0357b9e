//! Content-addressed block archives: finding one block by its identifier.
//!
//! An archive is a header followed by blocks. Each block is a length, an identifier and the
//! block's bytes. The archive reader of `rs_car` parses the archive and checks every block
//! against the hash in its identifier. That reader fails abruptly on some malformed input, so
//! this module first walks the framing of the archive itself and hands the reader only what
//! passes.

use vstd::prelude::*;
use vstd::slice::{slice_subrange, slice_to_vec};
use crate::cbor::{find_integer, integer_of, leading_map, read_map};
use crate::text::same_bytes;
use crate::varint::{read_varint, varint_at, VarintRead};

verus! {

/// One entry of an archive.
#[derive(Debug, Clone, PartialEq, Eq)]
pub struct Block {
    /// The byte encoding of the content identifier.
    pub cid: Vec<u8>,
    /// The raw bytes of the block.
    pub data: Vec<u8>,
}

/// The mathematical value of a [`Block`].
pub struct BlockView {
    pub cid: Seq<u8>,
    pub data: Seq<u8>,
}

impl View for Block {
    type V = BlockView;

    open spec fn view(&self) -> BlockView {
        BlockView { cid: self.cid@, data: self.data@ }
    }
}

/// The views of `blocks`, in their order.
pub open spec fn block_views(blocks: Seq<Block>) -> Seq<BlockView> {
    blocks.map_values(|b: Block| b@)
}

/// Why no block came out of an archive.
#[derive(Debug, Clone, PartialEq, Eq)]
pub enum ExtractError {
    /// The bytes are no archive, or a block in it does not match its identifier.
    Malformed,
    /// The archive holds no entry under the identifier that was asked for.
    NotFound {
        /// The identifier that was asked for; `None` where the operation named none.
        target_cid: Option<Vec<u8>>,
        /// The number of entries that the archive holds.
        entries_scanned: usize,
    },
}

/// The mathematical value of an [`ExtractError`].
pub enum ExtractErrorView {
    Malformed,
    NotFound { target_cid: Option<Seq<u8>>, entries_scanned: nat },
}

impl View for ExtractError {
    type V = ExtractErrorView;

    open spec fn view(&self) -> ExtractErrorView {
        match self {
            ExtractError::Malformed => ExtractErrorView::Malformed,
            ExtractError::NotFound { target_cid, entries_scanned } => ExtractErrorView::NotFound {
                target_cid: match target_cid {
                    Some(cid) => Some(cid@),
                    None => None,
                },
                entries_scanned: *entries_scanned as nat,
            },
        }
    }
}

/// The width of the hash that starts at `at`: its code, the size of its digest, and the digest.
/// `None` where one of the two integers is cut short or overlong, the digest is longer than 64
/// bytes, or the input ends within it.
pub open spec fn multihash_width(s: Seq<u8>, at: int) -> Option<int> {
    match varint_at(s, at) {
        VarintRead::Value { value: _, width: code_width } => match varint_at(s, at + code_width) {
            VarintRead::Value { value: size, width: size_width } => {
                let width = code_width + size_width + size;
                if size <= 64 && at + width <= s.len() {
                    Some(width)
                } else {
                    None
                }
            },
            _ => None,
        },
        _ => None,
    }
}

/// The width of the identifier that starts at `at`.
///
/// An identifier of the first version is the two bytes 0x12 and 0x20 and a digest of 32 bytes.
/// One of the second version is the integer 1, a codec and a hash. `None` for anything else.
pub open spec fn cid_width(s: Seq<u8>, at: int) -> Option<int> {
    match varint_at(s, at) {
        VarintRead::Value { value: version, width: version_width } => match varint_at(
            s,
            at + version_width,
        ) {
            VarintRead::Value { value: codec, width: codec_width } => {
                let head = version_width + codec_width;
                if version == 0x12 && codec == 0x20 {
                    if at + head + 32 <= s.len() {
                        Some(head + 32)
                    } else {
                        None
                    }
                } else if version == 1 {
                    match multihash_width(s, at + head) {
                        Some(hash_width) => Some(head + hash_width),
                        None => None,
                    }
                } else {
                    None
                }
            },
            _ => None,
        },
        _ => None,
    }
}

/// What stands at a place where a block may start.
#[derive(Debug, Clone, Copy, PartialEq, Eq, Structural)]
pub enum BlockRead {
    /// A block that lies within the input, with its width, the length in front included.
    Entry(usize),
    /// The input ends here, or within the length of a block.
    End,
    /// Something that is no block.
    Bad,
}

/// What stands at `at`.
///
/// A block is the length of what follows, then an identifier and the block's bytes. The length
/// is not zero and not less than the width of the identifier.
pub open spec fn block_at(s: Seq<u8>, at: int) -> BlockRead {
    match varint_at(s, at) {
        VarintRead::Short => BlockRead::End,
        VarintRead::Overlong => BlockRead::Bad,
        VarintRead::Value { value: length, width } => match cid_width(s, at + width) {
            Some(cid) => if 0 < length && cid <= length && at + width + length <= s.len() {
                BlockRead::Entry((width + length) as usize)
            } else {
                BlockRead::Bad
            },
            None => BlockRead::Bad,
        },
    }
}

/// Blocks follow one another from `at` to where the input ends.
pub open spec fn blocks_to_end(s: Seq<u8>, at: int) -> bool
    decreases s.len() - at,
{
    match block_at(s, at) {
        BlockRead::End => true,
        BlockRead::Bad => false,
        BlockRead::Entry(width) => 0 < width && at + width <= s.len() && blocks_to_end(
            s,
            at + width,
        ),
    }
}

/// Blocks follow one another from `at` until their widths add up to `budget` or more.
pub open spec fn blocks_for(s: Seq<u8>, at: int, budget: int) -> bool
    decreases s.len() - at,
{
    if budget <= 0 {
        true
    } else {
        match block_at(s, at) {
            BlockRead::Entry(width) => 0 < width && at + width <= s.len() && blocks_for(
                s,
                at + width,
                budget - width,
            ),
            _ => false,
        }
    }
}

/// The header that starts at `at`: its width, the length in front included, and its version.
///
/// A header is the length of what follows and then a map that fills that length and holds an
/// integer under the key `version`.
pub open spec fn header_at(s: Seq<u8>, at: int) -> Option<(int, int)> {
    match varint_at(s, at) {
        VarintRead::Value { value: length, width } => if at + width + length <= s.len() {
            match leading_map(s.subrange(at + width, at + width + length)) {
                Some(map) => match integer_of(map.fields, "version"@) {
                    Some(version) => if map.length == length {
                        Some((width + length, version))
                    } else {
                        None
                    },
                    None => None,
                },
                None => None,
            }
        } else {
            None
        },
        _ => None,
    }
}

/// The integer that the eight bytes from `at` spell, the lowest byte first.
pub open spec fn le64_at(s: Seq<u8>, at: int) -> int {
    s[at] + s[at + 1] * 0x100 + s[at + 2] * 0x1_0000 + s[at + 3] * 0x100_0000 + s[at + 4]
        * 0x1_0000_0000 + s[at + 5] * 0x100_0000_0000 + s[at + 6] * 0x1_0000_0000_0000 + s[at + 7]
        * 0x100_0000_0000_0000
}

/// The width of the fixed part that follows the first header of an archive of version 2.
pub const V2_FIXED: usize = 40;

/// The least offset of the payload that an archive of version 2 may declare: the width of its
/// first header, 11, and that of the fixed part.
pub const V2_PAYLOAD_MIN: u64 = 51;

/// The framing of what follows the first header, of width `first`, of an archive of version 2.
///
/// The fixed part gives the offset of the payload at its byte 16 and the size of the payload at
/// its byte 24. Past the padding that the offset asks for stands a second header, and after it
/// blocks until the size is used up.
pub open spec fn framed_v2(s: Seq<u8>, first: int) -> bool {
    &&& first + V2_FIXED <= s.len()
    &&& {
        let offset = le64_at(s, first + 16);
        let size = le64_at(s, first + 24);
        let second = first + V2_FIXED + (offset - V2_PAYLOAD_MIN);
        &&& V2_PAYLOAD_MIN <= offset
        &&& second <= s.len()
        &&& size <= s.len()
        &&& match header_at(s, second) {
            Some((width, _)) => width <= size && blocks_for(s, second + width, size - width),
            None => false,
        }
    }
}

/// Whether `s` has the framing of an archive: a header of version 1 and then blocks to the end
/// of the input, or a header of version 2 and then what [`framed_v2`] describes.
pub open spec fn framed(s: Seq<u8>) -> bool {
    match header_at(s, 0) {
        Some((width, version)) => if version == 1 {
            blocks_to_end(s, width)
        } else if version == 2 {
            framed_v2(s, width)
        } else {
            false
        },
        None => false,
    }
}

/// Measures the hash that starts at `at`.
fn measure_multihash(bytes: &[u8], at: usize) -> (width: Option<usize>)
    requires
        at <= bytes.len(),
    ensures
        match width {
            Some(w) => multihash_width(bytes@, at as int) == Some(w as int) && at + w
                <= bytes.len(),
            None => multihash_width(bytes@, at as int) is None,
        },
{
    match read_varint(bytes, at) {
        VarintRead::Value { value: _, width: code_width } => match read_varint(
            bytes,
            at + code_width,
        ) {
            VarintRead::Value { value: size, width: size_width } => {
                let head = code_width + size_width;
                if size <= 64 && size as usize <= bytes.len() - (at + head) {
                    Some(head + size as usize)
                } else {
                    None
                }
            },
            _ => None,
        },
        _ => None,
    }
}

/// Measures the identifier that starts at `at`.
fn measure_cid(bytes: &[u8], at: usize) -> (width: Option<usize>)
    requires
        at <= bytes.len(),
    ensures
        match width {
            Some(w) => cid_width(bytes@, at as int) == Some(w as int) && at + w <= bytes.len(),
            None => cid_width(bytes@, at as int) is None,
        },
{
    match read_varint(bytes, at) {
        VarintRead::Value { value: version, width: version_width } => match read_varint(
            bytes,
            at + version_width,
        ) {
            VarintRead::Value { value: codec, width: codec_width } => {
                let head = version_width + codec_width;
                if version == 0x12 && codec == 0x20 {
                    if 32 <= bytes.len() - (at + head) {
                        Some(head + 32)
                    } else {
                        None
                    }
                } else if version == 1 {
                    match measure_multihash(bytes, at + head) {
                        Some(hash_width) => Some(head + hash_width),
                        None => None,
                    }
                } else {
                    None
                }
            },
            _ => None,
        },
        _ => None,
    }
}

/// Says what stands at `at`.
fn scan_block(bytes: &[u8], at: usize) -> (read: BlockRead)
    requires
        at <= bytes.len(),
    ensures
        read == block_at(bytes@, at as int),
        read matches BlockRead::Entry(width) ==> 0 < width && at + width <= bytes.len(),
{
    match read_varint(bytes, at) {
        VarintRead::Short => BlockRead::End,
        VarintRead::Overlong => BlockRead::Bad,
        VarintRead::Value { value: length, width } => match measure_cid(bytes, at + width) {
            Some(cid) => {
                let rest = bytes.len() - (at + width);
                if 0 < length && cid as u64 <= length && length <= rest as u64 {
                    BlockRead::Entry(width + length as usize)
                } else {
                    BlockRead::Bad
                }
            },
            None => BlockRead::Bad,
        },
    }
}

/// Walks the blocks from `start` to the end of the input.
fn scan_to_end(bytes: &[u8], start: usize) -> (ok: bool)
    requires
        start <= bytes.len(),
    ensures
        ok == blocks_to_end(bytes@, start as int),
{
    let mut at = start;
    loop
        invariant
            at <= bytes.len(),
            blocks_to_end(bytes@, start as int) == blocks_to_end(bytes@, at as int),
        decreases bytes@.len() - at,
    {
        match scan_block(bytes, at) {
            BlockRead::End => {
                return true;
            },
            BlockRead::Bad => {
                return false;
            },
            BlockRead::Entry(width) => {
                at = at + width;
            },
        }
    }
}

/// Walks the blocks from `start` until their widths add up to `budget` or more.
fn scan_for(bytes: &[u8], start: usize, budget: usize) -> (ok: bool)
    requires
        start <= bytes.len(),
    ensures
        ok == blocks_for(bytes@, start as int, budget as int),
{
    let mut at = start;
    let mut left = budget;
    while left > 0
        invariant
            at <= bytes.len(),
            blocks_for(bytes@, start as int, budget as int) == blocks_for(
                bytes@,
                at as int,
                left as int,
            ),
        decreases bytes@.len() - at,
    {
        match scan_block(bytes, at) {
            BlockRead::Entry(width) => {
                at = at + width;
                if width >= left {
                    assert(blocks_for(bytes@, at as int, left - width));
                    return true;
                }
                left = left - width;
            },
            _ => {
                return false;
            },
        }
    }
    true
}

/// Reads the header that starts at `at`.
fn scan_header(bytes: &[u8], at: usize) -> (header: Option<(usize, i128)>)
    requires
        at <= bytes.len(),
    ensures
        match header {
            Some((width, version)) => header_at(bytes@, at as int) == Some(
                (width as int, version as int),
            ) && at + width <= bytes.len(),
            None => header_at(bytes@, at as int) is None,
        },
{
    match read_varint(bytes, at) {
        VarintRead::Value { value: length, width } => {
            let start = at + width;
            if length > (bytes.len() - start) as u64 {
                return None;
            }
            let end = start + length as usize;
            match read_map(slice_subrange(bytes, start, end)) {
                Some(map) => match find_integer(&map.fields, "version") {
                    Some(version) => if map.length as u64 == length {
                        Some((width + length as usize, version))
                    } else {
                        None
                    },
                    None => None,
                },
                None => None,
            }
        },
        _ => None,
    }
}

/// Reads the eight bytes from `at` as an integer, the lowest byte first.
fn read_le64(bytes: &[u8], at: usize) -> (value: u64)
    requires
        at + 8 <= bytes.len(),
    ensures
        value == le64_at(bytes@, at as int),
{
    let b0: u64 = bytes[at] as u64;
    let b1: u64 = bytes[at + 1] as u64;
    let b2: u64 = bytes[at + 2] as u64;
    let b3: u64 = bytes[at + 3] as u64;
    let b4: u64 = bytes[at + 4] as u64;
    let b5: u64 = bytes[at + 5] as u64;
    let b6: u64 = bytes[at + 6] as u64;
    let b7: u64 = bytes[at + 7] as u64;
    b0 + b1 * 0x100 + b2 * 0x1_0000 + b3 * 0x100_0000 + b4 * 0x1_0000_0000 + b5
        * 0x100_0000_0000 + b6 * 0x1_0000_0000_0000 + b7 * 0x100_0000_0000_0000
}

/// Checks the framing of what follows the first header of an archive of version 2.
fn scan_v2(bytes: &[u8], first: usize) -> (ok: bool)
    requires
        first <= bytes.len(),
    ensures
        ok == framed_v2(bytes@, first as int),
{
    if bytes.len() - first < V2_FIXED {
        return false;
    }
    let offset = read_le64(bytes, first + 16);
    let size = read_le64(bytes, first + 24);
    let fixed_end = first + V2_FIXED;
    if offset < V2_PAYLOAD_MIN || offset - V2_PAYLOAD_MIN > (bytes.len() - fixed_end) as u64 {
        return false;
    }
    let second = fixed_end + (offset - V2_PAYLOAD_MIN) as usize;
    if size > bytes.len() as u64 {
        return false;
    }
    match scan_header(bytes, second) {
        Some((width, _)) => {
            if width as u64 > size {
                return false;
            }
            scan_for(bytes, second + width, size as usize - width)
        },
        None => false,
    }
}

/// Checks the framing of an archive.
pub fn is_framed(bytes: &[u8]) -> (ok: bool)
    ensures
        ok == framed(bytes@),
{
    match scan_header(bytes, 0) {
        Some((width, version)) => {
            if version == 1 {
                scan_to_end(bytes, width)
            } else if version == 2 {
                scan_v2(bytes, width)
            } else {
                false
            }
        },
        None => false,
    }
}

/// The entries that the archive reader of `rs_car` hands out for `bytes`, with every block
/// checked against its identifier and each identifier as its byte encoding; `None` where the
/// reader reports an error.
pub uninterp spec fn archive_blocks(bytes: Seq<u8>) -> Option<Seq<BlockView>>;

/// Calls `rs_car::car_read_all` with the check of block hashes switched on, on a reader over
/// `archive`, polls the future once, and hands back the entries in the order of the archive,
/// each identifier through `Cid::to_bytes`. An error of the reader becomes `None`.
///
/// On some input that reader does not fail with an error but stops the program: it takes the
/// version of an identifier for 0 or 1 without a test, copies a digest of up to 255 bytes into
/// 64, subtracts the width of an identifier from the length of its block, and in an archive of
/// version 2 subtracts 51 from the offset of the payload and the width of the second header
/// from the size of the payload. [`framed`] leaves out the input on which one of these goes
/// wrong, and the input in which a block or a header that is announced is not all there. It
/// reads the version of the archive with the decoder that the reader itself uses.
#[verifier::external_body]
fn read_blocks(archive: &[u8]) -> (out: Option<Vec<Block>>)
    requires
        framed(archive@),
    ensures
        out is Some == archive_blocks(archive@) is Some,
        out matches Some(blocks) ==> archive_blocks(archive@) == Some(block_views(blocks@)),
{
    let mut reader = archive;
    match futures::FutureExt::now_or_never(rs_car::car_read_all(&mut reader, true)) {
        Some(Ok((items, _))) => Some(
            items.into_iter().map(|(cid, data)| Block { cid: cid.to_bytes(), data }).collect(),
        ),
        _ => None,
    }
}

/// The entries of `archive`: those that the archive reader hands out, where the framing of
/// `archive` is sound and the reader accepts it.
pub open spec fn parsed(archive: Seq<u8>) -> Option<Seq<BlockView>> {
    if framed(archive) {
        archive_blocks(archive)
    } else {
        None
    }
}

/// Parses an archive into its entries, in the order in which the archive holds them.
///
/// An archive whose framing is unsound, or which the archive reader rejects, is
/// [`ExtractError::Malformed`].
pub fn entries(archive: &[u8]) -> (result: Result<Vec<Block>, ExtractError>)
    ensures
        match result {
            Ok(blocks) => parsed(archive@) == Some(block_views(blocks@)),
            Err(e) => parsed(archive@) is None && e@ == ExtractErrorView::Malformed,
        },
{
    if !is_framed(archive) {
        return Err(ExtractError::Malformed);
    }
    match read_blocks(archive) {
        Some(blocks) => Ok(blocks),
        None => Err(ExtractError::Malformed),
    }
}

/// The index of the first of `blocks` whose identifier is `target`.
pub open spec fn first_match(blocks: Seq<BlockView>, target: Seq<u8>) -> Option<int>
    decreases blocks.len(),
{
    if blocks.len() == 0 {
        None
    } else if blocks.last().cid == target && first_match(blocks.drop_last(), target) is None {
        Some(blocks.len() - 1)
    } else {
        first_match(blocks.drop_last(), target)
    }
}

/// [`first_match`] gives an index at which `target` stands and before which it does not; it
/// gives none exactly where `target` stands nowhere.
pub proof fn lemma_first_match(blocks: Seq<BlockView>, target: Seq<u8>)
    ensures
        match first_match(blocks, target) {
            Some(i) => 0 <= i < blocks.len() && blocks[i].cid == target && forall|j: int|
                0 <= j < i ==> blocks[j].cid != target,
            None => forall|j: int| 0 <= j < blocks.len() ==> blocks[j].cid != target,
        },
    decreases blocks.len(),
{
    if blocks.len() > 0 {
        let front = blocks.drop_last();
        lemma_first_match(front, target);
        assert(forall|j: int| 0 <= j < front.len() ==> front[j] == blocks[j]);
    }
}

/// Finds the first entry whose identifier equals `target_cid`, byte for byte.
pub fn find_block(blocks: &Vec<Block>, target_cid: &[u8]) -> (found: Option<usize>)
    ensures
        match found {
            Some(i) => i < blocks.len() && first_match(block_views(blocks@), target_cid@)
                == Some(i as int),
            None => first_match(block_views(blocks@), target_cid@) is None,
        },
{
    let ghost all = block_views(blocks@);
    let mut i: usize = 0;
    while i < blocks.len()
        invariant
            i <= blocks@.len(),
            all == block_views(blocks@),
            first_match(all.take(i as int), target_cid@) is None,
        decreases blocks@.len() - i,
    {
        proof {
            assert(all.take(i + 1).drop_last() =~= all.take(i as int));
        }
        if same_bytes(blocks[i].cid.as_slice(), target_cid) {
            proof {
                lemma_first_match_extends(all, target_cid@, i + 1);
            }
            return Some(i);
        }
        i += 1;
    }
    assert(all.take(i as int) =~= all);
    None
}

/// A match among the first `n` blocks is the match among all of them.
proof fn lemma_first_match_extends(blocks: Seq<BlockView>, target: Seq<u8>, n: int)
    requires
        0 <= n <= blocks.len(),
        first_match(blocks.take(n), target) is Some,
    ensures
        first_match(blocks, target) == first_match(blocks.take(n), target),
    decreases blocks.len() - n,
{
    if n < blocks.len() {
        assert(blocks.take(n + 1).drop_last() =~= blocks.take(n));
        lemma_first_match_extends(blocks, target, n + 1);
    } else {
        assert(blocks.take(n) =~= blocks);
    }
}

/// What [`extract`] returns for an archive and an identifier.
pub open spec fn extracted(archive: Seq<u8>, target: Seq<u8>) -> Result<
    Seq<u8>,
    ExtractErrorView,
> {
    match parsed(archive) {
        None => Err(ExtractErrorView::Malformed),
        Some(blocks) => match first_match(blocks, target) {
            Some(i) => Ok(blocks[i].data),
            None => Err(
                ExtractErrorView::NotFound {
                    target_cid: Some(target),
                    entries_scanned: blocks.len(),
                },
            ),
        },
    }
}

/// Returns the raw bytes of the block that `archive` holds under `target_cid`.
///
/// The archive is parsed in full. Where several entries share the identifier, the first of
/// them is returned. An archive that does not parse is [`ExtractError::Malformed`]; one that
/// parses and holds no entry under `target_cid` is [`ExtractError::NotFound`], with the
/// number of entries that it holds.
pub fn extract(archive: &[u8], target_cid: &[u8]) -> (result: Result<Vec<u8>, ExtractError>)
    ensures
        match result {
            Ok(bytes) => extracted(archive@, target_cid@) == Ok::<Seq<u8>, ExtractErrorView>(
                bytes@,
            ),
            Err(e) => extracted(archive@, target_cid@) == Err::<Seq<u8>, ExtractErrorView>(e@),
        },
{
    match entries(archive) {
        Err(e) => Err(e),
        Ok(blocks) => match find_block(&blocks, target_cid) {
            Some(i) => {
                Ok(slice_to_vec(blocks[i].data.as_slice()))
            },
            None => Err(
                ExtractError::NotFound {
                    target_cid: Some(slice_to_vec(target_cid)),
                    entries_scanned: blocks.len(),
                },
            ),
        },
    }
}

/// An archive that holds one entry under an identifier, and no other entry that shares it,
/// yields the bytes of that entry.
pub proof fn lemma_extract_unique(archive: Seq<u8>, blocks: Seq<BlockView>, i: int)
    requires
        parsed(archive) == Some(blocks),
        0 <= i < blocks.len(),
        forall|j: int| 0 <= j < blocks.len() && j != i ==> blocks[j].cid != blocks[i].cid,
    ensures
        extracted(archive, blocks[i].cid) == Ok::<Seq<u8>, ExtractErrorView>(blocks[i].data),
{
    lemma_first_match(blocks, blocks[i].cid);
}

/// An archive that holds no entry under an identifier yields [`ExtractError::NotFound`] for it.
pub proof fn lemma_extract_absent(archive: Seq<u8>, blocks: Seq<BlockView>, target: Seq<u8>)
    requires
        parsed(archive) == Some(blocks),
        forall|j: int| 0 <= j < blocks.len() ==> blocks[j].cid != target,
    ensures
        extracted(archive, target) == Err::<Seq<u8>, ExtractErrorView>(
            ExtractErrorView::NotFound { target_cid: Some(target), entries_scanned: blocks.len() },
        ),
{
    lemma_first_match(blocks, target);
}

} // verus!
