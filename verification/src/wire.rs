//! The binary layout of values on the wire and under the digest.
//!
//! The layout is bincode's fixed-width little-endian one: an integer takes
//! its width in bytes, least significant byte first; a text is the number of
//! its UTF-8 bytes as a 64-bit integer, then those bytes; a sequence is the
//! number of its items as a 64-bit integer, then the items; and the fields of
//! a tuple follow one another with nothing in between.
//!
//! The layout is stated here as specification functions, the calls into
//! bincode are trusted to follow it, and it is proved that no two values
//! share an encoding, nor is one value's encoding the beginning of another's.

use vstd::prelude::*;
use vstd::bytes::{
    lemma_auto_spec_u32_to_from_le_bytes, lemma_auto_spec_u64_to_from_le_bytes,
    spec_u32_to_le_bytes, spec_u64_to_le_bytes,
};
use vstd::utf8::{encode_utf8, encode_utf8_decode_utf8};
use crate::block::BlockView;

verus! {

/// A block as the plain tuple that bincode is handed: timestamp and payload,
/// previous digest, own digest.
pub type PlainBlock = ((i64, i32), String, String);

/// The block that a plain tuple stands for.
pub open spec fn plain_block_view(plain: PlainBlock) -> BlockView {
    BlockView {
        timestamp: plain.0.0,
        data: plain.0.1,
        previous: plain.1@,
        current: plain.2@,
    }
}

/// The blocks that a run of plain tuples stands for.
pub open spec fn plain_blocks_view(plain: Seq<PlainBlock>) -> Seq<BlockView> {
    plain.map_values(|one: PlainBlock| plain_block_view(one))
}

/// The twelve bytes that stand for a timestamp and a payload: the timestamp
/// as eight little-endian bytes, then the payload as four.
pub open spec fn content_bytes(timestamp: i64, data: i32) -> Seq<u8> {
    spec_u64_to_le_bytes(timestamp as u64) + spec_u32_to_le_bytes(data as u32)
}

/// A text on the wire: the count of its UTF-8 bytes, then the bytes.
pub open spec fn text_bytes(text: Seq<char>) -> Seq<u8> {
    spec_u64_to_le_bytes(encode_utf8(text).len() as u64) + encode_utf8(text)
}

/// A block on the wire: content, previous digest, own digest.
pub open spec fn block_bytes(block: BlockView) -> Seq<u8> {
    content_bytes(block.timestamp, block.data) + text_bytes(block.previous) + text_bytes(
        block.current,
    )
}

/// Blocks on the wire, one after the other.
pub open spec fn blocks_bytes(blocks: Seq<BlockView>) -> Seq<u8>
    decreases blocks.len(),
{
    if blocks.len() == 0 {
        Seq::<u8>::empty()
    } else {
        block_bytes(blocks.first()) + blocks_bytes(blocks.drop_first())
    }
}

/// A message on the wire, before framing: the count of its blocks, the
/// blocks, and the number of its label as four bytes.
pub open spec fn payload_bytes(blocks: Seq<BlockView>, tag: u32) -> Seq<u8> {
    spec_u64_to_le_bytes(blocks.len() as u64) + blocks_bytes(blocks) + spec_u32_to_le_bytes(tag)
}

/// Whether the byte count of a text fits the 64-bit integer written before it.
pub open spec fn text_fits(text: Seq<char>) -> bool {
    encode_utf8(text).len() <= u64::MAX
}

/// Whether every count in the encoding of `blocks` fits its 64-bit integer.
/// It holds of all blocks that a program can hold in memory.
pub open spec fn encodable(blocks: Seq<BlockView>) -> bool {
    &&& blocks.len() <= u64::MAX
    &&& forall|i: int|
        #![trigger blocks[i]]
        0 <= i < blocks.len() ==> text_fits(blocks[i].previous) && text_fits(blocks[i].current)
}

/// Whether `bytes` begin with the encoding of a message that holds `blocks`
/// and the label number `tag`.
pub open spec fn begins_with_payload(bytes: Seq<u8>, blocks: Seq<BlockView>, tag: u32) -> bool {
    &&& encodable(blocks)
    &&& payload_bytes(blocks, tag).is_prefix_of(bytes)
}

/// If `s` begins with `a + b`, it begins with `a`, and what follows `a` in it
/// begins with `b`.
proof fn lemma_prefix_split(a: Seq<u8>, b: Seq<u8>, s: Seq<u8>)
    requires
        (a + b).is_prefix_of(s),
    ensures
        a.is_prefix_of(s),
        b.is_prefix_of(s.skip(a.len() as int)),
{
    let ab = a + b;
    let rest = s.skip(a.len() as int);
    assert forall|i: int| 0 <= i < a.len() implies a[i] == s[i] by {
        assert(ab[i] == a[i]);
        assert(s.subrange(0, ab.len() as int)[i] == s[i]);
    }
    assert forall|i: int| 0 <= i < b.len() implies b[i] == rest[i] by {
        assert(ab[a.len() + i] == b[i]);
        assert(s.subrange(0, ab.len() as int)[a.len() + i] == s[a.len() + i]);
    }
}

/// Two sequences of one length that both begin `s` are equal.
proof fn lemma_prefix_same_length(a: Seq<u8>, b: Seq<u8>, s: Seq<u8>)
    requires
        a.is_prefix_of(s),
        b.is_prefix_of(s),
        a.len() == b.len(),
    ensures
        a == b,
{
}

/// Two signed integers with the same two's complement are equal.
proof fn lemma_twos_complement_unique(a: i64, b: i64, c: i32, d: i32)
    ensures
        a as u64 == b as u64 ==> a == b,
        c as u32 == d as u32 ==> c == d,
{
    assert(a as u64 == b as u64 ==> a == b) by (bit_vector);
    assert(c as u32 == d as u32 ==> c == d) by (bit_vector);
}

/// Only one text's encoding can begin a given byte sequence.
proof fn lemma_text_unique(first: Seq<char>, second: Seq<char>, s: Seq<u8>)
    requires
        text_bytes(first).is_prefix_of(s),
        text_bytes(second).is_prefix_of(s),
        text_fits(first),
        text_fits(second),
    ensures
        first == second,
{
    lemma_auto_spec_u64_to_from_le_bytes();
    let count_first = spec_u64_to_le_bytes(encode_utf8(first).len() as u64);
    let count_second = spec_u64_to_le_bytes(encode_utf8(second).len() as u64);
    lemma_prefix_split(count_first, encode_utf8(first), s);
    lemma_prefix_split(count_second, encode_utf8(second), s);
    // Both counts are the first eight bytes of `s`: the texts are equally long
    // in bytes,
    lemma_prefix_same_length(count_first, count_second, s);
    // so their bytes are the same stretch of `s`,
    lemma_prefix_same_length(encode_utf8(first), encode_utf8(second), s.skip(8));
    // and equal bytes decode to equal texts.
    encode_utf8_decode_utf8(first);
    encode_utf8_decode_utf8(second);
}

/// Different contents are hashed as different bytes: the twelve bytes name
/// the timestamp and the payload that they were made from.
pub proof fn lemma_content_bytes_unique(first: (i64, i32), second: (i64, i32))
    requires
        content_bytes(first.0, first.1) == content_bytes(second.0, second.1),
    ensures
        first == second,
{
    lemma_auto_spec_u64_to_from_le_bytes();
    lemma_auto_spec_u32_to_from_le_bytes();
    let content = content_bytes(first.0, first.1);
    let stamp_first = spec_u64_to_le_bytes(first.0 as u64);
    let stamp_second = spec_u64_to_le_bytes(second.0 as u64);
    let data_first = spec_u32_to_le_bytes(first.1 as u32);
    let data_second = spec_u32_to_le_bytes(second.1 as u32);
    lemma_prefix_split(stamp_first, data_first, content);
    lemma_prefix_split(stamp_second, data_second, content);
    // The first eight bytes give the timestamp, the last four the payload,
    // each as its two's complement.
    lemma_prefix_same_length(stamp_first, stamp_second, content);
    lemma_prefix_same_length(data_first, data_second, content.skip(8));
    lemma_twos_complement_unique(first.0, second.0, first.1, second.1);
}

/// Only one block's encoding can begin a given byte sequence.
proof fn lemma_block_unique(first: BlockView, second: BlockView, s: Seq<u8>)
    requires
        block_bytes(first).is_prefix_of(s),
        block_bytes(second).is_prefix_of(s),
        text_fits(first.previous),
        text_fits(first.current),
        text_fits(second.previous),
        text_fits(second.current),
    ensures
        first == second,
{
    lemma_auto_spec_u64_to_from_le_bytes();
    lemma_auto_spec_u32_to_from_le_bytes();
    let content_first = content_bytes(first.timestamp, first.data);
    let content_second = content_bytes(second.timestamp, second.data);
    let head_first = content_first + text_bytes(first.previous);
    let head_second = content_second + text_bytes(second.previous);
    lemma_prefix_split(head_first, text_bytes(first.current), s);
    lemma_prefix_split(head_second, text_bytes(second.current), s);
    lemma_prefix_split(content_first, text_bytes(first.previous), s);
    lemma_prefix_split(content_second, text_bytes(second.previous), s);
    // The contents are the first twelve bytes of `s`,
    lemma_prefix_same_length(content_first, content_second, s);
    lemma_content_bytes_unique(
        (first.timestamp, first.data),
        (second.timestamp, second.data),
    );
    // the previous digests start right after them,
    lemma_text_unique(first.previous, second.previous, s.skip(12));
    // and the own digests where the previous ones end.
    lemma_text_unique(first.current, second.current, s.skip(head_first.len() as int));
}

/// What follows the first of some encodable blocks is encodable.
proof fn lemma_rest_encodable(blocks: Seq<BlockView>)
    requires
        encodable(blocks),
        blocks.len() > 0,
    ensures
        encodable(blocks.drop_first()),
{
    let rest = blocks.drop_first();
    assert forall|i: int| 0 <= i < rest.len() implies text_fits((#[trigger] rest[i]).previous)
        && text_fits(rest[i].current) by {
        assert(rest[i] == blocks[i + 1]);
    }
}

/// Only one run of a given number of blocks can begin a given byte sequence.
proof fn lemma_blocks_unique(first: Seq<BlockView>, second: Seq<BlockView>, s: Seq<u8>)
    requires
        blocks_bytes(first).is_prefix_of(s),
        blocks_bytes(second).is_prefix_of(s),
        first.len() == second.len(),
        encodable(first),
        encodable(second),
    ensures
        first == second,
    decreases first.len(),
{
    if first.len() > 0 {
        let head = block_bytes(first.first());
        lemma_prefix_split(head, blocks_bytes(first.drop_first()), s);
        lemma_prefix_split(block_bytes(second.first()), blocks_bytes(second.drop_first()), s);
        lemma_block_unique(first.first(), second.first(), s);
        lemma_rest_encodable(first);
        lemma_rest_encodable(second);
        lemma_blocks_unique(first.drop_first(), second.drop_first(), s.skip(head.len() as int));
        assert forall|i: int| 0 <= i < first.len() implies first[i] == second[i] by {
            if i > 0 {
                assert(first[i] == first.drop_first()[i - 1]);
                assert(second[i] == second.drop_first()[i - 1]);
            }
        }
    }
}

/// Only one message's encoding can begin a given byte sequence: no two
/// messages share an encoding, and none continues another.
pub proof fn lemma_payload_unique(
    first: Seq<BlockView>,
    first_tag: u32,
    second: Seq<BlockView>,
    second_tag: u32,
    s: Seq<u8>,
)
    requires
        begins_with_payload(s, first, first_tag),
        begins_with_payload(s, second, second_tag),
    ensures
        first == second,
        first_tag == second_tag,
{
    lemma_auto_spec_u64_to_from_le_bytes();
    lemma_auto_spec_u32_to_from_le_bytes();
    let count_first = spec_u64_to_le_bytes(first.len() as u64);
    let count_second = spec_u64_to_le_bytes(second.len() as u64);
    let head_first = count_first + blocks_bytes(first);
    let head_second = count_second + blocks_bytes(second);
    lemma_prefix_split(head_first, spec_u32_to_le_bytes(first_tag), s);
    lemma_prefix_split(head_second, spec_u32_to_le_bytes(second_tag), s);
    lemma_prefix_split(count_first, blocks_bytes(first), s);
    lemma_prefix_split(count_second, blocks_bytes(second), s);
    // Both counts are the first eight bytes of `s`: as many blocks follow,
    lemma_prefix_same_length(count_first, count_second, s);
    // the same ones,
    lemma_blocks_unique(first, second, s.skip(8));
    // and after them the same label number.
    lemma_prefix_same_length(
        spec_u32_to_le_bytes(first_tag),
        spec_u32_to_le_bytes(second_tag),
        s.skip(head_first.len() as int),
    );
}

/// Encodes a timestamp and a payload with `bincode::serialize`, called on
/// the pair `(timestamp, data)`.
///
/// Trusted: bincode writes a pair as its two fields in order, an `i64` as the
/// eight little-endian bytes of its two's complement and an `i32` as four,
/// and writing into a fresh vector without a size limit cannot fail.
#[verifier::external_body]
pub(crate) fn bincode_content(timestamp: i64, data: i32) -> (bytes: Option<Vec<u8>>)
    ensures
        bytes is Some,
        bytes->0@ == content_bytes(timestamp, data),
{
    bincode::serialize(&(timestamp, data)).ok()
}

/// Encodes a message with `bincode::serialize`, called on the pair of its
/// plain blocks and the number of its label.
///
/// Trusted: bincode writes the pair as `payload_bytes` lays it out, and
/// writing into a fresh vector without a size limit cannot fail.
#[verifier::external_body]
pub(crate) fn bincode_payload(blocks: &Vec<PlainBlock>, tag: u32) -> (bytes: Option<Vec<u8>>)
    ensures
        bytes is Some,
        bytes->0@ == payload_bytes(plain_blocks_view(blocks@), tag),
{
    bincode::serialize(&(blocks, tag)).ok()
}

/// Decodes a message with `bincode::deserialize`, asked for a pair of plain
/// blocks and a label number.
///
/// Trusted: bincode reads the layout of `payload_bytes` and ignores what
/// follows it. It returns a value exactly when the bytes begin with the
/// encoding of some value, and then returns that value; running out of bytes
/// or meeting a text that is not UTF-8 are its only ways to fail.
#[verifier::external_body]
pub(crate) fn bincode_read_payload(bytes: &[u8]) -> (payload: Option<(Vec<PlainBlock>, u32)>)
    ensures
        match payload {
            Some(pair) => begins_with_payload(bytes@, plain_blocks_view(pair.0@), pair.1),
            None => forall|blocks: Seq<BlockView>, tag: u32|
                !begins_with_payload(bytes@, blocks, tag),
        },
{
    bincode::deserialize(bytes).ok()
}

} // verus!
