//! Messages as frames of bytes.
//!
//! A frame is an eight-byte big-endian length followed by exactly that many
//! bytes, which begin with the message in the layout of the `wire` module.
//! A receiver reads the eight bytes, learns from `payload_length` how many
//! follow, reads them, and hands the whole to `decode`.

use vstd::prelude::*;
use vstd::slice::{slice_subrange, slice_to_vec};
use crate::block::Block;
use crate::error::SyncError;
use crate::hash_content::HashContent;
use crate::message::{blocks_view, Message, MessageLabel, MessageView};
use crate::wire::{
    begins_with_payload, bincode_payload, bincode_read_payload, encodable, lemma_payload_unique,
    payload_bytes, plain_blocks_view, text_fits, PlainBlock,
};

verus! {

/// Number of bytes of the length that starts every frame.
pub const FRAME_HEADER_LENGTH: usize = 8;

/// The eight bytes of a frame's length, most significant first.
pub open spec fn header_bytes(length: u64) -> Seq<u8> {
    seq![
        (length >> 56) as u8,
        (length >> 48) as u8,
        (length >> 40) as u8,
        (length >> 32) as u8,
        (length >> 24) as u8,
        (length >> 16) as u8,
        (length >> 8) as u8,
        length as u8,
    ]
}

/// The length that eight header bytes stand for.
pub open spec fn header_value(header: Seq<u8>) -> u64 {
    (header[0] as u64) << 56 | (header[1] as u64) << 48 | (header[2] as u64) << 40 | (
    header[3] as u64) << 32 | (header[4] as u64) << 24 | (header[5] as u64) << 16 | (
    header[6] as u64) << 8 | (header[7] as u64)
}

/// `payload` with its length written before it.
pub open spec fn framed(payload: Seq<u8>) -> Seq<u8> {
    header_bytes(payload.len() as u64) + payload
}

/// Whether `frame` is a header followed by exactly as many bytes as the
/// header announces.
pub open spec fn well_framed(frame: Seq<u8>) -> bool {
    &&& frame.len() >= 8
    &&& header_value(frame.subrange(0, 8)) == frame.len() - 8
}

/// The number that stands for a label on the wire.
pub open spec fn label_tag(label: MessageLabel) -> u32 {
    match label {
        MessageLabel::AskForAllBlocks => 0,
        MessageLabel::SendBlock => 1,
    }
}

/// The frame that carries `message`.
pub open spec fn encoded(message: MessageView) -> Seq<u8> {
    framed(payload_bytes(message.blocks, label_tag(message.label)))
}

/// Whether every count in the frame of `message` fits its 64-bit integer.
/// It holds of every message that a program can hold in memory.
pub open spec fn frameable(message: MessageView) -> bool {
    &&& encodable(message.blocks)
    &&& payload_bytes(message.blocks, label_tag(message.label)).len() <= u64::MAX
}

/// Whether `frame` is a whole frame whose payload begins with the encoding
/// of `message`.
pub open spec fn decodes_to(frame: Seq<u8>, message: MessageView) -> bool {
    &&& well_framed(frame)
    &&& begins_with_payload(frame.skip(8), message.blocks, label_tag(message.label))
}

/// The message that `frame` carries, if it carries one. By
/// `lemma_frame_decodes_once` it carries at most one.
pub open spec fn decoded(frame: Seq<u8>) -> Option<MessageView> {
    if exists|message: MessageView| decodes_to(frame, message) {
        Some(choose|message: MessageView| decodes_to(frame, message))
    } else {
        None
    }
}

/// A header stands for the length it was written from.
proof fn lemma_header_round_trip(length: u64)
    ensures
        header_bytes(length).len() == 8,
        header_value(header_bytes(length)) == length,
{
    let b0 = (length >> 56) as u8;
    let b1 = (length >> 48) as u8;
    let b2 = (length >> 40) as u8;
    let b3 = (length >> 32) as u8;
    let b4 = (length >> 24) as u8;
    let b5 = (length >> 16) as u8;
    let b6 = (length >> 8) as u8;
    let b7 = length as u8;
    assert((b0 as u64) << 56 | (b1 as u64) << 48 | (b2 as u64) << 40 | (b3 as u64) << 32 | (
    b4 as u64) << 24 | (b5 as u64) << 16 | (b6 as u64) << 8 | (b7 as u64) == length)
        by (bit_vector)
        requires
            b0 == (length >> 56) as u8,
            b1 == (length >> 48) as u8,
            b2 == (length >> 40) as u8,
            b3 == (length >> 32) as u8,
            b4 == (length >> 24) as u8,
            b5 == (length >> 16) as u8,
            b6 == (length >> 8) as u8,
            b7 == length as u8,
    ;
}

/// The frame of a payload is well framed, and the payload follows its header.
pub proof fn lemma_framed_well_framed(payload: Seq<u8>)
    requires
        payload.len() <= u64::MAX,
    ensures
        well_framed(framed(payload)),
        framed(payload).skip(8) == payload,
{
    lemma_header_round_trip(payload.len() as u64);
}

/// The eight header bytes for `length`.
fn write_header(length: u64) -> (header: Vec<u8>)
    ensures
        header@ == header_bytes(length),
{
    let mut header: Vec<u8> = Vec::new();
    header.push(#[verifier::truncate] ((length >> 56) as u8));
    header.push(#[verifier::truncate] ((length >> 48) as u8));
    header.push(#[verifier::truncate] ((length >> 40) as u8));
    header.push(#[verifier::truncate] ((length >> 32) as u8));
    header.push(#[verifier::truncate] ((length >> 24) as u8));
    header.push(#[verifier::truncate] ((length >> 16) as u8));
    header.push(#[verifier::truncate] ((length >> 8) as u8));
    header.push(#[verifier::truncate] (length as u8));
    header
}

/// The length that the eight bytes of `header` stand for.
fn read_header(header: &[u8]) -> (length: u64)
    requires
        header@.len() == 8,
    ensures
        length == header_value(header@),
{
    (header[0] as u64) << 56 | (header[1] as u64) << 48 | (header[2] as u64) << 40 | (
    header[3] as u64) << 32 | (header[4] as u64) << 24 | (header[5] as u64) << 16 | (
    header[6] as u64) << 8 | (header[7] as u64)
}

/// Puts the length of `payload` before it.
pub fn frame(payload: &[u8]) -> (frame: Vec<u8>)
    ensures
        frame@ == framed(payload@),
        well_framed(frame@),
        frame@.skip(8) == payload@,
{
    let mut frame = write_header(payload.len() as u64);
    let mut body = slice_to_vec(payload);
    frame.append(&mut body);
    proof {
        lemma_framed_well_framed(payload@);
    }
    frame
}

/// How many bytes follow a header. It fails when `header` is not eight bytes
/// long, or announces more bytes than this machine can address.
pub fn payload_length(header: &[u8]) -> (length: Result<usize, SyncError>)
    ensures
        match length {
            Ok(length) => header@.len() == 8 && length == header_value(header@),
            Err(error) => error == SyncError::FrameDecodeError && (header@.len() != 8
                || header_value(header@) > usize::MAX),
        },
{
    if header.len() != FRAME_HEADER_LENGTH {
        return Err(SyncError::FrameDecodeError);
    }
    let announced = read_header(header);
    if announced > usize::MAX as u64 {
        return Err(SyncError::FrameDecodeError);
    }
    Ok(announced as usize)
}

/// The payload of a whole frame: what follows the header, if the header
/// announces exactly that many bytes.
pub fn unframe(frame: &[u8]) -> (payload: Result<&[u8], SyncError>)
    ensures
        match payload {
            Ok(payload) => well_framed(frame@) && payload@ == frame@.skip(8),
            Err(error) => error == SyncError::FrameDecodeError && !well_framed(frame@),
        },
{
    let length = frame.len();
    if length < FRAME_HEADER_LENGTH {
        return Err(SyncError::FrameDecodeError);
    }
    let announced = read_header(slice_subrange(frame, 0, FRAME_HEADER_LENGTH));
    if announced != (length - FRAME_HEADER_LENGTH) as u64 {
        return Err(SyncError::FrameDecodeError);
    }
    Ok(slice_subrange(frame, FRAME_HEADER_LENGTH, length))
}

/// The plain tuples that bincode is handed for `blocks`.
fn plain_from_blocks(blocks: &Vec<Block>) -> (plain: Vec<PlainBlock>)
    ensures
        plain_blocks_view(plain@) == blocks_view(blocks@),
        encodable(blocks_view(blocks@)),
{
    let mut plain: Vec<PlainBlock> = Vec::new();
    let mut index: usize = 0;
    while index < blocks.len()
        invariant
            index <= blocks.len(),
            plain@.len() == index,
            forall|i: int|
                0 <= i < index ==> plain_blocks_view(plain@)[i] == #[trigger] blocks_view(
                    blocks@,
                )[i],
            forall|i: int|
                #![trigger blocks_view(blocks@)[i]]
                0 <= i < index ==> text_fits(blocks_view(blocks@)[i].previous) && text_fits(
                    blocks_view(blocks@)[i].current,
                ),
        decreases blocks.len() - index,
    {
        let block = &blocks[index];
        let previous = block.get_previous();
        let current = block.get_current();
        // A text that was measured has a byte count that fits a machine word,
        // and so the integer written before it.
        let _ = previous.as_bytes().len();
        let _ = current.as_bytes().len();
        let content = block.get_content();
        plain.push(
            (
                (content.get_timestamp(), content.get_data()),
                previous.to_owned(),
                current.to_owned(),
            ),
        );
        index += 1;
    }
    plain
}

/// The blocks that the plain tuples of bincode stand for.
fn blocks_from_plain(plain: &Vec<PlainBlock>) -> (blocks: Vec<Block>)
    ensures
        blocks_view(blocks@) == plain_blocks_view(plain@),
{
    let mut blocks: Vec<Block> = Vec::new();
    let mut index: usize = 0;
    while index < plain.len()
        invariant
            index <= plain.len(),
            blocks@.len() == index,
            forall|i: int|
                0 <= i < index ==> blocks_view(blocks@)[i] == #[trigger] plain_blocks_view(
                    plain@,
                )[i],
        decreases plain.len() - index,
    {
        let one = &plain[index];
        let content = HashContent::at(one.0.0, one.0.1);
        blocks.push(Block::from_parts(content, one.1.clone(), one.2.clone()));
        index += 1;
    }
    blocks
}

/// The frame that carries `message`.
pub fn encode(message: &Message) -> (frame: Vec<u8>)
    ensures
        frame@ == encoded(message@),
        frameable(message@),
        decoded(frame@) == Some(message@),
{
    let plain = plain_from_blocks(message.get_blocks());
    let tag: u32 = match *message.get_label() {
        MessageLabel::AskForAllBlocks => 0,
        MessageLabel::SendBlock => 1,
    };
    let payload = bincode_payload(&plain, tag).unwrap();
    let framed = frame(payload.as_slice());
    proof {
        lemma_decoded(framed@, message@);
    }
    framed
}

/// The message that `frame` carries.
///
/// It fails when `frame` is not one whole frame, when its payload is cut
/// short or holds a text that is not UTF-8, or when the label is not one of
/// the two known ones. Bytes of the payload after the message are ignored.
pub fn decode(frame: &[u8]) -> (result: Result<Message, SyncError>)
    ensures
        match result {
            Ok(message) => decoded(frame@) == Some(message@),
            Err(error) => error == SyncError::FrameDecodeError && decoded(frame@) is None,
        },
{
    let payload = match unframe(frame) {
        Ok(payload) => payload,
        Err(error) => {
            return Err(error);
        },
    };
    let (plain, tag) = match bincode_read_payload(payload) {
        Some(pair) => pair,
        None => {
            return Err(SyncError::FrameDecodeError);
        },
    };
    let label = if tag == 0 {
        MessageLabel::AskForAllBlocks
    } else if tag == 1 {
        MessageLabel::SendBlock
    } else {
        proof {
            assert forall|message: MessageView| !decodes_to(frame@, message) by {
                if decodes_to(frame@, message) {
                    lemma_payload_unique(
                        message.blocks,
                        label_tag(message.label),
                        plain_blocks_view(plain@),
                        tag,
                        payload@,
                    );
                }
            }
        }
        return Err(SyncError::FrameDecodeError);
    };
    let blocks = blocks_from_plain(&plain);
    let message = Message::new(blocks, label);
    proof {
        lemma_decoded(frame@, message@);
    }
    Ok(message)
}

/// Every message comes back from its own frame: decoding what encoding made
/// gives the message that was encoded, whatever its label and however many
/// blocks it holds.
pub proof fn lemma_round_trip(message: MessageView)
    requires
        frameable(message),
    ensures
        decoded(encoded(message)) == Some(message),
{
    let payload = payload_bytes(message.blocks, label_tag(message.label));
    lemma_framed_well_framed(payload);
    lemma_decoded(encoded(message), message);
}

/// A frame cut short anywhere carries no message.
pub proof fn lemma_truncated_frame(message: MessageView, kept: int)
    requires
        frameable(message),
        0 <= kept < encoded(message).len(),
    ensures
        decoded(encoded(message).take(kept)) is None,
{
    // Either the header itself is cut, or it still announces the whole
    // payload while less than that follows.
    let payload = payload_bytes(message.blocks, label_tag(message.label));
    lemma_header_round_trip(payload.len() as u64);
    assert(!well_framed(encoded(message).take(kept)));
}

/// A frame that decodes to a message carries that message.
pub proof fn lemma_decoded(frame: Seq<u8>, message: MessageView)
    requires
        decodes_to(frame, message),
    ensures
        decoded(frame) == Some(message),
{
    let chosen = choose|other: MessageView| decodes_to(frame, other);
    lemma_frame_decodes_once(frame, message, chosen);
}

/// A frame decodes to at most one message.
pub proof fn lemma_frame_decodes_once(frame: Seq<u8>, first: MessageView, second: MessageView)
    requires
        decodes_to(frame, first),
        decodes_to(frame, second),
    ensures
        first == second,
{
    lemma_payload_unique(
        first.blocks,
        label_tag(first.label),
        second.blocks,
        label_tag(second.label),
        frame.skip(8),
    );
}

} // verus!
