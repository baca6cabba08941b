//! The decisions of the synchronisation engine.
//!
//! The program around this library owns the sockets. For each connection it
//! accepts it reads one frame and asks `handle_incoming_connection` what to
//! do; after each request it makes it hands what came back to
//! `apply_chain_reply`. Neither function blocks, so the chain's lock is held
//! only while one of them runs, never across a read or a write.

use vstd::prelude::*;
use crate::block::BlockView;
use crate::blocks::{add_block_from_message, send_last_block_to_stream};
use crate::chain::Chain;
use crate::codec::{
    decode, decoded, encode, encoded, frameable, lemma_round_trip, lemma_truncated_frame,
};
use crate::error::SyncError;
use crate::message::{Message, MessageLabel, MessageView};
use crate::peers::get_chain_from_stream;

verus! {

/// What the listener does with a connection once its request was read.
#[derive(Debug, PartialEq, Eq)]
pub enum ServerAction {
    /// Write these bytes to the connection, then close it.
    Reply(Vec<u8>),
    /// Nothing to send: close the connection.
    Close,
    /// The request was of no use: report the error and close the connection.
    Drop(SyncError),
}

/// What serving `request` makes of `chain`.
pub open spec fn served_chain(chain: Seq<BlockView>, request: Seq<u8>) -> Seq<BlockView> {
    match decoded(request) {
        Some(message) => if message.label == MessageLabel::SendBlock && message.blocks.len() > 0 {
            chain.push(message.blocks[0])
        } else {
            chain
        },
        None => chain,
    }
}

/// What is broadcast arrives: serving the frame of a `SendBlock` message
/// that holds one block appends exactly that block.
pub proof fn lemma_broadcast_arrives(chain: Seq<BlockView>, block: BlockView)
    requires
        frameable(MessageView { blocks: seq![block], label: MessageLabel::SendBlock }),
    ensures
        served_chain(
            chain,
            encoded(MessageView { blocks: seq![block], label: MessageLabel::SendBlock }),
        ) == chain.push(block),
{
    lemma_round_trip(MessageView { blocks: seq![block], label: MessageLabel::SendBlock });
}

/// A frame cut short changes nothing: serving any proper beginning of a
/// frame leaves the chain as it was.
pub proof fn lemma_truncated_request_changes_nothing(
    chain: Seq<BlockView>,
    message: MessageView,
    kept: int,
)
    requires
        frameable(message),
        0 <= kept < encoded(message).len(),
    ensures
        served_chain(chain, encoded(message).take(kept)) == chain,
{
    lemma_truncated_frame(message, kept);
}

/// Serves the request of one inbound connection.
///
/// A request for the chain is answered with a `SendBlock` message holding a
/// copy of the whole chain. A `SendBlock` request has its first block
/// appended as it is. A request that does not decode, or hands over no
/// block, is dropped; then the chain stays as it was.
pub fn handle_incoming_connection(chain: &mut Chain, request: &[u8]) -> (action: ServerAction)
    ensures
        final(chain)@ == served_chain(old(chain)@, request@),
        match decoded(request@) {
            Some(message) => match message.label {
                MessageLabel::AskForAllBlocks => {
                    &&& action matches ServerAction::Reply(reply)
                    &&& reply@ == encoded(
                        MessageView { blocks: old(chain)@, label: MessageLabel::SendBlock },
                    )
                    &&& decoded(reply@) == Some(
                        MessageView { blocks: old(chain)@, label: MessageLabel::SendBlock },
                    )
                },
                MessageLabel::SendBlock => if message.blocks.len() > 0 {
                    action == ServerAction::Close
                } else {
                    action == ServerAction::Drop(SyncError::FrameDecodeError)
                },
            },
            None => action == ServerAction::Drop(SyncError::FrameDecodeError),
        },
{
    let message = match decode(request) {
        Ok(message) => message,
        Err(error) => {
            return ServerAction::Drop(error);
        },
    };
    match *message.get_label() {
        MessageLabel::AskForAllBlocks => ServerAction::Reply(send_last_block_to_stream(chain)),
        MessageLabel::SendBlock => {
            if message.get_blocks().len() > 0 {
                add_block_from_message(chain, &message);
                ServerAction::Close
            } else {
                ServerAction::Drop(SyncError::FrameDecodeError)
            }
        },
    }
}

/// The frame that asks a peer for its whole chain.
pub fn chain_request() -> (frame: Vec<u8>)
    ensures
        frame@ == encoded(
            MessageView {
                blocks: Seq::<BlockView>::empty(),
                label: MessageLabel::AskForAllBlocks,
            },
        ),
        decoded(frame@) == Some(
            MessageView {
                blocks: Seq::<BlockView>::empty(),
                label: MessageLabel::AskForAllBlocks,
            },
        ),
{
    let message = Message::new(Vec::new(), MessageLabel::AskForAllBlocks);
    assert(message@.blocks =~= Seq::<BlockView>::empty());
    encode(&message)
}

/// Applies what a request for a peer's chain brought back.
///
/// `exchange` is the reply frame, or the reason why there is none. A reply
/// that decodes is a candidate chain, whatever its label, and replaces the
/// local chain exactly when it is strictly longer; the result then says
/// whether it did. A failed exchange or a reply that does not decode leaves
/// the chain as it was and is reported.
pub fn apply_chain_reply(chain: &mut Chain, exchange: Result<Vec<u8>, SyncError>) -> (outcome:
    Result<bool, SyncError>)
    ensures
        match exchange {
            Ok(reply) => match decoded(reply@) {
                Some(message) => {
                    &&& outcome == Ok::<bool, SyncError>(message.blocks.len() > old(chain)@.len())
                    &&& final(chain)@ == (if message.blocks.len() > old(chain)@.len() {
                        message.blocks
                    } else {
                        old(chain)@
                    })
                },
                None => {
                    &&& outcome == Err::<bool, SyncError>(SyncError::FrameDecodeError)
                    &&& final(chain)@ == old(chain)@
                },
            },
            Err(error) => {
                &&& outcome == Err::<bool, SyncError>(error)
                &&& final(chain)@ == old(chain)@
            },
        },
{
    let reply = match exchange {
        Ok(reply) => reply,
        Err(error) => {
            return Err(error);
        },
    };
    match get_chain_from_stream(reply.as_slice()) {
        Some(candidate) => Ok(chain.reconcile(candidate)),
        None => Err(SyncError::FrameDecodeError),
    }
}

} // verus!
