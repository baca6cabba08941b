//! Blocks routines.

use vstd::prelude::*;
use crate::block::Block;
use crate::chain::Chain;
use crate::codec::{decoded, encode, encoded};
use crate::message::{blocks_view, Message, MessageLabel, MessageView};
use crate::peers::{address_of, peer_address, PeerRegistry};

verus! {

/// The blocks of the chain in their order, for display.
pub fn list_blocks(chain: &Chain) -> (blocks: Vec<Block>)
    ensures
        blocks_view(blocks@) == chain@,
{
    chain.snapshot()
}

/// Adds one block to the chain from a received message: the first block that
/// the message carries, taken as it is. The message must carry one.
pub fn add_block_from_message(chain: &mut Chain, message: &Message)
    requires
        message@.blocks.len() > 0,
    ensures
        final(chain)@ == old(chain)@.push(message@.blocks[0]),
{
    let blocks = message.get_blocks();
    chain.append_received(blocks[0].clone());
}

/// The frame that answers a request for the local chain: a `SendBlock`
/// message holding a copy of every block, in order. An empty chain gives a
/// message without blocks.
pub fn send_last_block_to_stream(chain: &Chain) -> (frame: Vec<u8>)
    ensures
        frame@ == encoded(MessageView { blocks: chain@, label: MessageLabel::SendBlock }),
        decoded(frame@) == Some(MessageView { blocks: chain@, label: MessageLabel::SendBlock }),
{
    let mut message = Message::new(Vec::new(), MessageLabel::SendBlock);
    if chain.length() > 0 {
        message.set_blocks(chain.snapshot());
    }
    assert(message@.blocks =~= chain@);
    encode(&message)
}

/// The frame that hands `block` to a peer: a `SendBlock` message holding
/// exactly that one block.
pub fn block_frame(block: Block) -> (frame: Vec<u8>)
    ensures
        frame@ == encoded(MessageView { blocks: seq![block@], label: MessageLabel::SendBlock }),
        decoded(frame@) == Some(
            MessageView { blocks: seq![block@], label: MessageLabel::SendBlock },
        ),
{
    let mut blocks: Vec<Block> = Vec::new();
    blocks.push(block);
    let message = Message::new(blocks, MessageLabel::SendBlock);
    assert(message@.blocks =~= seq![block@]);
    encode(&message)
}

/// One item of a broadcast: what to send, to whom.
#[derive(Debug)]
pub struct Delivery {
    /// The host of the peer, for reporting.
    pub host: String,
    /// The address to connect to.
    pub address: String,
    /// The bytes to write once connected.
    pub frame: Vec<u8>,
}

/// Plans the broadcast of `block`: one delivery for every peer, in the order
/// of the registry, each carrying the frame of a `SendBlock` message that
/// holds exactly that block. A delivery that fails does not stop the others.
pub fn broadcast_block(peers: &PeerRegistry, block: Block) -> (deliveries: Vec<Delivery>)
    ensures
        deliveries@.len() == peers@.len(),
        forall|i: int|
            #![trigger deliveries@[i]]
            0 <= i < peers@.len() ==> {
                &&& deliveries@[i].host@ == peers@[i]
                &&& deliveries@[i].address@ == peer_address(peers@[i])
                &&& deliveries@[i].frame@ == encoded(
                    MessageView { blocks: seq![block@], label: MessageLabel::SendBlock },
                )
                &&& decoded(deliveries@[i].frame@) == Some(
                    MessageView { blocks: seq![block@], label: MessageLabel::SendBlock },
                )
            },
{
    let frame = block_frame(block);
    let hosts = peers.hosts();
    let mut deliveries: Vec<Delivery> = Vec::new();
    let mut index: usize = 0;
    while index < hosts.len()
        invariant
            index <= hosts@.len(),
            deliveries@.len() == index,
            frame@ == encoded(
                MessageView { blocks: seq![block@], label: MessageLabel::SendBlock },
            ),
            decoded(frame@) == Some(
                MessageView { blocks: seq![block@], label: MessageLabel::SendBlock },
            ),
            forall|i: int|
                #![trigger deliveries@[i]]
                0 <= i < index ==> {
                    &&& deliveries@[i].host@ == hosts@[i]@
                    &&& deliveries@[i].address@ == peer_address(hosts@[i]@)
                    &&& deliveries@[i].frame@ == frame@
                },
        decreases hosts.len() - index,
    {
        let host = hosts[index].as_str();
        deliveries.push(
            Delivery { host: host.to_owned(), address: address_of(host), frame: frame.clone() },
        );
        index += 1;
    }
    deliveries
}

} // verus!
