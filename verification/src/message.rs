//! A message sent over the network for peers communication.

use vstd::prelude::*;
use crate::block::{Block, BlockView};

verus! {

/// The intent of a message.
#[derive(Clone, Copy, Debug, PartialEq, Eq, Structural)]
pub enum MessageLabel {
    /// A request for the whole chain of the receiver; carries no block.
    AskForAllBlocks,
    /// Blocks handed over: a reply with a chain, or one freshly made block.
    SendBlock,
}

/// What a message is, as plain values.
pub struct MessageView {
    pub blocks: Seq<BlockView>,
    pub label: MessageLabel,
}

/// The plain values of a run of blocks, in order.
pub open spec fn blocks_view(blocks: Seq<Block>) -> Seq<BlockView> {
    blocks.map_values(|block: Block| block@)
}

/// The envelope exchanged between two nodes: a label and the blocks that go
/// with it.
#[derive(Debug)]
pub struct Message {
    blocks: Vec<Block>,
    label: MessageLabel,
}

impl View for Message {
    type V = MessageView;

    closed spec fn view(&self) -> MessageView {
        MessageView { blocks: blocks_view(self.blocks@), label: self.label }
    }
}

impl Message {
    /// Message constructor.
    pub fn new(blocks: Vec<Block>, label: MessageLabel) -> (message: Message)
        ensures
            message@ == (MessageView { blocks: blocks_view(blocks@), label }),
    {
        Message { blocks, label }
    }

    /// Getter of the label.
    pub fn get_label(&self) -> (label: &MessageLabel)
        ensures
            *label == self@.label,
    {
        &self.label
    }

    /// Getter of the blocks array.
    pub fn get_blocks(&self) -> (blocks: &Vec<Block>)
        ensures
            blocks_view(blocks@) == self@.blocks,
    {
        &self.blocks
    }

    /// Setter of the blocks array. The label stays as it was.
    pub fn set_blocks(&mut self, blocks: Vec<Block>)
        ensures
            final(self)@ == (MessageView {
                blocks: blocks_view(blocks@),
                label: old(self)@.label,
            }),
    {
        self.blocks = blocks;
    }
}

} // verus!
