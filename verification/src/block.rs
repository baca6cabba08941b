//! A chain block.

use vstd::prelude::*;
use crate::digest::{sha1_hex, sha1_hexdigest};
use crate::hash_content::HashContent;
use crate::wire::{bincode_content, content_bytes};

verus! {

/// What a block is, as plain values.
pub struct BlockView {
    pub timestamp: i64,
    pub data: i32,
    pub previous: Seq<char>,
    pub current: Seq<char>,
}

/// The digest that belongs to a payload stamped at a given time: the SHA-1
/// of the twelve bytes that encode the two, in hexadecimal. The link to the
/// previous block is not part of it.
pub open spec fn content_digest(timestamp: i64, data: i32) -> Seq<char> {
    sha1_hex(content_bytes(timestamp, data))
}

/// Whether a block carries the digest of its own content.
pub open spec fn sealed(block: BlockView) -> bool {
    block.current == content_digest(block.timestamp, block.data)
}

/// The digest is a function of payload and timestamp alone: two sealed
/// blocks with the same content carry the same digest, whatever they name as
/// their predecessor.
pub proof fn lemma_same_content_same_digest(first: BlockView, second: BlockView)
    requires
        sealed(first),
        sealed(second),
        first.timestamp == second.timestamp,
        first.data == second.data,
    ensures
        first.current == second.current,
{
}

/// An immutable record: content, the digest of the block before it, and its
/// own digest.
#[derive(Debug)]
pub struct Block {
    content: HashContent,
    previous: String,
    current: String,
}

impl View for Block {
    type V = BlockView;

    closed spec fn view(&self) -> BlockView {
        BlockView {
            timestamp: self.content.get_timestamp(),
            data: self.content.get_data(),
            previous: self.previous@,
            current: self.current@,
        }
    }
}

impl Clone for Block {
    fn clone(&self) -> (copy: Block)
        ensures
            copy == *self,
    {
        Block {
            content: self.content,
            previous: self.previous.clone(),
            current: self.current.clone(),
        }
    }
}

impl Block {
    /// One block constructor. Creates the block from the given data and
    /// previous digest (empty for the first block), stamps it with the
    /// current time and calculates its own digest.
    pub fn new(data: i32, previous: String) -> (block: Block)
        ensures
            block@.data == data,
            block@.previous == previous@,
            sealed(block@),
    {
        Block::seal(HashContent::new(data), previous)
    }

    /// The block with the given content and previous digest, and the digest
    /// of that content as its own.
    pub fn seal(content: HashContent, previous: String) -> (block: Block)
        ensures
            block@ == (BlockView {
                timestamp: content.get_timestamp(),
                data: content.get_data(),
                previous: previous@,
                current: content_digest(content.get_timestamp(), content.get_data()),
            }),
    {
        let bytes = bincode_content(content.get_timestamp(), content.get_data()).unwrap();
        let current = sha1_hexdigest(&bytes);
        Block { content, previous, current }
    }

    /// A block put together from its three parts as they are, with no digest
    /// computed: what arrives from a peer.
    pub fn from_parts(content: HashContent, previous: String, current: String) -> (block: Block)
        ensures
            block@ == (BlockView {
                timestamp: content.get_timestamp(),
                data: content.get_data(),
                previous: previous@,
                current: current@,
            }),
    {
        Block { content, previous, current }
    }

    /// Getter of the current block hash digest.
    pub fn get_current(&self) -> (current: &str)
        ensures
            current@ == self@.current,
    {
        self.current.as_str()
    }

    /// Getter of the digest of the block before this one; empty for the
    /// first block of a chain.
    pub fn get_previous(&self) -> (previous: &str)
        ensures
            previous@ == self@.previous,
    {
        self.previous.as_str()
    }

    /// Whether the block names no predecessor, as the first block of a chain
    /// does.
    pub fn is_first(&self) -> (first: bool)
        ensures
            first == (self@.previous == Seq::<char>::empty()),
    {
        let first = self.previous.as_str().is_empty();
        assert(first == (self@.previous =~= Seq::<char>::empty()));
        first
    }

    /// Whether the block names `before` as its predecessor.
    pub fn follows(&self, before: &Block) -> (follows: bool)
        ensures
            follows == (self@.previous == before@.current),
    {
        self.previous == before.current
    }

    /// Getter of the hashed content.
    pub fn get_content(&self) -> (content: &HashContent)
        ensures
            content.get_timestamp() == self@.timestamp,
            content.get_data() == self@.data,
    {
        &self.content
    }
}

} // verus!
