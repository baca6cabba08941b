//! The ordered, append-only sequence of blocks that one node holds.

use vstd::prelude::*;
use crate::block::{content_digest, Block, BlockView};
use crate::error::SyncError;
use crate::hash_content::HashContent;
use crate::message::blocks_view;

verus! {

/// The linkage invariant: the first block names no predecessor, and every
/// later block names the digest of the block just before it.
pub open spec fn linked(chain: Seq<BlockView>) -> bool {
    &&& chain.len() > 0 ==> chain[0].previous == Seq::<char>::empty()
    &&& forall|i: int, j: int|
        0 <= i && j == i + 1 && j < chain.len() ==> (#[trigger] chain[j]).previous == (
        #[trigger] chain[i]).current
}

/// The digest that the next block of `chain` has to name as its predecessor:
/// that of the tail, or nothing while the chain is empty.
pub open spec fn tail_digest(chain: Seq<BlockView>) -> Seq<char> {
    if chain.len() == 0 {
        Seq::<char>::empty()
    } else {
        chain.last().current
    }
}

/// `chain` with one more block, made here for the payload `data` at the time
/// `timestamp`.
pub open spec fn extended(chain: Seq<BlockView>, timestamp: i64, data: i32) -> Seq<BlockView> {
    chain.push(
        BlockView {
            timestamp,
            data,
            previous: tail_digest(chain),
            current: content_digest(timestamp, data),
        },
    )
}

/// `chain` after one local append for each of `appends`, in order; an append
/// is a timestamp and a payload.
pub open spec fn grown(chain: Seq<BlockView>, appends: Seq<(i64, i32)>) -> Seq<BlockView>
    decreases appends.len(),
{
    if appends.len() == 0 {
        chain
    } else {
        extended(grown(chain, appends.drop_last()), appends.last().0, appends.last().1)
    }
}

/// One local append keeps a linked chain linked.
pub proof fn lemma_extended_linked(chain: Seq<BlockView>, timestamp: i64, data: i32)
    requires
        linked(chain),
    ensures
        linked(extended(chain, timestamp, data)),
        extended(chain, timestamp, data).len() == chain.len() + 1,
{
    let longer = extended(chain, timestamp, data);
    assert forall|i: int, j: int| 0 <= i && j == i + 1 && j < longer.len() implies (
    #[trigger] longer[j]).previous == (#[trigger] longer[i]).current by {
        if j < chain.len() {
            // both blocks are old ones
            assert(longer[j] == chain[j] && longer[i] == chain[i]);
        } else {
            // the new block names the old tail
            assert(longer[i] == chain.last());
        }
    }
}

/// Local appends keep a linked chain linked, however many they are, and add
/// one block each.
pub proof fn lemma_grown_linked(chain: Seq<BlockView>, appends: Seq<(i64, i32)>)
    requires
        linked(chain),
    ensures
        linked(grown(chain, appends)),
        grown(chain, appends).len() == chain.len() + appends.len(),
    decreases appends.len(),
{
    if appends.len() > 0 {
        lemma_grown_linked(chain, appends.drop_last());
        lemma_extended_linked(
            grown(chain, appends.drop_last()),
            appends.last().0,
            appends.last().1,
        );
    }
}

/// Whatever the payloads and whenever they were stamped, a chain that grows
/// from nothing by local appends alone satisfies the linkage invariant, and
/// its length is the number of appends made.
pub proof fn lemma_appends_keep_linkage(appends: Seq<(i64, i32)>)
    ensures
        linked(grown(Seq::<BlockView>::empty(), appends)),
        grown(Seq::<BlockView>::empty(), appends).len() == appends.len(),
{
    lemma_grown_linked(Seq::<BlockView>::empty(), appends);
}

/// Whether `blocks` satisfy the linkage invariant.
pub fn blocks_linked(blocks: &Vec<Block>) -> (holds: bool)
    ensures
        holds == linked(blocks_view(blocks@)),
{
    let length = blocks.len();
    if length == 0 {
        return true;
    }
    let ghost chain = blocks_view(blocks@);
    if !blocks[0].is_first() {
        return false;
    }
    let mut index: usize = 1;
    while index < length
        invariant
            1 <= index <= length,
            length == blocks@.len(),
            chain == blocks_view(blocks@),
            chain[0].previous == Seq::<char>::empty(),
            forall|i: int, j: int|
                0 <= i && j == i + 1 && j < index ==> (#[trigger] chain[j]).previous == (
                #[trigger] chain[i]).current,
        decreases length - index,
    {
        assert(chain[index as int] == blocks@[index as int]@);
        assert(chain[index - 1] == blocks@[index - 1]@);
        if !blocks[index].follows(&blocks[index - 1]) {
            return false;
        }
        index += 1;
    }
    true
}

/// An ordered sequence of blocks; insertion order is the canonical order.
///
/// A chain grows by appends and is replaced as a whole only by
/// reconciliation. It is linked as long as it grows by local appends; what
/// comes from peers is stored unchecked and may break the invariant.
#[derive(Debug)]
pub struct Chain {
    blocks: Vec<Block>,
}

impl View for Chain {
    type V = Seq<BlockView>;

    closed spec fn view(&self) -> Seq<BlockView> {
        blocks_view(self.blocks@)
    }
}

impl Chain {
    /// The empty chain: no first block yet.
    pub fn new() -> (chain: Chain)
        ensures
            chain@ == Seq::<BlockView>::empty(),
    {
        Chain { blocks: Vec::new() }
    }

    /// The chain that holds exactly `blocks`, in their order.
    pub fn from_blocks(blocks: Vec<Block>) -> (chain: Chain)
        ensures
            chain@ == blocks_view(blocks@),
    {
        Chain { blocks }
    }

    /// Number of blocks.
    pub fn length(&self) -> (length: usize)
        ensures
            length == self@.len(),
    {
        self.blocks.len()
    }

    /// A copy of the last block, if there is one.
    pub fn tail(&self) -> (tail: Option<Block>)
        ensures
            self@.len() == 0 ==> tail is None,
            self@.len() > 0 ==> tail is Some && tail->0@ == self@.last(),
    {
        let length = self.blocks.len();
        if length == 0 {
            None
        } else {
            Some(self.blocks[length - 1].clone())
        }
    }

    /// A copy of all blocks in order, detached from the chain: what is sent
    /// out does not change when the chain does.
    pub fn snapshot(&self) -> (blocks: Vec<Block>)
        ensures
            blocks_view(blocks@) == self@,
    {
        self.blocks.clone()
    }

    /// Appends a block made here from `content`: it names the current tail
    /// as its predecessor and carries the digest of `content`. Returns a copy
    /// of it for broadcasting.
    pub fn append_content(&mut self, content: HashContent) -> (block: Block)
        ensures
            final(self)@ == extended(old(self)@, content.get_timestamp(), content.get_data()),
            block@ == final(self)@.last(),
    {
        let length = self.blocks.len();
        let previous = if length == 0 {
            String::new()
        } else {
            self.blocks[length - 1].get_current().to_owned()
        };
        let block = Block::seal(content, previous);
        let copy = block.clone();
        self.blocks.push(block);
        assert(blocks_view(self.blocks@) =~= extended(
            blocks_view(old(self).blocks@),
            content.get_timestamp(),
            content.get_data(),
        ));
        copy
    }

    /// Appends a new block carrying `data`, stamped with the current time.
    /// Returns a copy of it for broadcasting.
    pub fn append(&mut self, data: i32) -> (block: Block)
        ensures
            final(self)@ == extended(old(self)@, block@.timestamp, data),
            block@ == final(self)@.last(),
            linked(old(self)@) ==> linked(final(self)@),
    {
        let content = HashContent::new(data);
        proof {
            if linked(self@) {
                lemma_extended_linked(self@, content.get_timestamp(), content.get_data());
            }
        }
        self.append_content(content)
    }

    /// Appends a block received from a peer as it is. Nothing is checked:
    /// neither its digest nor its link to the current tail.
    pub fn append_received(&mut self, block: Block)
        ensures
            final(self)@ == old(self)@.push(block@),
    {
        self.blocks.push(block);
    }

    /// Whether the chain satisfies the linkage invariant. A chain that grew by
    /// local appends alone does; blocks taken from peers are not checked when
    /// they arrive.
    pub fn is_linked(&self) -> (holds: bool)
        ensures
            holds == linked(self@),
    {
        blocks_linked(&self.blocks)
    }

    /// Longest chain wins, among linked chains: a `candidate` that is strictly
    /// longer replaces the local chain if it satisfies the linkage invariant
    /// and is refused as `InvalidChain` if it does not. A `candidate` that is
    /// not longer is ignored, linked or not. Returns whether the chain was
    /// replaced.
    pub fn reconcile_checked(&mut self, candidate: Vec<Block>) -> (outcome: Result<bool, SyncError>)
        ensures
            match outcome {
                Ok(replaced) => {
                    &&& replaced == (candidate@.len() > old(self)@.len())
                    &&& replaced ==> linked(blocks_view(candidate@))
                    &&& final(self)@ == (if replaced {
                        blocks_view(candidate@)
                    } else {
                        old(self)@
                    })
                },
                Err(error) => {
                    &&& error == SyncError::InvalidChain
                    &&& candidate@.len() > old(self)@.len()
                    &&& !linked(blocks_view(candidate@))
                    &&& final(self)@ == old(self)@
                },
            },
    {
        if candidate.len() <= self.blocks.len() {
            Ok(false)
        } else if blocks_linked(&candidate) {
            self.blocks = candidate;
            Ok(true)
        } else {
            Err(SyncError::InvalidChain)
        }
    }

    /// Longest chain wins: the local chain becomes `candidate` exactly when
    /// `candidate` is strictly longer, and is left alone otherwise. Returns
    /// whether it was replaced.
    ///
    /// The candidate is taken on trust: neither its links nor its digests are
    /// looked at, so a longer chain that breaks the linkage invariant wins
    /// too. `reconcile_checked` is the same policy with the links checked.
    pub fn reconcile(&mut self, candidate: Vec<Block>) -> (replaced: bool)
        ensures
            replaced == (candidate@.len() > old(self)@.len()),
            final(self)@ == (if replaced {
                blocks_view(candidate@)
            } else {
                old(self)@
            }),
    {
        if candidate.len() > self.blocks.len() {
            self.blocks = candidate;
            true
        } else {
            false
        }
    }
}

} // verus!
