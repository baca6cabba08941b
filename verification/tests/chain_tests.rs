use rust_blockchain::block::Block;
use rust_blockchain::blocks::{add_block_from_message, list_blocks};
use rust_blockchain::chain::Chain;
use rust_blockchain::hash_content::HashContent;
use rust_blockchain::message::{Message, MessageLabel};

fn same_block(left: &Block, right: &Block) -> bool {
    left.get_current() == right.get_current()
        && left.get_previous() == right.get_previous()
        && left.get_content().get_timestamp() == right.get_content().get_timestamp()
        && left.get_content().get_data() == right.get_content().get_data()
}

fn chain_of(payloads: &[i32]) -> Chain {
    let mut chain = Chain::new();
    for payload in payloads {
        chain.append(*payload);
    }
    chain
}

#[test]
fn fresh_node_appends_its_first_block() {
    let mut chain = Chain::new();
    assert_eq!(chain.length(), 0);
    assert!(chain.tail().is_none());
    let block = chain.append(10);
    assert_eq!(chain.length(), 1);
    assert_eq!(block.get_previous(), "");
    assert_eq!(block.get_content().get_data(), 10);
    assert_eq!(block.get_current().len(), 40);
    let timestamp = block.get_content().get_timestamp();
    let again = Block::seal(HashContent::at(timestamp, 10), String::new());
    assert_eq!(again.get_current(), block.get_current());
    let once_more = Block::seal(HashContent::at(timestamp, 10), String::new());
    assert_eq!(once_more.get_current(), again.get_current());
}

#[test]
fn new_block_is_stamped_with_a_recent_time() {
    let block = Block::new(7, String::from("abc"));
    assert_eq!(block.get_previous(), "abc");
    assert_eq!(block.get_content().get_data(), 7);
    // after 2017-07-14 and before the year 2100
    assert!(block.get_content().get_timestamp() > 1_500_000_000);
    assert!(block.get_content().get_timestamp() < 4_102_444_800);
    let content = HashContent::new(3);
    assert_eq!(content.get_data(), 3);
    assert!(content.get_timestamp() > 1_500_000_000);
}

#[test]
fn appends_keep_the_chain_linked_and_count_the_calls() {
    let payloads = [3, -4, 0, i32::MAX, i32::MIN, 3];
    let mut chain = Chain::new();
    let mut returned = Vec::new();
    for (count, payload) in payloads.iter().enumerate() {
        returned.push(chain.append(*payload));
        assert_eq!(chain.length(), count + 1);
    }
    let blocks = chain.snapshot();
    assert_eq!(blocks.len(), payloads.len());
    assert_eq!(blocks[0].get_previous(), "");
    for index in 0..blocks.len() {
        assert_eq!(blocks[index].get_content().get_data(), payloads[index]);
        assert!(same_block(&blocks[index], &returned[index]));
        if index > 0 {
            assert_eq!(blocks[index].get_previous(), blocks[index - 1].get_current());
        }
    }
    assert!(chain.is_linked());
}

#[test]
fn append_content_names_the_tail_and_seals() {
    let mut chain = Chain::new();
    let first = chain.append_content(HashContent::at(1_500_000_000, 10));
    assert_eq!(first.get_previous(), "");
    assert_eq!(first.get_current(), "7e2fab0b16ab8faee27008aa7271974ec5bae5fb");
    let second = chain.append_content(HashContent::at(1, 2));
    assert_eq!(second.get_previous(), "7e2fab0b16ab8faee27008aa7271974ec5bae5fb");
    assert_eq!(second.get_current(), "b22bd0e813f6228f7fb56ed5536296acd6a9391e");
    assert_eq!(chain.length(), 2);
    let tail = chain.tail().unwrap();
    assert!(same_block(&tail, &second));
}

#[test]
fn snapshot_is_detached_from_the_chain() {
    let mut chain = chain_of(&[1, 2]);
    let before = chain.snapshot();
    chain.append(3);
    assert_eq!(before.len(), 2);
    assert_eq!(chain.length(), 3);
    let listed = list_blocks(&chain);
    assert_eq!(listed.len(), 3);
    assert!(same_block(&listed[0], &before[0]));
    assert!(same_block(&listed[1], &before[1]));
}

#[test]
fn received_block_is_appended_unchecked() {
    let mut chain = chain_of(&[1]);
    let stray = Block::from_parts(
        HashContent::at(5, 6),
        String::from("not the tail"),
        String::from("not a digest"),
    );
    chain.append_received(stray.clone());
    assert_eq!(chain.length(), 2);
    assert!(same_block(&chain.tail().unwrap(), &stray));
    assert!(!chain.is_linked());
}

#[test]
fn first_block_of_a_message_is_added() {
    let mut chain = Chain::new();
    let first = Block::seal(HashContent::at(1, 1), String::new());
    let second = Block::seal(HashContent::at(2, 2), String::from(first.get_current()));
    let message = Message::new(vec![first.clone(), second], MessageLabel::SendBlock);
    add_block_from_message(&mut chain, &message);
    assert_eq!(chain.length(), 1);
    assert!(same_block(&chain.tail().unwrap(), &first));
}

#[test]
fn longer_candidate_replaces_the_local_chain() {
    let mut local = chain_of(&[1]);
    let candidate = chain_of(&[7, 8, 9]).snapshot();
    assert!(local.reconcile(candidate.clone()));
    let now = local.snapshot();
    assert_eq!(now.len(), 3);
    for index in 0..3 {
        assert!(same_block(&now[index], &candidate[index]));
    }
}

#[test]
fn shorter_or_equal_candidate_leaves_the_local_chain() {
    let mut local = chain_of(&[1, 2, 3]);
    let before = local.snapshot();
    assert!(!local.reconcile(chain_of(&[9]).snapshot()));
    assert!(!local.reconcile(chain_of(&[7, 8, 9]).snapshot()));
    assert!(!local.reconcile(Vec::new()));
    let after = local.snapshot();
    assert_eq!(after.len(), 3);
    for index in 0..3 {
        assert!(same_block(&after[index], &before[index]));
    }
    let mut empty = Chain::new();
    assert!(!empty.reconcile(Vec::new()));
    assert_eq!(empty.length(), 0);
    assert!(empty.reconcile(chain_of(&[4]).snapshot()));
    assert_eq!(empty.length(), 1);
}

#[test]
fn longest_wins_even_when_the_candidate_is_not_linked() {
    let mut local = chain_of(&[1]);
    let broken = vec![
        Block::from_parts(HashContent::at(1, 1), String::from("x"), String::from("y")),
        Block::from_parts(HashContent::at(2, 2), String::from("z"), String::from("w")),
    ];
    assert!(local.reconcile(broken));
    assert_eq!(local.length(), 2);
    assert!(!local.is_linked());
}

#[test]
fn checked_reconciliation_refuses_a_chain_that_is_not_linked() {
    let mut local = chain_of(&[1]);
    let before = local.snapshot();
    let broken = vec![
        Block::seal(HashContent::at(1, 1), String::new()),
        Block::seal(HashContent::at(2, 2), String::from("somewhere else")),
    ];
    assert_eq!(
        local.reconcile_checked(broken),
        Err(rust_blockchain::error::SyncError::InvalidChain)
    );
    assert_eq!(local.length(), 1);
    assert!(same_block(&local.tail().unwrap(), &before[0]));
    let sound = chain_of(&[5, 6]).snapshot();
    assert_eq!(local.reconcile_checked(sound), Ok(true));
    assert_eq!(local.length(), 2);
    assert_eq!(local.reconcile_checked(chain_of(&[5]).snapshot()), Ok(false));
    assert_eq!(local.length(), 2);
    // a first block that names a predecessor breaks the invariant too
    let headless = vec![
        Block::seal(HashContent::at(1, 1), String::from("ghost")),
        Block::seal(HashContent::at(2, 2), String::from("x")),
        Block::seal(HashContent::at(3, 3), String::from("y")),
    ];
    assert_eq!(
        local.reconcile_checked(headless),
        Err(rust_blockchain::error::SyncError::InvalidChain)
    );
    assert_eq!(local.length(), 2);
}

#[test]
fn empty_chain_is_linked() {
    assert!(Chain::new().is_linked());
    assert!(Chain::from_blocks(Vec::new()).is_linked());
    let lone = Chain::from_blocks(vec![Block::seal(HashContent::at(1, 1), String::new())]);
    assert!(lone.is_linked());
    let headless = Chain::from_blocks(vec![Block::seal(HashContent::at(1, 1), String::from("x"))]);
    assert!(!headless.is_linked());
}
