use rust_blockchain::block::Block;
use rust_blockchain::hash_content::HashContent;

#[test]
fn sealed_block_has_the_sha1_of_its_twelve_content_bytes() {
    let block = Block::seal(HashContent::at(1_500_000_000, 10), String::new());
    assert_eq!(block.get_current(), "7e2fab0b16ab8faee27008aa7271974ec5bae5fb");
    assert_eq!(block.get_previous(), "");
    assert_eq!(block.get_content().get_timestamp(), 1_500_000_000);
    assert_eq!(block.get_content().get_data(), 10);
}

#[test]
fn digest_covers_negative_values_in_twos_complement() {
    let block = Block::seal(HashContent::at(-1, -1), String::new());
    assert_eq!(block.get_current(), "a4a22152faab8db4a63de422ae0d5852fd35b04a");
    let zero = Block::seal(HashContent::at(0, 0), String::new());
    assert_eq!(zero.get_current(), "2c513f149e737ec4063fc1d37aee9beabc4b4bbf");
}
