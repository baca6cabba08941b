use rust_blockchain::address::{parse_host, LISTENING_PORT};
use rust_blockchain::block::Block;
use rust_blockchain::codec::{decode, encode, frame};
use rust_blockchain::hash_content::HashContent;
use rust_blockchain::message::{Message, MessageLabel};
use rust_blockchain::peers::address_of;

struct Noise(u64);

impl Noise {
    fn next(&mut self) -> u64 {
        self.0 = self.0.wrapping_mul(6364136223846793005).wrapping_add(1442695040888963407);
        self.0 >> 33
    }

    fn bytes(&mut self, length: usize) -> Vec<u8> {
        (0..length).map(|_| self.next() as u8).collect()
    }
}

/// Whatever decodes, encodes to the beginning of what was decoded.
fn assert_decoding_is_sound(payload: &[u8]) -> bool {
    match decode(&frame(payload)) {
        Ok(message) => {
            let again = encode(&message);
            assert!(again.len() - 8 <= payload.len());
            assert_eq!(&again[8..], &payload[..again.len() - 8]);
            true
        }
        Err(_) => false,
    }
}

fn sample_frame() -> Vec<u8> {
    let first = Block::seal(HashContent::at(1_600_000_000, 5), String::new());
    let second = Block::seal(HashContent::at(1_600_000_001, -6), String::from(first.get_current()));
    encode(&Message::new(vec![first, second], MessageLabel::SendBlock))
}

#[test]
fn arbitrary_bytes_decode_only_to_what_encodes_to_them() {
    let mut noise = Noise(7);
    let mut decoded = 0;
    for round in 0..20_000 {
        let length = (noise.next() % 64) as usize;
        let mut payload = noise.bytes(length);
        if round % 2 == 0 && payload.len() >= 12 {
            // a plausible start: no block, a known label
            for byte in payload.iter_mut().take(8) {
                *byte = 0;
            }
            payload[8] = (noise.next() % 3) as u8;
            payload[9] = 0;
            payload[10] = 0;
            payload[11] = 0;
        }
        if assert_decoding_is_sound(&payload) {
            decoded += 1;
        }
    }
    assert!(decoded > 1000);
}

#[test]
fn corrupted_frames_decode_only_to_what_encodes_to_them() {
    let good = sample_frame();
    let payload = &good[8..];
    let mut decoded = 0;
    let mut refused = 0;
    for position in 0..payload.len() {
        for mask in [0x01u8, 0x10, 0x80, 0xff] {
            let mut corrupted = payload.to_vec();
            corrupted[position] ^= mask;
            if assert_decoding_is_sound(&corrupted) {
                decoded += 1;
            } else {
                refused += 1;
            }
        }
    }
    assert!(decoded > 0);
    assert!(refused > 0);
}

#[test]
fn what_encodes_always_decodes_to_itself() {
    let mut noise = Noise(11);
    for _ in 0..500 {
        let count = (noise.next() % 6) as usize;
        let mut blocks = Vec::new();
        for _ in 0..count {
            let previous: String =
                (0..noise.next() % 9).map(|_| char::from_u32(0x20 + (noise.next() % 0x2000) as u32).unwrap_or('?')).collect();
            let current: String =
                (0..noise.next() % 50).map(|_| char::from_u32(0x30 + (noise.next() % 0x40) as u32).unwrap_or('?')).collect();
            let timestamp = (noise.next() << 31 ^ noise.next()) as i64;
            let data = noise.next() as i32;
            blocks.push(Block::from_parts(HashContent::at(timestamp, data), previous, current));
        }
        let label = if noise.next() % 2 == 0 {
            MessageLabel::AskForAllBlocks
        } else {
            MessageLabel::SendBlock
        };
        let message = Message::new(blocks, label);
        let bytes = encode(&message);
        let back = decode(&bytes).unwrap();
        assert_eq!(*back.get_label(), label);
        assert_eq!(back.get_blocks().len(), message.get_blocks().len());
        for index in 0..count {
            let left = &back.get_blocks()[index];
            let right = &message.get_blocks()[index];
            assert_eq!(left.get_previous(), right.get_previous());
            assert_eq!(left.get_current(), right.get_current());
            assert_eq!(left.get_content().get_timestamp(), right.get_content().get_timestamp());
            assert_eq!(left.get_content().get_data(), right.get_content().get_data());
        }
        assert_eq!(encode(&back), bytes);
    }
}

/// Dotted decimal read the slow way: split at the dots, then look at each
/// part.
fn by_parts(text: &str) -> Option<(u8, u8, u8, u8)> {
    let parts: Vec<&str> = text.split('.').collect();
    if parts.len() != 4 {
        return None;
    }
    let mut numbers = [0u8; 4];
    for (index, part) in parts.iter().enumerate() {
        if part.is_empty() || part.len() > 3 || !part.bytes().all(|byte| byte.is_ascii_digit()) {
            return None;
        }
        if part.len() > 1 && part.starts_with('0') {
            return None;
        }
        numbers[index] = part.parse::<u8>().ok()?;
    }
    Some((numbers[0], numbers[1], numbers[2], numbers[3]))
}

fn assert_same_as_by_parts(text: &str) {
    assert_eq!(parse_host(text), by_parts(text), "{:?}", text);
}

#[test]
fn host_addresses_are_four_plain_numbers_between_dots() {
    let parts = [
        "0", "1", "9", "10", "19", "99", "100", "127", "199", "200", "249", "250", "255", "256",
        "260", "300", "999", "00", "01", "001", "010", "1000", "", "a", " 1", "1 ", "-1", "+1",
    ];
    for a in parts {
        for b in parts {
            for c in parts {
                for d in ["0", "7", "255", "256", "01", "", "x"] {
                    assert_same_as_by_parts(&format!("{}.{}.{}.{}", a, b, c, d));
                }
            }
        }
    }
    for a in parts {
        assert_same_as_by_parts(a);
        assert_same_as_by_parts(&format!("{}.1", a));
        assert_same_as_by_parts(&format!("{}.1.1", a));
        assert_same_as_by_parts(&format!("1.1.1.1.{}", a));
        assert_same_as_by_parts(&format!("1.1.1.{}", a));
    }
}

#[test]
fn every_octet_is_read_back() {
    for value in 0..=255u8 {
        let text = format!("{}.{}.{}.{}", value, 255 - value, value / 2, value);
        assert_eq!(parse_host(&text), Some((value, 255 - value, value / 2, value)));
    }
}

#[test]
fn noise_is_read_as_by_parts() {
    let alphabet = ['0', '1', '2', '5', '6', '9', '.', '.', '.', ' ', ':', 'a'];
    let mut noise = Noise(3);
    for _ in 0..100_000 {
        let length = (noise.next() % 16) as usize;
        let text: String =
            (0..length).map(|_| alphabet[(noise.next() % alphabet.len() as u64) as usize]).collect();
        assert_same_as_by_parts(&text);
    }
}

#[test]
fn address_is_the_host_and_the_listening_port() {
    assert_eq!(address_of("10.1.2.3"), format!("10.1.2.3:{}", LISTENING_PORT));
    assert_eq!(address_of("10.1.2.3"), "10.1.2.3:10000");
    assert_eq!(address_of(""), ":10000");
}
