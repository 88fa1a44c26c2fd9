use ledger_node::codec::{decode_block, encode_block};
use ledger_node::digits::{parse_u64, u64_to_dec};
use ledger_node::models::{Block, Transaction};

fn sample_block() -> Block {
    Block {
        index: 12,
        hash: vec![0xde, 0xad, 0xbe, 0xef],
        nonce: String::from("1234.5678"),
        previous_hash: vec![],
        timestamp: 1_700_000_000,
        transactions: vec![
            Transaction {
                sender: String::from("alice"),
                recipient: String::from("bob"),
                amount: 10,
                timestamp: 1_699_999_999,
            },
            Transaction {
                sender: String::from("Алиса"),
                recipient: String::from("ボブ"),
                amount: u64::MAX,
                timestamp: 0,
            },
        ],
        validated_by: String::from("0x0"),
        minted: 100,
    }
}

fn assert_blocks_equal(a: &Block, b: &Block) {
    assert_eq!(a.index, b.index);
    assert_eq!(a.hash, b.hash);
    assert_eq!(a.nonce, b.nonce);
    assert_eq!(a.previous_hash, b.previous_hash);
    assert_eq!(a.timestamp, b.timestamp);
    assert_eq!(a.transactions.len(), b.transactions.len());
    for (x, y) in a.transactions.iter().zip(b.transactions.iter()) {
        assert_eq!(x.sender, y.sender);
        assert_eq!(x.recipient, y.recipient);
        assert_eq!(x.amount, y.amount);
        assert_eq!(x.timestamp, y.timestamp);
    }
    assert_eq!(a.validated_by, b.validated_by);
    assert_eq!(a.minted, b.minted);
}

#[test]
fn a_block_survives_the_round_trip() {
    let block = sample_block();
    let bytes = encode_block(&block);
    let back = decode_block(&bytes).unwrap();
    assert_blocks_equal(&block, &back);
}

#[test]
fn the_genesis_block_survives_the_round_trip() {
    let genesis = Block::default();
    let bytes = encode_block(&genesis);
    let back = decode_block(&bytes).unwrap();
    assert_blocks_equal(&genesis, &back);
}

#[test]
fn garbage_is_corrupt() {
    assert!(decode_block(&vec![]).is_err());
    assert!(decode_block(&vec![1, 2, 3]).is_err());
}

#[test]
fn a_truncated_document_is_corrupt() {
    let mut bytes = encode_block(&sample_block());
    bytes.pop();
    assert!(decode_block(&bytes).is_err());
}

#[test]
fn a_trailing_byte_is_corrupt() {
    let mut bytes = encode_block(&sample_block());
    bytes.push(0);
    assert!(decode_block(&bytes).is_err());
}

#[test]
fn invalid_text_bytes_are_corrupt() {
    let block = Block {
        nonce: String::from("x"),
        ..Block::default()
    };
    let mut bytes = encode_block(&block);
    // The nonce's single byte sits right after the index (8), the empty hash
    // field (8) and the nonce length (8); 0xff alone is not valid UTF-8.
    bytes[24] = 0xff;
    assert!(decode_block(&bytes).is_err());
}

#[test]
fn decimal_text_is_exact() {
    assert_eq!(u64_to_dec(0), b"0".to_vec());
    assert_eq!(u64_to_dec(7), b"7".to_vec());
    assert_eq!(u64_to_dec(12345), b"12345".to_vec());
    assert_eq!(u64_to_dec(u64::MAX), b"18446744073709551615".to_vec());
}

#[test]
fn parsing_accepts_exactly_fitting_numbers() {
    assert_eq!(parse_u64("0"), Some(0));
    assert_eq!(parse_u64("+42"), Some(42));
    assert_eq!(parse_u64("007"), Some(7));
    assert_eq!(parse_u64("18446744073709551615"), Some(u64::MAX));
    assert_eq!(parse_u64("18446744073709551616"), None);
    assert_eq!(parse_u64(""), None);
    assert_eq!(parse_u64("+"), None);
    assert_eq!(parse_u64("12a"), None);
    assert_eq!(parse_u64("-1"), None);
    assert_eq!(parse_u64(" 1"), None);
}
