use ledger_node::gateway::{classify_request, parse_block_query, HttpMethod, QueryFault, Route};
use ledger_node::models::{Block, CLIConfiguration, Transaction, TransactionClientPayload};
use ledger_node::runtime::init;
use sha2::Digest;

fn config() -> CLIConfiguration {
    CLIConfiguration {
        port: 5954,
        host: String::from("127.0.0.1"),
        workdir: String::from("/tmp/blockchain"),
        log: false,
    }
}

fn digest_of(text: &str) -> Vec<u8> {
    sha2::Sha256::digest(text.as_bytes()).to_vec()
}

#[test]
fn admit_keeps_fields_and_stamps_time() {
    let mut rt = init(config(), None);
    let reply = rt.handle_send(Some(TransactionClientPayload {
        sender: String::from("A"),
        recipient: String::from("B"),
        amount: 10,
    }));
    assert_eq!(reply, "transaction added");
    let pool = rt.pending_transactions();
    assert_eq!(pool.len(), 1);
    assert_eq!(pool[0].sender, "A");
    assert_eq!(pool[0].recipient, "B");
    assert_eq!(pool[0].amount, 10);
}

#[test]
fn send_with_undecodable_body_changes_nothing() {
    let mut rt = init(config(), None);
    let reply = rt.handle_send(None);
    assert_eq!(reply, "invalid body");
    assert_eq!(rt.pending_transactions().len(), 0);
}

#[test]
fn seal_succeeds_exactly_on_the_preimage() {
    let mut rt = init(config(), None);
    rt.current_hash = digest_of("open sesame");

    let wrong = rt.attempt_seal(&b"wrong word".to_vec());
    assert!(wrong.is_err());
    assert_eq!(rt.current_hash, digest_of("open sesame"));

    rt.handle_send(Some(TransactionClientPayload {
        sender: String::from("A"),
        recipient: String::from("B"),
        amount: 7,
    }));
    let sealed = rt.attempt_seal(&b"open sesame".to_vec()).unwrap();
    assert_eq!(sealed.index, 1);
    assert_eq!(sealed.hash, digest_of("open sesame"));
    assert_eq!(sealed.previous_hash, Vec::<u8>::new());
    assert_eq!(sealed.transactions.len(), 1);
    assert_eq!(sealed.transactions[0].sender, "A");
    assert_eq!(sealed.minted, 100);
    assert_eq!(rt.pending_transactions().len(), 0);
    assert_ne!(rt.current_hash, digest_of("open sesame"));
    assert_eq!(rt.latest_block().index, 1);
}

#[test]
fn sealing_links_the_chain() {
    let mut rt = init(config(), None);
    rt.current_hash = digest_of("first");
    let first = rt.attempt_seal(&b"first".to_vec()).unwrap();
    rt.current_hash = digest_of("second");
    let second = rt.attempt_seal(&b"second".to_vec()).unwrap();
    assert_eq!(second.previous_hash, first.hash);
    assert_eq!(second.index, first.index + 1);
}

#[test]
fn startup_without_blocks_creates_genesis() {
    let rt = init(config(), None);
    let genesis = rt.latest_block();
    assert_eq!(genesis.index, 0);
    assert_eq!(genesis.hash, Vec::<u8>::new());
    assert_eq!(genesis.previous_hash, Vec::<u8>::new());
    assert_eq!(genesis.transactions.len(), 0);
    assert_eq!(genesis.minted, 0);
    assert_eq!(rt.pending_transactions().len(), 0);
    assert_eq!(rt.current_hash.len(), 32);
}

#[test]
fn startup_with_a_block_resumes_it() {
    let recovered = Block {
        index: 9,
        hash: vec![1, 2, 3],
        nonce: String::from(""),
        previous_hash: vec![4, 5],
        timestamp: 77,
        transactions: vec![Transaction {
            sender: String::from("A"),
            recipient: String::from("B"),
            amount: 3,
            timestamp: 70,
        }],
        validated_by: String::from(""),
        minted: 100,
    };
    let rt = init(config(), Some(recovered));
    let last = rt.latest_block();
    assert_eq!(last.index, 9);
    assert_eq!(last.hash, vec![1, 2, 3]);
    assert_eq!(last.transactions.len(), 1);
}

#[test]
fn validate_trims_the_body_before_hashing() {
    let mut rt = init(config(), None);
    rt.current_hash = digest_of("open sesame");
    let payload = rt.handle_validate(&b"  open sesame\r\n".to_vec()).unwrap();
    assert_eq!(payload.message, "validated");
    assert_eq!(payload.data.index, 1);
    assert_eq!(rt.pending_transactions().len(), 0);
}

#[test]
fn validate_with_wrong_preimage_rejects() {
    let mut rt = init(config(), None);
    rt.current_hash = digest_of("open sesame");
    assert!(rt.handle_validate(&b"shut sesame".to_vec()).is_err());
    assert_eq!(rt.latest_block().index, 0);
}

#[test]
fn hash_route_publishes_the_digest_in_hex() {
    let rt = init(config(), None);
    let encoded = rt.current_hash_hex();
    assert_eq!(encoded.len(), 64);
    assert_eq!(encoded, hex::encode(rt.get_current_hash()));
}

#[test]
fn fresh_challenges_differ() {
    let a = init(config(), None);
    let b = init(config(), None);
    assert_eq!(a.current_hash.len(), 32);
    assert_ne!(a.current_hash, b.current_hash);
}

#[test]
fn body_size_boundary() {
    let at = classify_request(HttpMethod::Post, "/send", Some(1000));
    assert_eq!(at, Route::Send);
    let over = classify_request(HttpMethod::Post, "/send", Some(1001));
    assert_eq!(over, Route::Oversize);
    let none = classify_request(HttpMethod::Post, "/send", None);
    assert_eq!(none, Route::Send);
}

#[test]
fn routes_dispatch_by_method_and_path() {
    assert_eq!(classify_request(HttpMethod::Get, "/hash", None), Route::Hash);
    assert_eq!(classify_request(HttpMethod::Post, "/validate", None), Route::Validate);
    assert_eq!(
        classify_request(HttpMethod::Get, "/get/lastblock", None),
        Route::LastBlock
    );
    assert_eq!(
        classify_request(HttpMethod::Get, "/get/unconfirmedtransactions", None),
        Route::UnconfirmedTransactions
    );
    assert_eq!(classify_request(HttpMethod::Post, "/hash", None), Route::NotFound);
    assert_eq!(classify_request(HttpMethod::Get, "/send", None), Route::NotFound);
    assert_eq!(classify_request(HttpMethod::Get, "/nowhere", None), Route::NotFound);
    assert_eq!(classify_request(HttpMethod::Other, "/hash", None), Route::NotFound);
}

#[test]
fn block_queries_parse_ids_and_faults() {
    assert_eq!(
        classify_request(HttpMethod::Get, "/get/block?id=5", None),
        Route::GetBlock(5)
    );
    assert_eq!(
        classify_request(HttpMethod::Get, "/get/block", None),
        Route::BadBlockQuery(QueryFault::NoQuery)
    );
    assert_eq!(
        classify_request(HttpMethod::Get, "/get/block?id=", None),
        Route::BadBlockQuery(QueryFault::IdNotProvided)
    );
    assert_eq!(
        classify_request(HttpMethod::Get, "/get/block?foo=1", None),
        Route::BadBlockQuery(QueryFault::IdNotProvided)
    );
    assert_eq!(
        classify_request(HttpMethod::Get, "/get/block?id=abc", None),
        Route::BadBlockQuery(QueryFault::IdNotANumber)
    );
    assert_eq!(
        classify_request(HttpMethod::Get, "/get/block?foo=1&id=7&bar=2", None),
        Route::GetBlock(7)
    );
    assert_eq!(parse_block_query("id=+10"), Route::GetBlock(10));
    assert_eq!(
        parse_block_query("id=18446744073709551615"),
        Route::GetBlock(u64::MAX)
    );
    assert_eq!(
        parse_block_query("id=18446744073709551616"),
        Route::BadBlockQuery(QueryFault::IdNotANumber)
    );
}

#[test]
fn fault_messages_match_the_responses() {
    assert_eq!(QueryFault::NoQuery.message(), "not query provided");
    assert_eq!(QueryFault::IdNotProvided.message(), "id is not provided");
    assert_eq!(QueryFault::IdNotANumber.message(), "id is not a number");
}

#[test]
fn end_to_end_over_the_library() {
    let mut rt = init(config(), None);

    // A transfer arrives.
    assert_eq!(
        classify_request(HttpMethod::Post, "/send", Some(44)),
        Route::Send
    );
    let reply = rt.handle_send(Some(TransactionClientPayload {
        sender: String::from("A"),
        recipient: String::from("B"),
        amount: 10,
    }));
    assert_eq!(reply, "transaction added");
    let pool = rt.pending_transactions();
    assert_eq!(pool.len(), 1);
    assert_eq!(pool[0].sender, "A");
    assert_eq!(pool[0].recipient, "B");
    assert_eq!(pool[0].amount, 10);

    // The challenge is published as 64 hex characters.
    let published = rt.current_hash_hex();
    assert_eq!(published.len(), 64);
    assert!(published.chars().all(|c| c.is_ascii_hexdigit()));

    // The correct preimage seals the next block and clears the pool.
    let before = rt.latest_block();
    rt.current_hash = digest_of("the winning preimage");
    let sealed = rt.handle_validate(&b"the winning preimage".to_vec()).unwrap();
    assert_eq!(sealed.message, "validated");
    assert_eq!(sealed.data.index, before.index + 1);
    assert_eq!(rt.pending_transactions().len(), 0);
    assert_eq!(rt.latest_block().transactions.len(), 1);
}
