//! Data model of the ledger node: transactions, blocks, the runtime state,
//! the request payload shapes, and the configuration consumed at startup.

use std::io::Write;
use vstd::prelude::*;

verus! {

/// Reward minted into every block sealed after genesis.
pub const BLOCK_REWARD: u64 = 100;

/// Mathematical content of a `Transaction`: the fields as sequences and
/// integers, with no heap structure left.
#[verifier::ext_equal]
pub ghost struct TransactionView {
    pub sender: Seq<char>,
    pub recipient: Seq<char>,
    pub amount: u64,
    pub timestamp: u64,
}

/// A transfer admitted into the pending pool; the timestamp is stamped by the
/// node at admission, never supplied by the client.
pub struct Transaction {
    pub sender: String,
    pub recipient: String,
    pub amount: u64,
    pub timestamp: u64,
}

impl View for Transaction {
    type V = TransactionView;

    open spec fn view(&self) -> TransactionView {
        TransactionView {
            sender: self.sender@,
            recipient: self.recipient@,
            amount: self.amount,
            timestamp: self.timestamp,
        }
    }
}

impl Clone for Transaction {
    fn clone(&self) -> (r: Self)
        ensures
            r@ == self@,
    {
        let r = Transaction {
            sender: self.sender.clone(),
            recipient: self.recipient.clone(),
            amount: self.amount,
            timestamp: self.timestamp,
        };
        proof {
            assert(r@ =~= self@);
        }
        r
    }
}

/// Mathematical content of a `Block`.
#[verifier::ext_equal]
pub ghost struct BlockView {
    pub index: u64,
    pub hash: Seq<u8>,
    pub nonce: Seq<char>,
    pub previous_hash: Seq<u8>,
    pub timestamp: u64,
    pub transactions: Seq<TransactionView>,
    pub validated_by: Seq<char>,
    pub minted: u64,
}

/// One sealed unit of the chain. `hash` is the digest that was the active
/// challenge at the moment of sealing; `previous_hash` links to the block
/// before it; genesis carries index 0 and empty hashes.
pub struct Block {
    pub index: u64,
    pub hash: Vec<u8>,
    pub nonce: String,
    pub previous_hash: Vec<u8>,
    pub timestamp: u64,
    pub transactions: Vec<Transaction>,
    pub validated_by: String,
    pub minted: u64,
}

impl View for Block {
    type V = BlockView;

    open spec fn view(&self) -> BlockView {
        BlockView {
            index: self.index,
            hash: self.hash@,
            nonce: self.nonce@,
            previous_hash: self.previous_hash@,
            timestamp: self.timestamp,
            transactions: txs_view(self.transactions@),
            validated_by: self.validated_by@,
            minted: self.minted,
        }
    }
}

/// The transaction list of a block or pool, element by element, as views.
pub open spec fn txs_view(s: Seq<Transaction>) -> Seq<TransactionView>
    decreases s.len(),
{
    if s.len() == 0 {
        Seq::empty()
    } else {
        txs_view(s.drop_last()).push(s.last()@)
    }
}

/// A transaction list and its view have the same length and agree at every
/// index.
pub broadcast proof fn lemma_txs_view(s: Seq<Transaction>)
    ensures
        (#[trigger] txs_view(s)).len() == s.len(),
        forall|j: int| 0 <= j < s.len() ==> #[trigger] txs_view(s)[j] == s[j]@,
    decreases s.len(),
{
    if s.len() > 0 {
        lemma_txs_view(s.drop_last());
    }
}

/// The genesis block: index 0, empty hashes, no transactions, nothing minted.
pub open spec fn spec_genesis_block() -> BlockView {
    BlockView {
        index: 0,
        hash: Seq::empty(),
        nonce: Seq::empty(),
        previous_hash: Seq::empty(),
        timestamp: 0,
        transactions: Seq::empty(),
        validated_by: Seq::empty(),
        minted: 0,
    }
}

/// Copies a byte vector; the copy holds exactly the same bytes.
pub fn clone_bytes(v: &Vec<u8>) -> (r: Vec<u8>)
    ensures
        r@ == v@,
{
    let mut out: Vec<u8> = Vec::new();
    let mut i: usize = 0;
    while i < v.len()
        invariant
            i <= v.len(),
            out@ == v@.take(i as int),
        decreases v.len() - i,
    {
        out.push(v[i]);
        i = i + 1;
        proof {
            assert(out@ =~= v@.take(i as int));
        }
    }
    proof {
        assert(out@ =~= v@);
    }
    out
}

/// Copies a transaction list; the copy agrees with the original element by
/// element.
pub fn clone_transactions(v: &Vec<Transaction>) -> (r: Vec<Transaction>)
    ensures
        txs_view(r@) == txs_view(v@),
{
    let mut out: Vec<Transaction> = Vec::new();
    let mut i: usize = 0;
    while i < v.len()
        invariant
            i <= v.len(),
            out@.len() == i,
            txs_view(out@) == txs_view(v@.take(i as int)),
        decreases v.len() - i,
    {
        let c = v[i].clone();
        let ghost pre = out@;
        out.push(c);
        i = i + 1;
        proof {
            broadcast use lemma_txs_view;

            assert forall|j: int| 0 <= j < i implies txs_view(out@)[j] == txs_view(
                v@.take(i as int),
            )[j] by {
                assert(txs_view(out@)[j] == out@[j]@);
                assert(txs_view(v@.take(i as int))[j] == v@.take(i as int)[j]@);
                if j < i - 1 {
                    assert(out@[j] == pre[j]);
                    assert(txs_view(pre)[j] == pre[j]@);
                    assert(txs_view(v@.take(i - 1 as int))[j] == v@.take(i - 1 as int)[j]@);
                }
            }
            assert(txs_view(out@) =~= txs_view(v@.take(i as int)));
        }
    }
    proof {
        assert(v@.take(v@.len() as int) =~= v@);
    }
    out
}

impl Clone for Block {
    fn clone(&self) -> (r: Self)
        ensures
            r@ == self@,
    {
        let r = Block {
            index: self.index,
            hash: clone_bytes(&self.hash),
            nonce: self.nonce.clone(),
            previous_hash: clone_bytes(&self.previous_hash),
            timestamp: self.timestamp,
            transactions: clone_transactions(&self.transactions),
            validated_by: self.validated_by.clone(),
            minted: self.minted,
        };
        proof {
            assert(r@ =~= self@);
        }
        r
    }
}

impl Default for Block {
    /// Returns the genesis block.
    fn default() -> (r: Self)
        ensures
            r@ == spec_genesis_block(),
    {
        let r = Block {
            index: 0,
            hash: Vec::new(),
            nonce: String::new(),
            previous_hash: Vec::new(),
            timestamp: 0,
            transactions: Vec::new(),
            validated_by: String::new(),
            minted: 0,
        };
        proof {
            assert(r@ =~= spec_genesis_block());
        }
        r
    }
}

/// A tagged line-oriented logger; it holds only its tag and prints.
#[derive(Debug, Clone, PartialEq, Eq, Hash, PartialOrd, Ord)]
pub struct Logger {
    pub name: String,
}

impl Logger {
    /// Relies on std::io::stdout: prints one tagged line; there is no result
    /// to specify.
    #[verifier::external_body]
    pub fn log(&self, message: &str) {
        let line = format!("[{}] {}", self.name, message);
        let _ = writeln!(std::io::stdout(), "{}", line);
    }
}

/// The options the process is started with; parsed outside the library and
/// consumed once at startup.
#[derive(Debug)]
pub struct CLIConfiguration {
    pub port: u16,
    pub host: String,
    pub workdir: String,
    pub log: bool,
}

/// The shape a client submits to admit a transfer; the node adds the
/// timestamp itself.
pub struct TransactionClientPayload {
    pub sender: String,
    pub recipient: String,
    pub amount: u64,
}

/// The envelope returned after a successful seal.
pub struct NodeServerPayload {
    pub message: String,
    pub data: Block,
}

/// A candidate preimage whose digest is not the active challenge.
#[derive(Debug, Clone, Copy, PartialEq, Eq, Structural)]
pub struct RejectedError;

/// Bytes that are present but do not decode into a block.
#[derive(Debug, Clone, Copy, PartialEq, Eq, Structural)]
pub struct CorruptError;

/// Mathematical content of the runtime state.
#[verifier::ext_equal]
pub ghost struct RuntimeView {
    pub port: u16,
    pub host: Seq<char>,
    pub node_identifier: Seq<char>,
    pub workdir: Seq<char>,
    pub uncofirmed_transactions: Seq<TransactionView>,
    pub current_hash: Seq<u8>,
    pub last_block: BlockView,
    pub logger: Seq<char>,
    pub debug: bool,
}

/// The node's whole mutable state: the active challenge digest, the pending
/// transaction pool, and the most recently sealed block, plus the
/// configuration it was started with.
pub struct Runtime {
    pub port: u16,
    pub host: String,
    pub node_identifier: String,
    pub workdir: String,
    pub uncofirmed_transactions: Vec<Transaction>,
    pub current_hash: Vec<u8>,
    pub last_block: Block,
    pub logger: Logger,
    pub debug: bool,
}

impl View for Runtime {
    type V = RuntimeView;

    open spec fn view(&self) -> RuntimeView {
        RuntimeView {
            port: self.port,
            host: self.host@,
            node_identifier: self.node_identifier@,
            workdir: self.workdir@,
            uncofirmed_transactions: txs_view(self.uncofirmed_transactions@),
            current_hash: self.current_hash@,
            last_block: self.last_block@,
            logger: self.logger.name@,
            debug: self.debug,
        }
    }
}

} // verus!
