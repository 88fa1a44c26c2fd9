//! The runtime state machine: startup recovery, transaction admission, seal
//! validation with challenge rotation, and the read queries. All disk and
//! network work stays with the caller; the machine itself only decides.

use crate::hash::{next_problem_hash, spec_hex_of, spec_nonce_text, spec_sha256, sha256, to_hex};
use crate::models::{
    spec_genesis_block, txs_view, Block, BlockView, CLIConfiguration, Logger, RejectedError,
    Runtime, RuntimeView, Transaction, TransactionClientPayload, TransactionView, BLOCK_REWARD,
};
use crate::models::{clone_bytes, clone_transactions};
use vstd::prelude::*;

verus! {

/// Relies on std::time::SystemTime: seconds since the epoch now; nothing can
/// be promised of the clock's value.
#[verifier::external_body]
pub(crate) fn now_secs() -> u64 {
    match std::time::SystemTime::now().duration_since(std::time::UNIX_EPOCH) {
        Ok(d) => d.as_secs(),
        Err(_) => 0,
    }
}

/// The state after admitting one transfer at time `now`: the pool grows by
/// exactly that transaction and nothing else moves.
pub open spec fn spec_admitted(
    rt: RuntimeView,
    sender: Seq<char>,
    recipient: Seq<char>,
    amount: u64,
    now: u64,
) -> RuntimeView {
    RuntimeView {
        uncofirmed_transactions: rt.uncofirmed_transactions.push(
            TransactionView { sender, recipient, amount, timestamp: now },
        ),
        ..rt
    }
}

/// The block sealed from state `rt` at time `now`: the next index, the active
/// challenge as its hash, a link to the previous block, the whole pending
/// pool, and the fixed reward.
pub open spec fn spec_sealed_block(
    rt: RuntimeView,
    validated_by: Seq<char>,
    nonce: Seq<char>,
    now: u64,
) -> BlockView {
    BlockView {
        index: (rt.last_block.index + 1) as u64,
        hash: rt.current_hash,
        nonce: nonce,
        previous_hash: rt.last_block.hash,
        timestamp: now,
        transactions: rt.uncofirmed_transactions,
        validated_by: validated_by,
        minted: BLOCK_REWARD,
    }
}

/// The state after sealing block `b`: the pool is empty, `b` is the last
/// block, a fresh challenge is active, and the configuration stays.
pub open spec fn spec_sealed_state(rt: RuntimeView, b: BlockView, fresh: Seq<u8>) -> RuntimeView {
    RuntimeView { uncofirmed_transactions: Seq::empty(), current_hash: fresh, last_block: b, ..rt }
}

/// Admission only appends: after a transfer is admitted, the pending pool
/// holds the new transaction at its end, with the sender, recipient and
/// amount kept exactly and the admission time as its timestamp, and every
/// transaction that was pending before is still there, in its place.
pub proof fn lemma_admit_appends(
    rt: RuntimeView,
    sender: Seq<char>,
    recipient: Seq<char>,
    amount: u64,
    now: u64,
)
    ensures
        ({
            let pool = spec_admitted(rt, sender, recipient, amount, now).uncofirmed_transactions;
            &&& pool.len() == rt.uncofirmed_transactions.len() + 1
            &&& pool.last() == TransactionView { sender, recipient, amount, timestamp: now }
            &&& forall|i: int|
                0 <= i < rt.uncofirmed_transactions.len() ==> pool[i]
                    == rt.uncofirmed_transactions[i]
        }),
{
}

/// Two consecutive links of the chain: the later block carries the earlier
/// block's hash and the next index.
pub open spec fn chain_linked(prev: BlockView, next: BlockView) -> bool {
    &&& next.previous_hash == prev.hash
    &&& next.index == prev.index + 1
}

/// Sealing is monotonic: whatever is sealed on top of a state links to that
/// state's last block, with the index one higher.
pub proof fn lemma_sealed_block_links(
    rt: RuntimeView,
    validated_by: Seq<char>,
    nonce: Seq<char>,
    now: u64,
)
    requires
        rt.last_block.index < u64::MAX,
    ensures
        chain_linked(rt.last_block, spec_sealed_block(rt, validated_by, nonce, now)),
{
}

impl Runtime {
    /// The state is well formed when the active challenge is a whole digest.
    pub open spec fn wf(self) -> bool {
        self@.current_hash.len() == 32
    }

    /// Returns the active challenge digest; the secret nonce behind it is
    /// never exposed through any read interface.
    pub fn get_current_hash(&self) -> (r: &Vec<u8>)
        ensures
            r@ == self@.current_hash,
    {
        &self.current_hash
    }

    /// The lowercase hexadecimal text of the active challenge digest.
    pub fn current_hash_hex(&self) -> (r: String)
        ensures
            r@ == spec_hex_of(self@.current_hash),
    {
        to_hex(&self.current_hash)
    }

    /// The most recently sealed block; authoritative, from memory.
    pub fn latest_block(&self) -> (r: Block)
        ensures
            r@ == self@.last_block,
    {
        self.last_block.clone()
    }

    /// A read-only snapshot of the pending pool, in admission order.
    pub fn pending_transactions(&self) -> (r: Vec<Transaction>)
        ensures
            txs_view(r@) == self@.uncofirmed_transactions,
    {
        clone_transactions(&self.uncofirmed_transactions)
    }

    /// Admits a transfer into the pending pool, stamped with the given time.
    pub fn admit_transaction_at(&mut self, payload: TransactionClientPayload, now: u64)
        ensures
            final(self)@ == spec_admitted(
                old(self)@,
                payload.sender@,
                payload.recipient@,
                payload.amount,
                now,
            ),
    {
        let t = Transaction {
            sender: payload.sender,
            recipient: payload.recipient,
            amount: payload.amount,
            timestamp: now,
        };
        let ghost tv = t@;
        self.uncofirmed_transactions.push(t);
        proof {
            assert(self.uncofirmed_transactions@.drop_last() =~= old(
                self,
            ).uncofirmed_transactions@);
            assert(txs_view(self.uncofirmed_transactions@) == txs_view(
                old(self).uncofirmed_transactions@,
            ).push(tv));
            assert(self@ =~= spec_admitted(
                old(self)@,
                payload.sender@,
                payload.recipient@,
                payload.amount,
                now,
            ));
        }
    }

    /// Admits a transfer into the pending pool, stamped with the wall clock
    /// at admission time; the sender, recipient and amount are kept exactly.
    pub fn admit_transaction(&mut self, payload: TransactionClientPayload)
        ensures
            exists|now: u64|
                final(self)@ == spec_admitted(
                    old(self)@,
                    payload.sender@,
                    payload.recipient@,
                    payload.amount,
                    now,
                ),
    {
        let now = now_secs();
        self.admit_transaction_at(payload, now);
    }

    /// Seals the pending pool into the next block: the new block takes the
    /// active challenge digest as its hash and links to the previous block;
    /// the pool is cleared, a fresh challenge rotated in, and the block
    /// returned for the caller to persist.
    pub fn validate_current(&mut self, validated_by: String, nonce: String) -> (b: Block)
        requires
            old(self).last_block.index < u64::MAX,
        ensures
            b@ == spec_sealed_block(old(self)@, validated_by@, nonce@, b@.timestamp),
            final(self)@ == spec_sealed_state(old(self)@, b@, final(self)@.current_hash),
            final(self).wf(),
            exists|x: u64, y: u64|
                final(self)@.current_hash == spec_sha256(spec_nonce_text(x, y)),
    {
        let now = now_secs();
        let block = Block {
            index: self.last_block.index + 1,
            hash: clone_bytes(&self.current_hash),
            nonce,
            previous_hash: clone_bytes(&self.last_block.hash),
            timestamp: now,
            transactions: clone_transactions(&self.uncofirmed_transactions),
            validated_by,
            minted: BLOCK_REWARD,
        };
        self.current_hash = next_problem_hash(&self.logger, self.debug);
        self.uncofirmed_transactions = Vec::new();
        let out = block.clone();
        self.last_block = block;
        proof {
            assert(out@ =~= spec_sealed_block(old(self)@, out@.validated_by, out@.nonce, now));
            assert(self@ =~= spec_sealed_state(old(self)@, out@, self@.current_hash));
        }
        out
    }

    /// Accepts a candidate preimage: exactly when its digest is the active
    /// challenge, a block is sealed (the node records neither the winning
    /// preimage nor a validator) and returned for persistence, the pool is
    /// emptied and the challenge rotated; otherwise nothing changes.
    pub fn attempt_seal(&mut self, candidate_preimage: &Vec<u8>) -> (r: Result<
        Block,
        RejectedError,
    >)
        requires
            old(self).last_block.index < u64::MAX,
        ensures
            match r {
                Ok(b) => {
                    &&& spec_sha256(candidate_preimage@) == old(self)@.current_hash
                    &&& b@ == spec_sealed_block(
                        old(self)@,
                        Seq::<char>::empty(),
                        Seq::<char>::empty(),
                        b@.timestamp,
                    )
                    &&& final(self)@ == spec_sealed_state(old(self)@, b@, final(self)@.current_hash)
                    &&& final(self).wf()
                    &&& exists|x: u64, y: u64|
                        final(self)@.current_hash == spec_sha256(spec_nonce_text(x, y))
                },
                Err(_) => {
                    &&& spec_sha256(candidate_preimage@) != old(self)@.current_hash
                    &&& *final(self) == *old(self)
                },
            },
    {
        let digest = sha256(candidate_preimage);
        if bytes_eq(&digest, &self.current_hash) {
            let b = self.validate_current(String::new(), String::new());
            Ok(b)
        } else {
            Err(RejectedError)
        }
    }
}

/// Whether two byte vectors hold exactly the same bytes.
pub fn bytes_eq(a: &Vec<u8>, b: &Vec<u8>) -> (r: bool)
    ensures
        r == (a@ == b@),
{
    if a.len() != b.len() {
        proof {
            assert(a@ != b@);
        }
        return false;
    }
    let mut i: usize = 0;
    while i < a.len()
        invariant
            i <= a.len(),
            a@.len() == b@.len(),
            forall|j: int| 0 <= j < i ==> a@[j] == b@[j],
        decreases a.len() - i,
    {
        if a[i] != b[i] {
            proof {
                assert(a@ != b@);
            }
            return false;
        }
        i = i + 1;
    }
    proof {
        assert(a@ =~= b@);
    }
    true
}

/// Builds the runtime from the startup configuration and the block recovered
/// from the work directory: a recovered block resumes the chain where it was;
/// when none was found the genesis block starts it. The pool starts empty and
/// a fresh challenge is active from the first request on.
pub fn init(config: CLIConfiguration, recovered: Option<Block>) -> (rt: Runtime)
    ensures
        rt.wf(),
        rt@.port == config.port,
        rt@.host == config.host@,
        rt@.workdir == config.workdir@,
        rt@.debug == config.log,
        rt@.node_identifier == "0x0"@,
        rt@.uncofirmed_transactions == Seq::<TransactionView>::empty(),
        match recovered {
            Some(b) => rt@.last_block == b@,
            None => rt@.last_block == spec_genesis_block(),
        },
        exists|x: u64, y: u64| rt@.current_hash == spec_sha256(spec_nonce_text(x, y)),
{
    let logger = Logger { name: String::from_str("NODE") };
    let debug = config.log;
    let current_hash = next_problem_hash(&logger, debug);
    let last_block = match recovered {
        Some(b) => b,
        None => Block::default(),
    };
    Runtime {
        port: config.port,
        host: config.host,
        node_identifier: String::from_str("0x0"),
        workdir: config.workdir,
        uncofirmed_transactions: Vec::new(),
        current_hash,
        last_block,
        logger,
        debug,
    }
}

} // verus!
