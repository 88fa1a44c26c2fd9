//! The on-disk document of a block: a compact binary form with every numeric
//! field in eight little-endian bytes and every byte or text field prefixed
//! by its length. Decoding accepts exactly the documents that encoding
//! writes, and a decoded block agrees with the encoded one in every field.

use crate::models::{
    lemma_txs_view, txs_view, Block, BlockView, CorruptError, Transaction, TransactionView,
};
use vstd::bytes::{
    lemma_auto_spec_u64_to_from_le_bytes, spec_u64_from_le_bytes, spec_u64_to_le_bytes,
    u64_from_le_bytes, u64_to_le_bytes,
};
use vstd::prelude::*;
use vstd::slice::{slice_subrange, slice_to_vec};
use vstd::utf8::{decode_utf8, encode_utf8, encode_utf8_decode_utf8, encode_utf8_valid_utf8, valid_utf8};
use vstd::string::StrSliceExecFns;

verus! {

/// Relies on String::from_utf8: it succeeds exactly on valid UTF-8 and
/// returns the text those bytes encode.
#[verifier::external_body]
fn string_from_utf8(bytes: Vec<u8>) -> (r: Option<String>)
    ensures
        match r {
            Some(s) => encode_utf8(s@) == bytes@ && valid_utf8(bytes@),
            None => !valid_utf8(bytes@),
        },
{
    match String::from_utf8(bytes) {
        Ok(s) => Some(s),
        Err(_) => None,
    }
}

// ------------------------------------------------------------------
// What the document is, field for field.
// ------------------------------------------------------------------

/// A number: eight little-endian bytes.
pub open spec fn spec_enc_u64(x: u64) -> Seq<u8> {
    spec_u64_to_le_bytes(x)
}

/// A byte field: its length, then its bytes.
pub open spec fn spec_enc_bytes(s: Seq<u8>) -> Seq<u8> {
    spec_enc_u64(s.len() as u64) + s
}

/// A text field: the UTF-8 bytes of the text, as a byte field.
pub open spec fn spec_enc_chars(s: Seq<char>) -> Seq<u8> {
    spec_enc_bytes(encode_utf8(s))
}

/// One transaction: sender, recipient, amount, timestamp.
pub open spec fn spec_enc_tx(t: TransactionView) -> Seq<u8> {
    spec_enc_chars(t.sender) + spec_enc_chars(t.recipient) + spec_enc_u64(t.amount)
        + spec_enc_u64(t.timestamp)
}

/// A transaction list, in order.
pub open spec fn spec_enc_txs(ts: Seq<TransactionView>) -> Seq<u8>
    decreases ts.len(),
{
    if ts.len() == 0 {
        Seq::empty()
    } else {
        spec_enc_tx(ts[0]) + spec_enc_txs(ts.skip(1))
    }
}

/// A whole block: every field in order, the transaction list prefixed by its
/// count.
pub open spec fn spec_enc_block(b: BlockView) -> Seq<u8> {
    spec_enc_u64(b.index) + spec_enc_bytes(b.hash) + spec_enc_chars(b.nonce) + spec_enc_bytes(
        b.previous_hash,
    ) + spec_enc_u64(b.timestamp) + spec_enc_u64(b.transactions.len() as u64) + spec_enc_txs(
        b.transactions,
    ) + spec_enc_chars(b.validated_by) + spec_enc_u64(b.minted)
}

/// A transaction whose text fields fit the length prefixes.
pub open spec fn tx_encodable(t: TransactionView) -> bool {
    &&& encode_utf8(t.sender).len() <= u64::MAX
    &&& encode_utf8(t.recipient).len() <= u64::MAX
}

/// A block whose fields fit the length prefixes; every block held in memory
/// does.
pub open spec fn block_encodable(b: BlockView) -> bool {
    &&& b.hash.len() <= u64::MAX
    &&& b.previous_hash.len() <= u64::MAX
    &&& encode_utf8(b.nonce).len() <= u64::MAX
    &&& encode_utf8(b.validated_by).len() <= u64::MAX
    &&& b.transactions.len() <= u64::MAX
    &&& forall|i: int| 0 <= i < b.transactions.len() ==> tx_encodable(#[trigger] b.transactions[i])
}

// ------------------------------------------------------------------
// What decoding yields, field for field: the value and the remainder.
// ------------------------------------------------------------------

/// Reads a number.
pub open spec fn spec_dec_u64(s: Seq<u8>) -> Option<(u64, Seq<u8>)> {
    if s.len() >= 8 {
        Some((spec_u64_from_le_bytes(s.take(8)), s.skip(8)))
    } else {
        None
    }
}

/// Reads a byte field.
pub open spec fn spec_dec_bytes(s: Seq<u8>) -> Option<(Seq<u8>, Seq<u8>)> {
    match spec_dec_u64(s) {
        None => None,
        Some((n, r)) => if n <= r.len() {
            Some((r.take(n as int), r.skip(n as int)))
        } else {
            None
        },
    }
}

/// Reads a text field.
pub open spec fn spec_dec_chars(s: Seq<u8>) -> Option<(Seq<char>, Seq<u8>)> {
    match spec_dec_bytes(s) {
        None => None,
        Some((b, r)) => if valid_utf8(b) {
            Some((decode_utf8(b), r))
        } else {
            None
        },
    }
}

/// Reads one transaction.
pub open spec fn spec_dec_tx(s: Seq<u8>) -> Option<(TransactionView, Seq<u8>)> {
    match spec_dec_chars(s) {
        None => None,
        Some((sender, s1)) => match spec_dec_chars(s1) {
            None => None,
            Some((recipient, s2)) => match spec_dec_u64(s2) {
                None => None,
                Some((amount, s3)) => match spec_dec_u64(s3) {
                    None => None,
                    Some((timestamp, s4)) => Some(
                        (TransactionView { sender, recipient, amount, timestamp }, s4),
                    ),
                },
            },
        },
    }
}

/// Reads `n` transactions, in order.
pub open spec fn spec_dec_txs(n: int, s: Seq<u8>) -> Option<(Seq<TransactionView>, Seq<u8>)>
    decreases n,
{
    if n <= 0 {
        Some((Seq::empty(), s))
    } else {
        match spec_dec_tx(s) {
            None => None,
            Some((t, r)) => match spec_dec_txs(n - 1, r) {
                None => None,
                Some((ts, r2)) => Some((seq![t] + ts, r2)),
            },
        }
    }
}

/// Reads a whole block; the document must hold nothing more.
pub open spec fn spec_dec_block(s: Seq<u8>) -> Option<BlockView> {
    match spec_dec_u64(s) {
        None => None,
        Some((index, s1)) => match spec_dec_bytes(s1) {
            None => None,
            Some((hash, s2)) => match spec_dec_chars(s2) {
                None => None,
                Some((nonce, s3)) => match spec_dec_bytes(s3) {
                    None => None,
                    Some((previous_hash, s4)) => match spec_dec_u64(s4) {
                        None => None,
                        Some((timestamp, s5)) => match spec_dec_u64(s5) {
                            None => None,
                            Some((count, s6)) => match spec_dec_txs(count as int, s6) {
                                None => None,
                                Some((transactions, s7)) => match spec_dec_chars(s7) {
                                    None => None,
                                    Some((validated_by, s8)) => match spec_dec_u64(s8) {
                                        None => None,
                                        Some((minted, s9)) => if s9.len() == 0 {
                                            Some(
                                                BlockView {
                                                    index,
                                                    hash,
                                                    nonce,
                                                    previous_hash,
                                                    timestamp,
                                                    transactions,
                                                    validated_by,
                                                    minted,
                                                },
                                            )
                                        } else {
                                            None
                                        },
                                    },
                                },
                            },
                        },
                    },
                },
            },
        },
    }
}

// ------------------------------------------------------------------
// Decoding undoes encoding.
// ------------------------------------------------------------------

/// Reading a number back.
pub proof fn lemma_dec_u64_enc(x: u64, rest: Seq<u8>)
    ensures
        spec_dec_u64(spec_enc_u64(x) + rest) == Some((x, rest)),
{
    lemma_auto_spec_u64_to_from_le_bytes();
    assert((spec_enc_u64(x) + rest).take(8) =~= spec_enc_u64(x));
    assert((spec_enc_u64(x) + rest).skip(8) =~= rest);
}

/// Reading a byte field back.
pub proof fn lemma_dec_bytes_enc(s: Seq<u8>, rest: Seq<u8>)
    requires
        s.len() <= u64::MAX,
    ensures
        spec_dec_bytes(spec_enc_bytes(s) + rest) == Some((s, rest)),
{
    assert(spec_enc_bytes(s) + rest =~= spec_enc_u64(s.len() as u64) + (s + rest));
    lemma_dec_u64_enc(s.len() as u64, s + rest);
    assert((s + rest).take(s.len() as int) =~= s);
    assert((s + rest).skip(s.len() as int) =~= rest);
}

/// Reading a text field back.
pub proof fn lemma_dec_chars_enc(c: Seq<char>, rest: Seq<u8>)
    requires
        encode_utf8(c).len() <= u64::MAX,
    ensures
        spec_dec_chars(spec_enc_chars(c) + rest) == Some((c, rest)),
{
    broadcast use encode_utf8_valid_utf8, encode_utf8_decode_utf8;

    lemma_dec_bytes_enc(encode_utf8(c), rest);
}

/// Reading a transaction back.
pub proof fn lemma_dec_tx_enc(t: TransactionView, rest: Seq<u8>)
    requires
        tx_encodable(t),
    ensures
        spec_dec_tx(spec_enc_tx(t) + rest) == Some((t, rest)),
{
    let tail3 = spec_enc_u64(t.timestamp) + rest;
    let tail2 = spec_enc_u64(t.amount) + tail3;
    let tail1 = spec_enc_chars(t.recipient) + tail2;
    assert(spec_enc_tx(t) + rest =~= spec_enc_chars(t.sender) + tail1);
    lemma_dec_chars_enc(t.sender, tail1);
    lemma_dec_chars_enc(t.recipient, tail2);
    lemma_dec_u64_enc(t.amount, tail3);
    lemma_dec_u64_enc(t.timestamp, rest);
}

/// Reading a transaction list back.
pub proof fn lemma_dec_txs_enc(ts: Seq<TransactionView>, rest: Seq<u8>)
    requires
        forall|i: int| 0 <= i < ts.len() ==> tx_encodable(#[trigger] ts[i]),
    ensures
        spec_dec_txs(ts.len() as int, spec_enc_txs(ts) + rest) == Some((ts, rest)),
    decreases ts.len(),
{
    if ts.len() == 0 {
        assert(spec_enc_txs(ts) + rest =~= rest);
        assert(ts =~= Seq::<TransactionView>::empty());
    } else {
        let tail = spec_enc_txs(ts.skip(1)) + rest;
        assert(spec_enc_txs(ts) + rest =~= spec_enc_tx(ts[0]) + tail);
        lemma_dec_tx_enc(ts[0], tail);
        assert(forall|i: int|
            0 <= i < ts.skip(1).len() ==> tx_encodable(#[trigger] ts.skip(1)[i]));
        lemma_dec_txs_enc(ts.skip(1), rest);
        assert(seq![ts[0]] + ts.skip(1) =~= ts);
    }
}

/// Decoding a block's document yields that block, field for field.
pub proof fn lemma_block_round_trip(b: BlockView)
    requires
        block_encodable(b),
    ensures
        spec_dec_block(spec_enc_block(b)) == Some(b),
{
    let tail7 = spec_enc_u64(b.minted);
    let tail6 = spec_enc_chars(b.validated_by) + tail7;
    let tail5 = spec_enc_txs(b.transactions) + tail6;
    let tail4 = spec_enc_u64(b.transactions.len() as u64) + tail5;
    let tail3 = spec_enc_u64(b.timestamp) + tail4;
    let tail2 = spec_enc_bytes(b.previous_hash) + tail3;
    let tail1 = spec_enc_chars(b.nonce) + tail2;
    let tail0 = spec_enc_bytes(b.hash) + tail1;
    assert(spec_enc_block(b) =~= spec_enc_u64(b.index) + tail0);
    lemma_dec_u64_enc(b.index, tail0);
    lemma_dec_bytes_enc(b.hash, tail1);
    lemma_dec_chars_enc(b.nonce, tail2);
    lemma_dec_bytes_enc(b.previous_hash, tail3);
    lemma_dec_u64_enc(b.timestamp, tail4);
    lemma_dec_u64_enc(b.transactions.len() as u64, tail5);
    lemma_dec_txs_enc(b.transactions, tail6);
    lemma_dec_chars_enc(b.validated_by, tail7);
    lemma_dec_u64_enc(b.minted, Seq::empty());
    assert(spec_enc_u64(b.minted) + Seq::<u8>::empty() =~= spec_enc_u64(b.minted));
}

// ------------------------------------------------------------------
// The executable encoder.
// ------------------------------------------------------------------

/// Appends a number.
fn enc_u64_into(out: &mut Vec<u8>, x: u64)
    ensures
        final(out)@ == old(out)@ + spec_enc_u64(x),
{
    let mut bytes = u64_to_le_bytes(x);
    out.append(&mut bytes);
}

/// Appends a byte field.
fn enc_bytes_into(out: &mut Vec<u8>, v: &Vec<u8>)
    ensures
        final(out)@ == old(out)@ + spec_enc_bytes(v@),
        v@.len() <= u64::MAX,
{
    let n = v.len();
    enc_u64_into(out, n as u64);
    let mut bytes = crate::models::clone_bytes(v);
    out.append(&mut bytes);
    proof {
        assert(out@ =~= old(out)@ + spec_enc_bytes(v@));
    }
}

/// Appends a text field.
fn enc_chars_into(out: &mut Vec<u8>, s: &String)
    ensures
        final(out)@ == old(out)@ + spec_enc_chars(s@),
        encode_utf8(s@).len() <= u64::MAX,
{
    let bytes = s.as_str().as_bytes_vec();
    let n = bytes.len();
    enc_u64_into(out, n as u64);
    let mut tail = bytes;
    out.append(&mut tail);
    proof {
        assert(out@ =~= old(out)@ + spec_enc_chars(s@));
    }
}

/// Appends one transaction.
fn enc_tx_into(out: &mut Vec<u8>, t: &Transaction)
    ensures
        final(out)@ == old(out)@ + spec_enc_tx(t@),
        tx_encodable(t@),
{
    enc_chars_into(out, &t.sender);
    enc_chars_into(out, &t.recipient);
    enc_u64_into(out, t.amount);
    enc_u64_into(out, t.timestamp);
    proof {
        assert(out@ =~= old(out)@ + spec_enc_tx(t@));
    }
}

/// Writes the document of a block.
pub fn encode_block(b: &Block) -> (r: Vec<u8>)
    ensures
        r@ == spec_enc_block(b@),
        block_encodable(b@),
{
    let mut out: Vec<u8> = Vec::new();
    enc_u64_into(&mut out, b.index);
    enc_bytes_into(&mut out, &b.hash);
    enc_chars_into(&mut out, &b.nonce);
    enc_bytes_into(&mut out, &b.previous_hash);
    enc_u64_into(&mut out, b.timestamp);
    let count = b.transactions.len();
    enc_u64_into(&mut out, count as u64);
    let ghost pre = out@;
    let mut i: usize = 0;
    while i < b.transactions.len()
        invariant
            i <= b.transactions.len(),
            out@ == pre + spec_enc_txs(txs_view(b.transactions@).take(i as int)),
            forall|j: int|
                0 <= j < i ==> tx_encodable(#[trigger] txs_view(b.transactions@)[j]),
        decreases b.transactions.len() - i,
    {
        enc_tx_into(&mut out, &b.transactions[i]);
        i = i + 1;
        proof {
            broadcast use lemma_txs_view;

            lemma_enc_txs_take_step(txs_view(b.transactions@), i as int);
        }
    }
    proof {
        broadcast use lemma_txs_view;

        assert(txs_view(b.transactions@).take(txs_view(b.transactions@).len() as int) =~= txs_view(
            b.transactions@,
        ));
    }
    enc_chars_into(&mut out, &b.validated_by);
    enc_u64_into(&mut out, b.minted);
    proof {
        broadcast use lemma_txs_view;

        assert(out@ =~= spec_enc_block(b@));
        assert(b@.transactions.len() == b.transactions@.len());
        assert(b@.transactions.len() <= u64::MAX);
        assert(forall|j: int|
            0 <= j < b@.transactions.len() ==> tx_encodable(#[trigger] b@.transactions[j]));
    }
    out
}

/// One more transaction extends the list's document at its end.
proof fn lemma_enc_txs_take_step(ts: Seq<TransactionView>, i: int)
    requires
        0 < i <= ts.len(),
    ensures
        spec_enc_txs(ts.take(i)) == spec_enc_txs(ts.take(i - 1)) + spec_enc_tx(ts[i - 1]),
    decreases i,
{
    lemma_enc_txs_snoc(ts.take(i - 1), ts[i - 1]);
    assert(ts.take(i - 1).push(ts[i - 1]) =~= ts.take(i));
}

/// The document of a list with one more transaction at the end.
proof fn lemma_enc_txs_snoc(ts: Seq<TransactionView>, t: TransactionView)
    ensures
        spec_enc_txs(ts.push(t)) == spec_enc_txs(ts) + spec_enc_tx(t),
    decreases ts.len(),
{
    if ts.len() == 0 {
        assert(ts.push(t)[0] == t);
        assert(ts.push(t).skip(1) =~= Seq::<TransactionView>::empty());
        assert(spec_enc_txs(ts.push(t).skip(1)) == Seq::<u8>::empty());
        assert(spec_enc_tx(t) + Seq::<u8>::empty() =~= spec_enc_tx(t));
        assert(spec_enc_txs(ts) == Seq::<u8>::empty());
        assert(spec_enc_txs(ts) + spec_enc_tx(t) =~= spec_enc_tx(t));
    } else {
        assert(ts.push(t).skip(1) =~= ts.skip(1).push(t));
        lemma_enc_txs_snoc(ts.skip(1), t);
        assert(ts.push(t)[0] == ts[0]);
        assert(spec_enc_tx(ts[0]) + (spec_enc_txs(ts.skip(1)) + spec_enc_tx(t)) =~= (spec_enc_tx(
            ts[0],
        ) + spec_enc_txs(ts.skip(1))) + spec_enc_tx(t));
    }
}

// ------------------------------------------------------------------
// The executable decoder: a cursor over the document.
// ------------------------------------------------------------------

/// Reads a number at `pos`.
fn dec_u64(data: &[u8], pos: usize) -> (r: Option<(u64, usize)>)
    requires
        pos <= data@.len(),
    ensures
        match r {
            Some((x, p2)) => {
                &&& pos <= p2 <= data@.len()
                &&& spec_dec_u64(data@.skip(pos as int)) == Some((x, data@.skip(p2 as int)))
            },
            None => spec_dec_u64(data@.skip(pos as int)) is None,
        },
{
    if data.len() - pos < 8 {
        return None;
    }
    let piece = slice_subrange(data, pos, pos + 8);
    let x = u64_from_le_bytes(piece);
    proof {
        assert(data@.skip(pos as int).take(8) =~= piece@);
        assert(data@.skip(pos as int).skip(8) =~= data@.skip(pos as int + 8));
    }
    Some((x, pos + 8))
}

/// Reads a byte field at `pos`.
fn dec_bytes(data: &[u8], pos: usize) -> (r: Option<(Vec<u8>, usize)>)
    requires
        pos <= data@.len(),
    ensures
        match r {
            Some((v, p2)) => {
                &&& pos <= p2 <= data@.len()
                &&& spec_dec_bytes(data@.skip(pos as int)) == Some((v@, data@.skip(p2 as int)))
            },
            None => spec_dec_bytes(data@.skip(pos as int)) is None,
        },
{
    match dec_u64(data, pos) {
        None => None,
        Some((n, p1)) => {
            if n > (data.len() - p1) as u64 {
                proof {
                    assert(data@.skip(p1 as int).len() == data@.len() - p1);
                }
                return None;
            }
            let len = n as usize;
            let piece = slice_subrange(data, p1, p1 + len);
            let v = slice_to_vec(piece);
            proof {
                assert(data@.skip(p1 as int).take(n as int) =~= v@);
                assert(data@.skip(p1 as int).skip(n as int) =~= data@.skip(p1 as int + n));
            }
            Some((v, p1 + len))
        },
    }
}

/// Reads a text field at `pos`.
fn dec_chars(data: &[u8], pos: usize) -> (r: Option<(String, usize)>)
    requires
        pos <= data@.len(),
    ensures
        match r {
            Some((s, p2)) => {
                &&& pos <= p2 <= data@.len()
                &&& spec_dec_chars(data@.skip(pos as int)) == Some((s@, data@.skip(p2 as int)))
            },
            None => spec_dec_chars(data@.skip(pos as int)) is None,
        },
{
    match dec_bytes(data, pos) {
        None => None,
        Some((v, p2)) => {
            let ghost bytes = v@;
            match string_from_utf8(v) {
                None => None,
                Some(s) => {
                    proof {
                        broadcast use encode_utf8_decode_utf8;

                        assert(decode_utf8(bytes) == s@);
                    }
                    Some((s, p2))
                },
            }
        },
    }
}

/// Reads one transaction at `pos`.
fn dec_tx(data: &[u8], pos: usize) -> (r: Option<(Transaction, usize)>)
    requires
        pos <= data@.len(),
    ensures
        match r {
            Some((t, p2)) => {
                &&& pos <= p2 <= data@.len()
                &&& spec_dec_tx(data@.skip(pos as int)) == Some((t@, data@.skip(p2 as int)))
            },
            None => spec_dec_tx(data@.skip(pos as int)) is None,
        },
{
    let (sender, p1) = match dec_chars(data, pos) {
        None => {
            return None;
        },
        Some(x) => x,
    };
    let (recipient, p2) = match dec_chars(data, p1) {
        None => {
            return None;
        },
        Some(x) => x,
    };
    let (amount, p3) = match dec_u64(data, p2) {
        None => {
            return None;
        },
        Some(x) => x,
    };
    let (timestamp, p4) = match dec_u64(data, p3) {
        None => {
            return None;
        },
        Some(x) => x,
    };
    Some((Transaction { sender, recipient, amount, timestamp }, p4))
}

/// Prefixes every outcome of a transaction-list read with what was already
/// read.
pub open spec fn spec_txs_prepend(
    pre: Seq<TransactionView>,
    o: Option<(Seq<TransactionView>, Seq<u8>)>,
) -> Option<(Seq<TransactionView>, Seq<u8>)> {
    match o {
        None => None,
        Some((ts, r)) => Some((pre + ts, r)),
    }
}

/// Reads `n` transactions at `pos`.
fn dec_txs(data: &[u8], pos: usize, n: u64) -> (r: Option<(Vec<Transaction>, usize)>)
    requires
        pos <= data@.len(),
    ensures
        match r {
            Some((v, p2)) => {
                &&& pos <= p2 <= data@.len()
                &&& spec_dec_txs(n as int, data@.skip(pos as int)) == Some(
                    (txs_view(v@), data@.skip(p2 as int)),
                )
            },
            None => spec_dec_txs(n as int, data@.skip(pos as int)) is None,
        },
{
    let mut acc: Vec<Transaction> = Vec::new();
    let mut p: usize = pos;
    let mut k: u64 = 0;
    proof {
        broadcast use lemma_txs_view;

        assert(txs_view(acc@) =~= Seq::<TransactionView>::empty());
        assert(spec_txs_prepend(
            txs_view(acc@),
            spec_dec_txs(n as int, data@.skip(pos as int)),
        ) == spec_dec_txs(n as int, data@.skip(pos as int)));
    }
    while k < n
        invariant
            pos <= p <= data@.len(),
            0 <= k <= n,
            spec_dec_txs(n as int, data@.skip(pos as int)) == spec_txs_prepend(
                txs_view(acc@),
                spec_dec_txs(n - k, data@.skip(p as int)),
            ),
        decreases n - k,
    {
        let (t, p2) = match dec_tx(data, p) {
            None => {
                return None;
            },
            Some(x) => x,
        };
        let ghost pre = txs_view(acc@);
        let ghost tv = t@;
        acc.push(t);
        proof {
            broadcast use lemma_txs_view;

            assert(acc@.drop_last() =~= acc@.take(acc@.len() - 1));
            assert(txs_view(acc@) =~= pre.push(tv));
            let inner = spec_dec_txs(n - k - 1, data@.skip(p2 as int));
            if inner is Some {
                let (ts, rr) = inner.unwrap();
                assert(pre + (seq![tv] + ts) =~= pre.push(tv) + ts);
            }
        }
        p = p2;
        k = k + 1;
    }
    proof {
        broadcast use lemma_txs_view;

        assert(txs_view(acc@) + Seq::<TransactionView>::empty() =~= txs_view(acc@));
    }
    Some((acc, p))
}

/// Reads a block's document; fails on anything encoding would not write.
pub fn decode_block(data: &Vec<u8>) -> (r: Result<Block, CorruptError>)
    ensures
        match r {
            Ok(b) => spec_dec_block(data@) == Some(b@),
            Err(_) => spec_dec_block(data@) is None,
        },
{
    proof {
        assert(data@.skip(0) =~= data@);
    }
    let s = data.as_slice();
    let (index, p1) = match dec_u64(s, 0) {
        None => {
            return Err(CorruptError);
        },
        Some(x) => x,
    };
    let (hash, p2) = match dec_bytes(s, p1) {
        None => {
            return Err(CorruptError);
        },
        Some(x) => x,
    };
    let (nonce, p3) = match dec_chars(s, p2) {
        None => {
            return Err(CorruptError);
        },
        Some(x) => x,
    };
    let (previous_hash, p4) = match dec_bytes(s, p3) {
        None => {
            return Err(CorruptError);
        },
        Some(x) => x,
    };
    let (timestamp, p5) = match dec_u64(s, p4) {
        None => {
            return Err(CorruptError);
        },
        Some(x) => x,
    };
    let (count, p6) = match dec_u64(s, p5) {
        None => {
            return Err(CorruptError);
        },
        Some(x) => x,
    };
    let (transactions, p7) = match dec_txs(s, p6, count) {
        None => {
            return Err(CorruptError);
        },
        Some(x) => x,
    };
    let (validated_by, p8) = match dec_chars(s, p7) {
        None => {
            return Err(CorruptError);
        },
        Some(x) => x,
    };
    let (minted, p9) = match dec_u64(s, p8) {
        None => {
            return Err(CorruptError);
        },
        Some(x) => x,
    };
    if p9 != data.len() {
        return Err(CorruptError);
    }
    let b = Block { index, hash, nonce, previous_hash, timestamp, transactions, validated_by, minted };
    proof {
        assert(data@.skip(p9 as int).len() == 0);
        assert(spec_dec_block(data@) == Some(b@));
    }
    Ok(b)
}

} // verus!
