//! The HTTP gateway's decisions: the body-size ceiling, route dispatch by
//! method and path, the block-lookup query, and the preimage trim. The caller
//! does the transport work and hands plain values in and out.

use crate::digits::{parse_u64, spec_parse_u64};
use crate::hash::spec_sha256;
use crate::models::{NodeServerPayload, RejectedError, Runtime, TransactionClientPayload};
use crate::runtime::{spec_admitted, spec_sealed_block, spec_sealed_state};
use vstd::prelude::*;

verus! {

/// Request bodies declared longer than this many bytes are turned away
/// before any routing or parsing.
pub const MAX_BODY_BYTES: usize = 1000;

/// The request methods the gateway distinguishes.
#[derive(Debug, Clone, Copy, PartialEq, Eq, Structural)]
pub enum HttpMethod {
    Get,
    Post,
    Other,
}

/// A failed block lookup query.
#[derive(Debug, Clone, Copy, PartialEq, Eq, Structural)]
pub enum QueryFault {
    NoQuery,
    IdNotProvided,
    IdNotANumber,
}

impl QueryFault {
    /// The response body reported for this fault.
    pub open spec fn spec_message(self) -> Seq<char> {
        match self {
            QueryFault::NoQuery => "not query provided"@,
            QueryFault::IdNotProvided => "id is not provided"@,
            QueryFault::IdNotANumber => "id is not a number"@,
        }
    }

    /// The response body reported for this fault.
    pub fn message(&self) -> (r: String)
        ensures
            r@ == self.spec_message(),
    {
        match self {
            QueryFault::NoQuery => String::from_str("not query provided"),
            QueryFault::IdNotProvided => String::from_str("id is not provided"),
            QueryFault::IdNotANumber => String::from_str("id is not a number"),
        }
    }
}

/// Where the gateway sends a request.
#[derive(Debug, Clone, Copy, PartialEq, Eq, Structural)]
pub enum Route {
    Oversize,
    Hash,
    Validate,
    Send,
    GetBlock(u64),
    BadBlockQuery(QueryFault),
    LastBlock,
    UnconfirmedTransactions,
    NotFound,
}

/// The first position of `c` in `s` at or after `from`.
pub open spec fn spec_find(s: Seq<char>, c: char, from: int) -> Option<int>
    decreases s.len() - from,
{
    if from < 0 || from >= s.len() {
        None
    } else if s[from] == c {
        Some(from)
    } else {
        spec_find(s, c, from + 1)
    }
}

/// Finds the first `c` in `s` at or after `from`.
pub fn find_char(s: &str, c: char, from: usize) -> (r: Option<usize>)
    ensures
        match r {
            Some(i) => {
                &&& spec_find(s@, c, from as int) == Some(i as int)
                &&& from <= i < s@.len()
                &&& s@[i as int] == c
            },
            None => spec_find(s@, c, from as int) is None,
        },
{
    let len = s.unicode_len();
    if from >= len {
        return None;
    }
    let mut k: usize = from;
    while k < len
        invariant
            from <= k <= len,
            len == s@.len(),
            spec_find(s@, c, from as int) == spec_find(s@, c, k as int),
        decreases len - k,
    {
        if s.get_char(k) == c {
            return Some(k);
        }
        k = k + 1;
    }
    None
}

/// Whether two pieces of text hold the same characters.
pub fn str_eq(a: &str, b: &str) -> (r: bool)
    ensures
        r == (a@ == b@),
{
    let x = String::from_str(a);
    let y = String::from_str(b);
    x == y
}

/// The path part of a request target: everything before the first question
/// mark, or the whole target when there is none.
pub open spec fn spec_path(url: Seq<char>) -> Seq<char> {
    match spec_find(url, '?', 0) {
        None => url,
        Some(i) => url.take(i),
    }
}

/// The query part of a request target: the text between the first question
/// mark and the next one or the end; a target without a question mark has
/// none.
pub open spec fn spec_query(url: Seq<char>) -> Option<Seq<char>> {
    match spec_find(url, '?', 0) {
        None => None,
        Some(i) => match spec_find(url, '?', i + 1) {
            None => Some(url.skip(i + 1)),
            Some(j) => Some(url.subrange(i + 1, j)),
        },
    }
}

/// The value a key-value part gives for the key `id`: the text between the
/// part's first equals sign and its next one or its end; parts without an
/// equals sign, and other keys, give nothing.
pub open spec fn spec_part_id_value(part: Seq<char>) -> Option<Seq<char>> {
    match spec_find(part, '=', 0) {
        None => None,
        Some(i) => if part.take(i) == "id"@ {
            match spec_find(part, '=', i + 1) {
                None => Some(part.skip(i + 1)),
                Some(j) => Some(part.subrange(i + 1, j)),
            }
        } else {
            None
        },
    }
}

/// The value of the first `id` key among the ampersand-separated parts of a
/// query, when one is there.
pub open spec fn spec_id_value(q: Seq<char>) -> Option<Seq<char>>
    decreases q.len(),
{
    match spec_find(q, '&', 0) {
        None => spec_part_id_value(q),
        Some(i) => {
            let v = spec_part_id_value(q.take(i));
            if v is Some {
                v
            } else if 0 <= i < q.len() {
                spec_id_value(q.skip(i + 1))
            } else {
                None
            }
        },
    }
}

/// What a block lookup query yields: the parsed id, or the fault reported
/// for a query without a usable id.
pub open spec fn spec_block_query(q: Seq<char>) -> Route {
    match spec_id_value(q) {
        None => Route::BadBlockQuery(QueryFault::IdNotProvided),
        Some(v) => if v.len() == 0 {
            Route::BadBlockQuery(QueryFault::IdNotProvided)
        } else {
            match spec_parse_u64(v) {
                Some(n) => Route::GetBlock(n),
                None => Route::BadBlockQuery(QueryFault::IdNotANumber),
            }
        },
    }
}

/// Where a request goes: a declared body length over the ceiling is turned
/// away before anything else; otherwise the method and the path pick the
/// route, and a block lookup carries its parsed query.
pub open spec fn spec_classify(m: HttpMethod, url: Seq<char>, body_length: Option<usize>) -> Route {
    if body_length is Some && body_length.unwrap() > MAX_BODY_BYTES {
        Route::Oversize
    } else {
        let path = spec_path(url);
        if m == HttpMethod::Get && path == "/hash"@ {
            Route::Hash
        } else if m == HttpMethod::Post && path == "/validate"@ {
            Route::Validate
        } else if m == HttpMethod::Post && path == "/send"@ {
            Route::Send
        } else if m == HttpMethod::Get && path == "/get/block"@ {
            match spec_query(url) {
                None => Route::BadBlockQuery(QueryFault::NoQuery),
                Some(q) => spec_block_query(q),
            }
        } else if m == HttpMethod::Get && path == "/get/lastblock"@ {
            Route::LastBlock
        } else if m == HttpMethod::Get && path == "/get/unconfirmedtransactions"@ {
            Route::UnconfirmedTransactions
        } else {
            Route::NotFound
        }
    }
}

/// The `id` value of a query, as text.
fn id_value<'a>(q: &'a str) -> (r: Option<&'a str>)
    ensures
        match r {
            Some(v) => spec_id_value(q@) == Some(v@),
            None => spec_id_value(q@) is None,
        },
    decreases q@.len(),
{
    let len = q.unicode_len();
    let amp = find_char(q, '&', 0);
    let part = match amp {
        Some(i) => q.substring_char(0, i),
        None => q,
    };
    proof {
        if amp is Some {
            assert(part@ =~= q@.take(amp.unwrap() as int));
        }
    }
    let pv = part_id_value(part);
    match pv {
        Some(v) => Some(v),
        None => match amp {
            Some(i) => {
                let rest = q.substring_char(i + 1, len);
                proof {
                    assert(rest@ =~= q@.skip(i + 1));
                }
                id_value(rest)
            },
            None => None,
        },
    }
}

/// The value a key-value part gives for the key `id`.
fn part_id_value<'a>(part: &'a str) -> (r: Option<&'a str>)
    ensures
        match r {
            Some(v) => spec_part_id_value(part@) == Some(v@),
            None => spec_part_id_value(part@) is None,
        },
{
    let len = part.unicode_len();
    match find_char(part, '=', 0) {
        None => None,
        Some(i) => {
            let key = part.substring_char(0, i);
            proof {
                assert(key@ =~= part@.take(i as int));
            }
            if str_eq(key, "id") {
                match find_char(part, '=', i + 1) {
                    None => {
                        let v = part.substring_char(i + 1, len);
                        proof {
                            assert(v@ =~= part@.skip(i + 1));
                        }
                        Some(v)
                    },
                    Some(j) => {
                        let v = part.substring_char(i + 1, j);
                        Some(v)
                    },
                }
            } else {
                None
            }
        },
    }
}

/// Parses the query of a block lookup.
pub fn parse_block_query(q: &str) -> (r: Route)
    ensures
        r == spec_block_query(q@),
{
    match id_value(q) {
        None => Route::BadBlockQuery(QueryFault::IdNotProvided),
        Some(v) => {
            if v.unicode_len() == 0 {
                Route::BadBlockQuery(QueryFault::IdNotProvided)
            } else {
                match parse_u64(v) {
                    Some(n) => Route::GetBlock(n),
                    None => Route::BadBlockQuery(QueryFault::IdNotANumber),
                }
            }
        },
    }
}

/// Routes one request: the declared body length is held to the ceiling
/// before anything else, then the method and path decide.
pub fn classify_request(m: HttpMethod, url: &str, body_length: Option<usize>) -> (r: Route)
    ensures
        r == spec_classify(m, url@, body_length),
{
    match body_length {
        Some(l) => if l > MAX_BODY_BYTES {
            return Route::Oversize;
        },
        None => {},
    }
    let len = url.unicode_len();
    let qpos = find_char(url, '?', 0);
    let path = match qpos {
        Some(i) => url.substring_char(0, i),
        None => url,
    };
    proof {
        if qpos is Some {
            assert(path@ =~= url@.take(qpos.unwrap() as int));
        }
        assert(path@ == spec_path(url@));
    }
    if m == HttpMethod::Get && str_eq(path, "/hash") {
        Route::Hash
    } else if m == HttpMethod::Post && str_eq(path, "/validate") {
        Route::Validate
    } else if m == HttpMethod::Post && str_eq(path, "/send") {
        Route::Send
    } else if m == HttpMethod::Get && str_eq(path, "/get/block") {
        match qpos {
            None => Route::BadBlockQuery(QueryFault::NoQuery),
            Some(i) => {
                let q = match find_char(url, '?', i + 1) {
                    None => url.substring_char(i + 1, len),
                    Some(j) => url.substring_char(i + 1, j),
                };
                proof {
                    assert(q@ == spec_query(url@).unwrap());
                }
                parse_block_query(q)
            },
        }
    } else if m == HttpMethod::Get && str_eq(path, "/get/lastblock") {
        Route::LastBlock
    } else if m == HttpMethod::Get && str_eq(path, "/get/unconfirmedtransactions") {
        Route::UnconfirmedTransactions
    } else {
        Route::NotFound
    }
}

/// An ASCII whitespace byte.
pub open spec fn is_ascii_ws(b: u8) -> bool {
    b == 9 || b == 10 || b == 11 || b == 12 || b == 13 || b == 32
}

/// `s` without its leading whitespace.
pub open spec fn spec_trim_start(s: Seq<u8>) -> Seq<u8>
    decreases s.len(),
{
    if s.len() > 0 && is_ascii_ws(s[0]) {
        spec_trim_start(s.skip(1))
    } else {
        s
    }
}

/// `s` without its trailing whitespace.
pub open spec fn spec_trim_end(s: Seq<u8>) -> Seq<u8>
    decreases s.len(),
{
    if s.len() > 0 && is_ascii_ws(s.last()) {
        spec_trim_end(s.drop_last())
    } else {
        s
    }
}

/// `s` without leading and trailing whitespace.
pub open spec fn spec_trim(s: Seq<u8>) -> Seq<u8> {
    spec_trim_end(spec_trim_start(s))
}

/// Whether the byte is ASCII whitespace.
fn is_ws_byte(b: u8) -> (r: bool)
    ensures
        r == is_ascii_ws(b),
{
    b == 9 || b == 10 || b == 11 || b == 12 || b == 13 || b == 32
}

/// Strips ASCII whitespace from both ends, as the gateway does to a
/// submitted preimage before hashing it.
pub fn trim_ascii(s: &Vec<u8>) -> (r: Vec<u8>)
    ensures
        r@ == spec_trim(s@),
{
    let mut lo: usize = 0;
    proof {
        assert(s@.skip(0) =~= s@);
    }
    while lo < s.len() && is_ws_byte(s[lo])
        invariant
            lo <= s.len(),
            spec_trim_start(s@) == spec_trim_start(s@.skip(lo as int)),
        decreases s.len() - lo,
    {
        proof {
            assert(s@.skip(lo as int).skip(1) =~= s@.skip(lo as int + 1));
        }
        lo = lo + 1;
    }
    let ghost t = s@.skip(lo as int);
    proof {
        assert(spec_trim_start(s@) == t);
    }
    let mut hi: usize = s.len();
    proof {
        assert(t.take(hi - lo as int) =~= t);
    }
    while hi > lo && is_ws_byte(s[hi - 1])
        invariant
            lo <= hi <= s.len(),
            t == s@.skip(lo as int),
            spec_trim_end(t) == spec_trim_end(t.take(hi - lo as int)),
        decreases hi,
    {
        proof {
            assert(t.take(hi - lo as int).drop_last() =~= t.take(hi - 1 - lo as int));
            assert(t.take(hi - lo as int).last() == s@[hi - 1 as int]);
        }
        hi = hi - 1;
    }
    proof {
        assert(spec_trim_end(t) == t.take(hi - lo as int));
    }
    let mut out: Vec<u8> = Vec::new();
    let mut k: usize = lo;
    while k < hi
        invariant
            lo <= k <= hi <= s.len(),
            out@ == s@.subrange(lo as int, k as int),
        decreases hi - k,
    {
        out.push(s[k]);
        k = k + 1;
        proof {
            assert(out@ =~= s@.subrange(lo as int, k as int));
        }
    }
    proof {
        assert(out@ =~= t.take(hi - lo as int));
    }
    out
}

impl Runtime {
    /// Admits the decoded transfer when one was given and reports it added;
    /// a body that did not decode into the payload shape changes nothing and
    /// is reported invalid.
    pub fn handle_send(&mut self, payload: Option<TransactionClientPayload>) -> (r: String)
        ensures
            match payload {
                Some(p) => {
                    &&& exists|now: u64|
                        final(self)@ == spec_admitted(
                            old(self)@,
                            p.sender@,
                            p.recipient@,
                            p.amount,
                            now,
                        )
                    &&& r@ == "transaction added"@
                },
                None => *final(self) == *old(self) && r@ == "invalid body"@,
            },
    {
        match payload {
            Some(p) => {
                self.admit_transaction(p);
                String::from_str("transaction added")
            },
            None => String::from_str("invalid body"),
        }
    }

    /// Trims the submitted preimage as the gateway does, then attempts the
    /// seal: exactly when the trimmed preimage's digest is the active
    /// challenge, a block is sealed and returned in the response envelope,
    /// with the pool emptied and a fresh challenge rotated in.
    pub fn handle_validate(&mut self, body: &Vec<u8>) -> (r: Result<
        NodeServerPayload,
        RejectedError,
    >)
        requires
            old(self).last_block.index < u64::MAX,
        ensures
            match r {
                Ok(p) => {
                    &&& p.message@ == "validated"@
                    &&& spec_sha256(spec_trim(body@)) == old(self)@.current_hash
                    &&& p.data@ == spec_sealed_block(
                        old(self)@,
                        Seq::<char>::empty(),
                        Seq::<char>::empty(),
                        p.data@.timestamp,
                    )
                    &&& final(self)@ == spec_sealed_state(old(self)@, p.data@, final(self)@.current_hash)
                    &&& final(self).wf()
                },
                Err(_) => {
                    &&& spec_sha256(spec_trim(body@)) != old(self)@.current_hash
                    &&& *final(self) == *old(self)
                },
            },
    {
        let trimmed = trim_ascii(body);
        match self.attempt_seal(&trimmed) {
            Ok(b) => Ok(NodeServerPayload { message: String::from_str("validated"), data: b }),
            Err(e) => Err(e),
        }
    }
}

} // verus!
