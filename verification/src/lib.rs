//! A single-node ledger service: transactions are admitted into a pending
//! pool, a proof-of-work style challenge guards the right to seal them into
//! the next hash-linked block, and each sealed block is written as one
//! document to the work directory. The modules here hold everything the node
//! decides — admission, challenge rotation, sealing, routing, and the block
//! document — with contracts; the process shell around them only moves bytes.

pub mod codec;
pub mod digits;
pub mod gateway;
pub mod hash;
pub mod models;
pub mod runtime;
