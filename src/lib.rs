//! Verified building blocks, centred on a reversible identifier codec.
//!
//! The codec (`uuid`, `siphash`, `codec`) keeps sortable identifiers inside
//! and hands out random-looking ones: a time-ordered 128-bit identifier
//! (version 7) becomes a facade identifier (version 4) by XOR-masking its
//! 48-bit timestamp with a keyed SipHash-2-4 digest of the identifier's own
//! random payload. Anyone holding the key can undo the mask.
//!
//! Beside it stand API-key tokens, AES-GCM framing, small containers (a
//! search tree, growable arrays, a stack, queues, logs and a skip list), a
//! key-value configuration format, integer division, a Vigenère cipher, an
//! error type, a retry decision, a strategy-driven cache and text helpers,
//! each with its contract.

pub mod api_keys;
pub mod arith;
pub mod bst;
pub mod cache;
pub mod codec;
pub mod config;
pub mod crypto;
pub mod dynamic_array;
pub mod errors;
pub mod failover;
pub mod generic_array;
pub mod matching;
pub mod queue;
pub mod search;
pub mod shades;
pub mod siphash;
pub mod skip_list;
pub mod stack;
pub mod text;
pub mod transaction_log;
pub mod uuid;
pub mod vigenere;

pub use codec::{decode_v4_facade, encode_v4_facade, Uuidv47Key};
pub use siphash::siphash24;
pub use uuid::{ParseError, Uuid128};
