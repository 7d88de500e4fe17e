//! Core logic of a cooperative information-centric network node:
//! name-based routing tables, a contract language compiler, a block chain
//! and the bookkeeping around shards, identities and governance.
pub mod blockchain;
pub mod clock;
pub mod content_store;
pub mod communication;
pub mod cscl;
pub mod crypto;
pub mod cross_shard;
pub mod currency;
pub mod democracy;
pub mod did;
pub mod error;
pub mod fib;
pub mod network;
pub mod node;
pub mod pending_interest_table;
pub mod sharding;
pub mod smart_contract;
pub mod string_map;
pub mod text;
pub mod vm;
