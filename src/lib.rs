//! Allocation engine of an NFT candy machine: a shrinking inventory of prefix
//! buckets, a per-round whitelist, a fee split and a pseudo-random draw.
pub mod entropy;
pub mod fee;
pub mod inventory;
pub mod machine;
pub mod types;
pub mod whitelist;
