//! Message layer of a cross-chain asset bridge: the wire codec of the two
//! bridge applications (native coin and tokens), their burn-and-commit and
//! verify-and-mint transitions, and the registry that routes inbound
//! messages to them.
pub mod application;
pub mod arith;
pub mod codec;
pub mod commitments;
pub mod erc20_app;
pub mod erc20_payload;
pub mod error;
pub mod eth_app;
pub mod eth_payload;
pub mod ledger;
pub mod memory_ledger;
pub mod registry;
pub mod types;
