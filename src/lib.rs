//! A stake-weighted byzantine-fault-tolerant consensus node: the slot voting
//! state machine, the binary wire codec and the peer-to-peer handshake and
//! discovery rules, each with its contract.

pub mod application;
pub mod codec;
pub mod consensus;
pub mod crypto;
pub mod discovery;
pub mod execution;
pub mod handshake;
pub mod query;
pub mod rpc;
pub mod storage;
pub mod text;
pub mod messages;
pub mod networking;
pub mod types;
pub mod validator;
