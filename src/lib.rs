//! Background block-fetch pipeline of a fog view server: per-key fetch
//! progress, gap-checked acceptance of fetched blocks, a record-bounded
//! result queue, and the fetch worker's state machine. Also the transaction
//! hash and membership-proof values and the transfer health tracker that the
//! surrounding services share.

pub mod health;
pub mod keys;
pub mod queue;
pub mod sharding;
pub mod shared;
pub mod tracker;
pub mod tx;
pub mod worker;
