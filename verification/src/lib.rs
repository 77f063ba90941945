//! Explorer indexer core for the Hacash fullnode: the binary settings
//! snapshot, balance rankings, chain activity sections, scan checkpoints and
//! the explorer query rules.

pub mod codec;
pub mod setting;
pub mod active;
pub mod transfer;
pub mod ranking;
pub mod text;
pub mod scan;
pub mod server;
pub mod config;
pub mod scaner;
pub mod database;
pub mod query;
pub mod index;
