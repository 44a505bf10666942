pub mod blockchain;
pub mod codec;
pub mod keys;
pub mod merkletree;
pub mod miner;
pub mod trader;
pub mod transaction;
pub mod utils;
