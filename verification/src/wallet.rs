//! Mining-pool wallet records: the wire payload with its online workers,
//! the creation request body, and the stored row.

use crate::miner::Miner;
use vstd::prelude::*;

verus! {

/// A wallet as the pool reports it, with its online workers.
#[derive(Debug)]
pub struct Wallet {
    pub address: String,
    pub club_name: String,
    /// megahashes per second
    pub total_hash_rate: i32,
    pub total_mined_shares: i32,
    pub total_online_workers: i32,
    pub online_workers: Vec<Miner>,
}

/// The body of a wallet-creation request.
#[derive(Debug)]
pub struct CreateWallet {
    pub club_name: String,
}

/// A stored wallet row.
#[derive(Debug)]
pub struct WalletDAO {
    pub address: String,
    pub club_name: String,
}

} // verus!
