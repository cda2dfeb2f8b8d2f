//! Mining-pool miner records: the wire payload, the creation request body,
//! and the stored row.

use vstd::prelude::*;

verus! {

/// A miner as the pool reports it.
#[derive(Debug)]
pub struct Miner {
    pub id: String,
    pub address: String,
    pub nickname: String,
    pub club_name: String,
    /// megahashes per second
    pub hash_rate: i32,
    pub mined_shares: i32,
}

/// The body of a miner-creation request.
#[derive(Debug)]
pub struct CreateMiner {
    pub nickname: String,
}

/// A stored miner row.
#[derive(Debug)]
pub struct MinerDAO {
    pub id: String,
    pub address: String,
    pub nickname: String,
    /// megahashes per second
    pub hash_rate: i32,
    pub mined_shares: i32,
}

} // verus!
