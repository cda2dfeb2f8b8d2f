//! The record a block-explorer node returns for one address: the address
//! itself and the identifiers of its transactions.

use vstd::prelude::*;

verus! {

#[derive(Debug)]
pub struct NodeAddress {
    pub address: String,
    pub txids: Vec<String>,
}

} // verus!
