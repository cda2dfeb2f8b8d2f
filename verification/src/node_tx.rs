//! The record a block-explorer node returns for one transaction: its
//! identifier and its inputs and outputs, each with a value and addresses.

use vstd::prelude::*;

verus! {

/// One transaction input.
#[derive(Debug)]
pub struct Vin {
    pub value: String,
    pub addresses: Vec<String>,
}

/// One transaction output.
#[derive(Debug)]
pub struct Vout {
    pub value: String,
    pub addresses: Vec<String>,
}

/// One transaction.
#[derive(Debug)]
pub struct NodeTx {
    pub txid: String,
    pub vin: Vec<Vin>,
    pub vout: Vec<Vout>,
}

} // verus!
