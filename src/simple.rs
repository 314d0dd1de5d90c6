//! Parts of the threshold-encryption Simple module that hold plain values.

use vstd::prelude::*;

use crate::ledger::Amount;

verus! {

/// Reads the module's items from their encoded form.
#[derive(Clone, Copy, Debug, Default)]
pub struct SimpleDecoder;

/// The fees the federation charges for contracts.
#[derive(Clone, Copy, Debug, PartialEq, Eq, Hash)]
pub struct FeeConsensus {
    pub contract_input: Amount,
    pub contract_output: Amount,
}

impl Default for FeeConsensus {
    /// No fee for either side.
    fn default() -> (r: FeeConsensus)
        ensures
            r.contract_input.msats == 0,
            r.contract_output.msats == 0,
    {
        FeeConsensus { contract_input: Amount::zero(), contract_output: Amount::zero() }
    }
}

} // verus!
