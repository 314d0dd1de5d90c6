//! Values the host ledger hands to every module: amounts, transaction and
//! output identities, peers, and the error kinds a module reports.

use vstd::prelude::*;

verus! {

broadcast use vstd::array::group_array_axioms;

/// An amount of millisatoshis.
#[derive(Clone, Copy, Debug, PartialEq, Eq, Hash, PartialOrd, Ord)]
pub struct Amount {
    pub msats: u64,
}

impl Amount {
    /// The amount of nothing.
    pub fn zero() -> (r: Amount)
        ensures
            r.msats == 0,
    {
        Amount { msats: 0 }
    }
}

/// What one transaction input or output contributes: its amount and its fee.
#[derive(Clone, Copy, Debug, PartialEq, Eq, Hash)]
pub struct TransactionItemAmount {
    pub amount: Amount,
    pub fee: Amount,
}

impl TransactionItemAmount {
    /// No amount and no fee: what a module without monetary semantics reports.
    pub fn zero() -> (r: TransactionItemAmount)
        ensures
            r == TransactionItemAmount::spec_zero(),
    {
        TransactionItemAmount { amount: Amount::zero(), fee: Amount::zero() }
    }

    pub open spec fn spec_zero() -> TransactionItemAmount {
        TransactionItemAmount { amount: Amount { msats: 0 }, fee: Amount { msats: 0 } }
    }
}

/// What validating an input yields.
#[derive(Clone, Copy, Debug, PartialEq, Eq, Hash)]
pub struct InputMeta {
    pub amount: TransactionItemAmount,
}

/// The identity of a transaction: a 32-byte digest.
#[derive(Clone, Copy, Debug, PartialEq, Eq, Hash, PartialOrd, Ord)]
pub struct TransactionId(pub [u8; 32]);

/// The identity of one output of one transaction.
#[derive(Clone, Copy, Debug, PartialEq, Eq, Hash, PartialOrd, Ord)]
pub struct OutPoint {
    pub txid: TransactionId,
    pub out_idx: u64,
}

/// A member of the federation.
#[derive(Clone, Copy, Debug, PartialEq, Eq, Hash, PartialOrd, Ord)]
pub struct PeerId(pub u16);

/// The numbers of the given peers.
pub open spec fn peer_numbers(peers: Seq<PeerId>) -> Set<u16> {
    Set::new(|k: u16| exists|j: int| 0 <= j < peers.len() && #[trigger] peers[j].0 == k)
}

impl TransactionId {
    /// Whether two transaction identities hold the same bytes.
    pub fn same_as(&self, other: &TransactionId) -> (r: bool)
        ensures
            r == (*self == *other),
    {
        let mut i: usize = 0;
        while i < 32
            invariant
                i <= 32,
                forall|j: int| 0 <= j < i ==> self.0@[j] == other.0@[j],
            decreases 32 - i,
        {
            if self.0[i] != other.0[i] {
                return false;
            }
            i = i + 1;
        }
        assert(self.0 =~= other.0);
        true
    }
}

impl OutPoint {
    /// Whether two output identities are the same.
    pub fn same_as(&self, other: &OutPoint) -> (r: bool)
        ensures
            r == (*self == *other),
    {
        self.out_idx == other.out_idx && self.txid.same_as(&other.txid)
    }
}

/// A federation-wide balance check, to which each module adds its net
/// assets in millisatoshis.
#[derive(Clone, Copy, Debug, PartialEq, Eq)]
pub struct Audit {
    pub net_assets_msats: i64,
}

/// The ways a module refuses or fails an operation.
#[derive(Clone, Copy, Debug, PartialEq, Eq, Hash, Structural)]
pub enum ModuleError {
    /// The transaction component is structurally invalid.
    MalformedInput,
    /// The component is well formed but breaks a rule of the module.
    PolicyViolation,
    /// The underlying store failed.
    StoreError,
    /// The host asked for something it must have prevented, such as a second
    /// outcome for one output.
    ProtocolViolation,
    /// The configuration is not consistent.
    ConfigError,
}

} // verus!
