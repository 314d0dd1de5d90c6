//! Configuration of the SmolFS module.

use vstd::prelude::*;
use vstd::string::*;

use std::collections::BTreeMap;

use crate::ledger::{peer_numbers, ModuleError, PeerId};
use crate::smolfs::SmolFS;

verus! {

/// The configuration of one federation member.
#[derive(Clone, Debug, PartialEq, Eq, Hash)]
pub struct SmolFSConfig {
    pub local: SmolFSConfigLocal,
    /// All that must be the same for every federation member.
    pub consensus: SmolFSConfigConsensus,
}

/// The federation-wide half of the configuration.
#[derive(Clone, Debug, PartialEq, Eq, Hash)]
pub struct SmolFSConfigConsensus {
    pub merkle_root: Vec<u8>,
}

/// The per-member half of the configuration.
#[derive(Clone, Debug, PartialEq, Eq, Hash)]
pub struct SmolFSConfigLocal {
    pub pubkey: String,
    pub backup: String,
}

/// What clients see of the configuration.
#[derive(Clone, Debug, PartialEq, Eq)]
pub struct SmolFSClientConfig {
    pub merkle_root: Vec<u8>,
}

/// The name of the module kind.
pub const SMOLFS_KIND: &'static str = "smolfs";

impl SmolFSClientConfig {
    /// The module kind this configuration is for.
    pub fn kind(&self) -> (r: &'static str)
        ensures
            r@ == SMOLFS_KIND@,
    {
        SMOLFS_KIND
    }
}

/// A copy of a byte string.
fn copy_bytes(b: &Vec<u8>) -> (r: Vec<u8>)
    ensures
        r@ == b@,
{
    let mut r: Vec<u8> = Vec::new();
    let mut i: usize = 0;
    while i < b.len()
        invariant
            i <= b@.len(),
            r@ == b@.subrange(0, i as int),
        decreases b@.len() - i,
    {
        r.push(b[i]);
        assert(r@ =~= b@.subrange(0, i + 1));
        i = i + 1;
    }
    assert(r@ =~= b@);
    r
}

impl SmolFSConfigConsensus {
    /// What clients see: the consensus half alone.
    pub fn to_client_config(&self) -> (r: SmolFSClientConfig)
        ensures
            r.merkle_root@ == self.merkle_root@,
    {
        SmolFSClientConfig { merkle_root: copy_bytes(&self.merkle_root) }
    }
}

impl SmolFSConfig {
    pub fn from_parts(local: SmolFSConfigLocal, consensus: SmolFSConfigConsensus) -> (r: SmolFSConfig)
        ensures
            r.local == local,
            r.consensus == consensus,
    {
        SmolFSConfig { local, consensus }
    }

    /// The module kind and the two halves.
    pub fn to_parts(self) -> (r: (&'static str, SmolFSConfigLocal, SmolFSConfigConsensus))
        ensures
            r.0@ == SMOLFS_KIND@,
            r.1 == self.local,
            r.2 == self.consensus,
    {
        (SMOLFS_KIND, self.local, self.consensus)
    }

    /// Every configuration of this module is consistent.
    pub fn validate_config(&self, identity: &PeerId) -> (r: Result<(), ModuleError>)
        ensures
            r is Ok,
    {
        Ok(())
    }
}

/// Parameters of configuration generation.
#[derive(Clone, Copy, Debug)]
pub struct SmolFSConfigGenParams {
    pub important_param: u64,
}

/// Reads the module's items from their encoded form.
#[derive(Clone, Copy, Debug, Default)]
pub struct SmolFSDecoder;

/// Makes the configurations of a new federation.
#[derive(Clone, Copy, Debug)]
pub struct SmolFSConfigGenerator;

/// What a trusted dealer gives each member.
pub open spec fn is_dealer_config(c: SmolFSConfig) -> bool {
    &&& c.local.pubkey@ == "trusted dealer gen"@
    &&& c.local.backup@ == Seq::<char>::empty()
    &&& c.consensus.merkle_root@ == seq![4u8, 2u8]
}

/// What distributed generation gives a member.
pub open spec fn is_distributed_config(c: SmolFSConfig) -> bool {
    &&& c.local.pubkey@ == "distributed gen"@
    &&& c.local.backup@ == Seq::<char>::empty()
    &&& c.consensus.merkle_root@ == Seq::<u8>::empty()
}

fn dealer_config() -> (r: SmolFSConfig)
    ensures
        is_dealer_config(r),
{
    let mut merkle_root: Vec<u8> = Vec::new();
    merkle_root.push(4);
    merkle_root.push(2);
    assert(merkle_root@ =~= seq![4u8, 2u8]);
    SmolFSConfig {
        local: SmolFSConfigLocal {
            pubkey: String::from_str("trusted dealer gen"),
            backup: String::new(),
        },
        consensus: SmolFSConfigConsensus { merkle_root },
    }
}

impl SmolFSConfigGenerator {
    pub fn decoder(&self) -> SmolFSDecoder {
        SmolFSDecoder
    }

    /// The module instance for a member's configuration.
    pub fn init(&self, cfg: SmolFSConfig) -> (r: SmolFS)
        ensures
            r.cfg == cfg,
    {
        SmolFS::new(cfg)
    }

    /// One dealer configuration for each peer, keyed by the peer's number.
    pub fn trusted_dealer_gen(&self, peers: &[PeerId], params: &SmolFSConfigGenParams) -> (r: BTreeMap<
        u16,
        SmolFSConfig,
    >)
        ensures
            r@.dom() == peer_numbers(peers@),
            forall|k: u16| #[trigger] r@.contains_key(k) ==> is_dealer_config(r@[k]),
    {
        broadcast use vstd::laws_cmp::group_laws_cmp;

        let mut r: BTreeMap<u16, SmolFSConfig> = BTreeMap::new();
        let mut i: usize = 0;
        while i < peers.len()
            invariant
                i <= peers@.len(),
                r@.dom() == peer_numbers(peers@.subrange(0, i as int)),
                forall|k: u16| #[trigger] r@.contains_key(k) ==> is_dealer_config(r@[k]),
            decreases peers@.len() - i,
        {
            r.insert(peers[i].0, dealer_config());
            proof {
                let ghost i1 = (i + 1) as int;
                let ghost before = peers@.subrange(0, i as int);
                let ghost after = peers@.subrange(0, i1);
                assert forall|k: u16| peer_numbers(after).contains(k) == (peer_numbers(
                    before,
                ).contains(k) || k == peers@[i as int].0) by {
                    if peer_numbers(after).contains(k) {
                        let j = choose|j: int| 0 <= j < after.len() && #[trigger] after[j].0 == k;
                        if j < i {
                            assert(before[j] == after[j]);
                        }
                    }
                    if peer_numbers(before).contains(k) {
                        let j = choose|j: int| 0 <= j < before.len() && #[trigger] before[j].0 == k;
                        assert(after[j] == before[j]);
                    }
                    if k == peers@[i as int].0 {
                        assert(after[i as int] == peers@[i as int]);
                    }
                }
                assert(r@.dom() =~= peer_numbers(after));
            }
            i = i + 1;
        }
        assert(peers@.subrange(0, peers@.len() as int) =~= peers@);
        r
    }

    /// This member's configuration from distributed generation.
    pub fn distributed_gen(
        &self,
        our_id: &PeerId,
        peers: &[PeerId],
        params: &SmolFSConfigGenParams,
    ) -> (r: SmolFSConfig)
        ensures
            is_distributed_config(r),
    {
        SmolFSConfig {
            local: SmolFSConfigLocal {
                pubkey: String::from_str("distributed gen"),
                backup: String::new(),
            },
            consensus: SmolFSConfigConsensus { merkle_root: Vec::new() },
        }
    }

    /// Checks a member's configuration: every one is consistent.
    pub fn validate_config(&self, identity: &PeerId, config: &SmolFSConfig) -> (r: Result<
        (),
        ModuleError,
    >)
        ensures
            r is Ok,
    {
        config.validate_config(identity)
    }
}

/// The module's own error.
#[derive(Clone, Copy, Debug, PartialEq, Eq, Hash)]
pub enum SmolFSError {
    SomethingDummyWentWrong,
}

impl SmolFSError {
    /// The message shown for this error.
    pub fn message(&self) -> (r: &'static str)
        ensures
            r@ == "Something went wrong"@,
    {
        "Something went wrong"
    }
}

} // verus!
