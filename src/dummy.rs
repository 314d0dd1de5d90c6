//! The Dummy module: a module that accepts the lifecycle and does nothing
//! with it but propose one confirmation per stored entry.

use vstd::prelude::*;

use std::collections::BTreeMap;

use crate::ledger::{peer_numbers, Audit, OutPoint, PeerId};
use crate::smolfs::ProposalReadiness;
use crate::smolfs_db::EntryTable;

verus! {

/// The configuration of one federation member.
#[derive(Clone, Debug, PartialEq, Eq, Hash)]
pub struct DummyConfig {
    pub local: DummyConfigLocal,
    /// All that must be the same for every federation member.
    pub consensus: DummyConfigConsensus,
}

/// The per-member half of the configuration.
#[derive(Clone, Debug, PartialEq, Eq, Hash)]
pub struct DummyConfigLocal {
    pub max_size: u64,
    pub new_user_backup: String,
}

/// The federation-wide half of the configuration.
#[derive(Clone, Debug, PartialEq, Eq, Hash)]
pub struct DummyConfigConsensus {
    pub merkle_root: Vec<u8>,
}

/// The Dummy module of one federation member.
#[derive(Debug)]
pub struct Dummy {
    pub cfg: DummyConfig,
}

/// The Dummy module's consensus item.
#[derive(Clone, Debug, PartialEq, Eq, Hash)]
pub struct DummyOutputConfirmation(pub String);

/// The Dummy module keeps nothing per validation batch.
#[derive(Clone, Copy, Debug)]
pub struct DummyVerificationCache;

/// Makes the configurations of a new federation.
#[derive(Clone, Copy, Debug)]
pub struct DummyConfigGenerator;

/// Parameters of configuration generation.
#[derive(Clone, Copy, Debug)]
pub struct DummyConfigGenParams {
    pub important_param: u64,
}

/// A transaction input of the Dummy module.
#[derive(Clone, Debug, PartialEq, Eq, Hash, Default)]
pub struct DummyInput(pub Vec<String>);

/// A transaction output of the Dummy module.
#[derive(Clone, Copy, Debug, PartialEq, Eq, Hash, Default)]
pub struct DummyOutput();

/// What became of a Dummy output.
#[derive(Clone, Copy, Debug, PartialEq, Eq, Hash)]
pub struct DummyOutputOutcome;

/// The module's own error.
#[derive(Clone, Copy, Debug, PartialEq, Eq, Hash)]
pub enum DummyError {
    SomethingDummyWentWrong,
}

impl DummyError {
    /// The message shown for this error.
    pub fn message(&self) -> (r: &'static str)
        ensures
            r@ == "Something went wrong"@,
    {
        "Something went wrong"
    }
}

/// The configuration every member gets.
pub open spec fn is_dummy_config(c: DummyConfig) -> bool {
    &&& c.local.max_size == 3
    &&& c.local.new_user_backup@ == Seq::<char>::empty()
    &&& c.consensus.merkle_root@ == Seq::<u8>::empty()
}

fn dummy_config() -> (r: DummyConfig)
    ensures
        is_dummy_config(r),
{
    DummyConfig {
        local: DummyConfigLocal { max_size: 3, new_user_backup: String::new() },
        consensus: DummyConfigConsensus { merkle_root: Vec::new() },
    }
}

impl Dummy {
    /// A module instance with configuration `cfg`.
    pub fn new(cfg: DummyConfig) -> (r: Dummy)
        ensures
            r.cfg == cfg,
    {
        Dummy { cfg }
    }

    /// Whether there is anything to propose: `Pending`, which tells the host
    /// to suspend the module, exactly when no entry is stored.
    pub fn await_consensus_proposal(&self, entries: &EntryTable) -> (r: ProposalReadiness)
        ensures
            (r == ProposalReadiness::Pending) == (entries.seq().len() == 0),
    {
        let items = self.consensus_proposal(entries);
        if items.len() == 0 {
            ProposalReadiness::Pending
        } else {
            ProposalReadiness::Ready
        }
    }

    /// One confirmation per stored entry, each carrying the configured
    /// backup for new users.
    pub fn consensus_proposal(&self, entries: &EntryTable) -> (r: Vec<DummyOutputConfirmation>)
        ensures
            r@.len() == entries.seq().len(),
            forall|i: int|
                0 <= i < r@.len() ==> (#[trigger] r@[i]).0@ == self.cfg.local.new_user_backup@,
    {
        let n = entries.len();
        let mut r: Vec<DummyOutputConfirmation> = Vec::new();
        let mut i: usize = 0;
        while i < n
            invariant
                i <= n,
                r@.len() == i,
                forall|j: int|
                    0 <= j < i ==> (#[trigger] r@[j]).0@ == self.cfg.local.new_user_backup@,
            decreases n - i,
        {
            r.push(DummyOutputConfirmation(self.cfg.local.new_user_backup.clone()));
            i = i + 1;
        }
        r
    }

    /// Agreed items change nothing.
    pub fn begin_consensus_epoch(&self, consensus_items: Vec<(PeerId, DummyOutputConfirmation)>) {
    }

    pub fn build_verification_cache(&self, inputs: &[DummyInput]) -> DummyVerificationCache {
        DummyVerificationCache
    }

    /// The peers to drop after the epoch: none.
    pub fn end_consensus_epoch(&self, consensus_peers: &[PeerId]) -> (r: Vec<PeerId>)
        ensures
            r@.len() == 0,
    {
        Vec::new()
    }

    /// The Dummy module records no outcome.
    pub fn output_status(&self, out_point: OutPoint) -> (r: Option<DummyOutputOutcome>)
        ensures
            r is None,
    {
        None
    }

    /// This module creates and destroys no value: it adds nothing to the audit.
    pub fn audit(&self, audit: &mut Audit)
        ensures
            *final(audit) == *old(audit),
    {
    }
}

impl DummyConfigGenerator {
    /// The module instance for a member's configuration.
    pub fn init(&self, cfg: DummyConfig) -> (r: Dummy)
        ensures
            r.cfg == cfg,
    {
        Dummy::new(cfg)
    }

    /// One configuration for each peer, keyed by the peer's number.
    pub fn trusted_dealer_gen(&self, peers: &[PeerId], params: &DummyConfigGenParams) -> (r: BTreeMap<
        u16,
        DummyConfig,
    >)
        ensures
            r@.dom() == peer_numbers(peers@),
            forall|k: u16| #[trigger] r@.contains_key(k) ==> is_dummy_config(r@[k]),
    {
        broadcast use vstd::laws_cmp::group_laws_cmp;

        let mut r: BTreeMap<u16, DummyConfig> = BTreeMap::new();
        let mut i: usize = 0;
        while i < peers.len()
            invariant
                i <= peers@.len(),
                r@.dom() == peer_numbers(peers@.subrange(0, i as int)),
                forall|k: u16| #[trigger] r@.contains_key(k) ==> is_dummy_config(r@[k]),
            decreases peers@.len() - i,
        {
            r.insert(peers[i].0, dummy_config());
            proof {
                let ghost i1 = (i + 1) as int;
                let ghost before = peers@.subrange(0, i as int);
                let ghost after = peers@.subrange(0, i1);
                assert forall|k: u16| peer_numbers(after).contains(k) == (peer_numbers(
                    before,
                ).contains(k) || k == peers@[i as int].0) by {
                    if peer_numbers(after).contains(k) {
                        let j = choose|j: int| 0 <= j < after.len() && #[trigger] after[j].0 == k;
                        if j < i {
                            assert(before[j] == after[j]);
                        }
                    }
                    if peer_numbers(before).contains(k) {
                        let j = choose|j: int| 0 <= j < before.len() && #[trigger] before[j].0 == k;
                        assert(after[j] == before[j]);
                    }
                    if k == peers@[i as int].0 {
                        assert(after[i as int] == peers@[i as int]);
                    }
                }
                assert(r@.dom() =~= peer_numbers(after));
            }
            i = i + 1;
        }
        assert(peers@.subrange(0, peers@.len() as int) =~= peers@);
        r
    }

    /// This member's configuration from distributed generation.
    pub fn distributed_gen(
        &self,
        our_id: &PeerId,
        peers: &[PeerId],
        params: &DummyConfigGenParams,
    ) -> (r: DummyConfig)
        ensures
            is_dummy_config(r),
    {
        dummy_config()
    }
}

} // verus!
