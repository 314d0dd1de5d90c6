use smolfs::dummy::{
    Dummy, DummyConfig, DummyConfigConsensus, DummyConfigGenParams, DummyConfigGenerator,
    DummyConfigLocal, DummyError, DummyInput,
};
use smolfs::key_order::{compare_keys, KeyOrder};
use smolfs::ledger::{Amount, Audit, ModuleError, OutPoint, PeerId, TransactionId};
use smolfs::simple::FeeConsensus;
use smolfs::smolfs::{ProposalReadiness, SmolFSEntry};
use smolfs::smolfs_config::{
    SmolFSConfig, SmolFSConfigConsensus, SmolFSConfigGenParams, SmolFSConfigGenerator,
    SmolFSConfigLocal, SmolFSError,
};
use smolfs::smolfs_db::{DbKeyPrefix, EntryTable};

fn dummy() -> Dummy {
    Dummy::new(DummyConfig {
        local: DummyConfigLocal { max_size: 3, new_user_backup: "fresh".to_string() },
        consensus: DummyConfigConsensus { merkle_root: vec![1] },
    })
}

#[test]
fn dummy_proposes_one_confirmation_per_entry() {
    let d = dummy();
    let mut t = EntryTable::new();
    assert!(d.consensus_proposal(&t).is_empty());
    t.upsert(SmolFSEntry { pubkey: "a".to_string(), backup: "1".to_string() });
    t.upsert(SmolFSEntry { pubkey: "b".to_string(), backup: "2".to_string() });
    t.upsert(SmolFSEntry { pubkey: "a".to_string(), backup: "3".to_string() });
    let items = d.consensus_proposal(&t);
    assert_eq!(items.len(), 2);
    assert!(items.iter().all(|c| c.0 == "fresh"));
}

#[test]
fn dummy_suspends_while_nothing_is_stored() {
    let d = dummy();
    let mut t = EntryTable::new();
    assert_eq!(d.await_consensus_proposal(&t), ProposalReadiness::Pending);
    t.upsert(SmolFSEntry { pubkey: "a".to_string(), backup: "1".to_string() });
    assert_eq!(d.await_consensus_proposal(&t), ProposalReadiness::Ready);
}

#[test]
fn dummy_lifecycle_is_inert() {
    let d = dummy();
    let _ = d.build_verification_cache(&[DummyInput(vec!["x".to_string()])]);
    d.begin_consensus_epoch(vec![]);
    assert!(d.end_consensus_epoch(&[PeerId(0)]).is_empty());
    let p = OutPoint { txid: TransactionId([0; 32]), out_idx: 0 };
    assert_eq!(d.output_status(p), None);
    let mut audit = Audit { net_assets_msats: -1 };
    d.audit(&mut audit);
    assert_eq!(audit.net_assets_msats, -1);
    assert_eq!(DummyError::SomethingDummyWentWrong.message(), "Something went wrong");
}

#[test]
fn dummy_config_generation() {
    let g = DummyConfigGenerator;
    let peers = [PeerId(0), PeerId(1), PeerId(2), PeerId(1)];
    let cfgs = g.trusted_dealer_gen(&peers, &DummyConfigGenParams { important_param: 10 });
    assert_eq!(cfgs.keys().copied().collect::<Vec<u16>>(), vec![0, 1, 2]);
    for cfg in cfgs.values() {
        assert_eq!(cfg.local.max_size, 3);
        assert_eq!(cfg.local.new_user_backup, "");
        assert!(cfg.consensus.merkle_root.is_empty());
    }
    let own = g.distributed_gen(&PeerId(1), &peers, &DummyConfigGenParams { important_param: 10 });
    assert_eq!(own, cfgs[&1]);
    assert_eq!(g.init(own.clone()).cfg, own);
}

#[test]
fn smolfs_config_generation() {
    let g = SmolFSConfigGenerator;
    let peers = [PeerId(3), PeerId(1)];
    let params = SmolFSConfigGenParams { important_param: 10 };
    let cfgs = g.trusted_dealer_gen(&peers, &params);
    assert_eq!(cfgs.keys().copied().collect::<Vec<u16>>(), vec![1, 3]);
    assert_eq!(cfgs[&3].local.pubkey, "trusted dealer gen");
    assert_eq!(cfgs[&3].local.backup, "");
    assert_eq!(cfgs[&1].consensus.merkle_root, vec![4u8, 2u8]);
    assert!(g.trusted_dealer_gen(&[], &params).is_empty());
    let own = g.distributed_gen(&PeerId(1), &peers, &params);
    assert_eq!(own.local.pubkey, "distributed gen");
    assert!(own.consensus.merkle_root.is_empty());
    assert_eq!(g.validate_config(&PeerId(1), &own), Ok(()));
    assert_eq!(g.init(own.clone()).cfg, own);
}

#[test]
fn smolfs_config_parts_and_client_view() {
    let local = SmolFSConfigLocal { pubkey: "pk".to_string(), backup: "b".to_string() };
    let consensus = SmolFSConfigConsensus { merkle_root: vec![9, 8, 7] };
    let cfg = SmolFSConfig::from_parts(local.clone(), consensus.clone());
    let client = cfg.consensus.to_client_config();
    assert_eq!(client.merkle_root, vec![9, 8, 7]);
    assert_eq!(client.kind(), "smolfs");
    assert_eq!(cfg.validate_config(&PeerId(0)), Ok(()));
    let (kind, l, c) = cfg.to_parts();
    assert_eq!(kind, "smolfs");
    assert_eq!(l, local);
    assert_eq!(c, consensus);
    assert_eq!(SmolFSError::SomethingDummyWentWrong.message(), "Something went wrong");
}

#[test]
fn key_prefix_bytes() {
    assert_eq!(DbKeyPrefix::Example.prefix_byte(), 0x80);
    assert_eq!(DbKeyPrefix::SmolFSOutPoint.prefix_byte(), 0x81);
}

#[test]
fn key_order_matches_string_order() {
    let words = ["", "a", "ab", "b", "B", "é", "aé", "zz", "z"];
    for x in words {
        for y in words {
            let expected = match x.cmp(y) {
                std::cmp::Ordering::Less => KeyOrder::Less,
                std::cmp::Ordering::Equal => KeyOrder::Equal,
                std::cmp::Ordering::Greater => KeyOrder::Greater,
            };
            assert_eq!(compare_keys(&x.to_string(), &y.to_string()), expected);
        }
    }
}

#[test]
fn fee_consensus_default_is_zero() {
    let f = FeeConsensus::default();
    assert_eq!(f.contract_input, Amount { msats: 0 });
    assert_eq!(f.contract_output, Amount { msats: 0 });
}

#[test]
fn module_error_kinds_are_distinct() {
    assert_ne!(ModuleError::MalformedInput, ModuleError::PolicyViolation);
    assert_ne!(ModuleError::ProtocolViolation, ModuleError::StoreError);
    assert_ne!(ModuleError::ConfigError, ModuleError::MalformedInput);
}
