use smolfs::request::parse_put_params;
use smolfs::ledger::{
    Amount, Audit, InputMeta, ModuleError, OutPoint, PeerId, TransactionId,
    TransactionItemAmount,
};
use smolfs::smolfs::{
    owner_out_point, ProposalReadiness, SmolFS, SmolFSEntry, SmolFSInput, SmolFSOutput,
    SmolFSOutputConfirmation, SmolFSOutputOutcome, MAX_BACKUP_LEN,
};
use smolfs::smolfs_config::{SmolFSConfig, SmolFSConfigConsensus, SmolFSConfigLocal};
use smolfs::smolfs_db::SmolFSDb;

const PUBKEY_DIGEST: [u8; 32] = [
    184, 75, 37, 98, 143, 128, 14, 54, 146, 88, 17, 170, 36, 170, 242, 140, 159, 130, 115, 51,
    210, 223, 153, 7, 98, 181, 195, 168, 110, 255, 124, 155,
];

const ALICE_DIGEST: [u8; 32] = [
    43, 216, 6, 201, 127, 14, 0, 175, 26, 31, 195, 50, 143, 167, 99, 169, 38, 151, 35, 200, 219,
    143, 172, 79, 147, 175, 113, 219, 24, 109, 110, 144,
];

fn module() -> SmolFS {
    SmolFS::new(SmolFSConfig {
        local: SmolFSConfigLocal { pubkey: "local".to_string(), backup: String::new() },
        consensus: SmolFSConfigConsensus { merkle_root: vec![] },
    })
}

fn entry(pubkey: &str, backup: &str) -> SmolFSEntry {
    SmolFSEntry { pubkey: pubkey.to_string(), backup: backup.to_string() }
}

fn input(pubkey: &str, backup: &str) -> SmolFSInput {
    SmolFSInput(Box::new(entry(pubkey, backup)))
}

fn output(pubkey: &str, backup: &str) -> SmolFSOutput {
    SmolFSOutput(Box::new(entry(pubkey, backup)))
}

fn point(byte: u8, idx: u64) -> OutPoint {
    OutPoint { txid: TransactionId([byte; 32]), out_idx: idx }
}

fn zero_amount() -> TransactionItemAmount {
    TransactionItemAmount { amount: Amount { msats: 0 }, fee: Amount { msats: 0 } }
}

fn pairs(items: &[SmolFSOutputConfirmation]) -> Vec<(String, String)> {
    items.iter().map(|c| (c.0.pubkey.clone(), c.0.backup.clone())).collect()
}

/// Runs one epoch in which every item this member proposes is agreed.
fn consensus_round(m: &SmolFS, db: &mut SmolFSDb) {
    let items: Vec<(PeerId, SmolFSOutputConfirmation)> =
        m.consensus_proposal(db).into_iter().map(|c| (PeerId(0), c)).collect();
    m.begin_consensus_epoch(db, items);
}

fn apply_one_input(m: &SmolFS, db: &mut SmolFSDb, i: SmolFSInput) -> Result<InputMeta, ModuleError> {
    let batch = vec![i];
    let cache = m.build_verification_cache(&batch);
    m.apply_input(db, &batch[0], &cache)
}

#[test]
fn create_output_for_smolfs() {
    let m = module();
    let mut db = SmolFSDb::new();
    let pubkey = "pubkey".to_string();
    let backup = "backup".to_string();
    let outpoint = OutPoint { txid: TransactionId(PUBKEY_DIGEST), out_idx: 0 };
    consensus_round(&m, &mut db);
    let out = SmolFSOutput(Box::new(SmolFSEntry { pubkey, backup }));
    assert_eq!(m.apply_output(&mut db, &out, outpoint), Ok(zero_amount()));
    consensus_round(&m, &mut db);
    consensus_round(&m, &mut db);
    assert_eq!(m.output_status(&db, outpoint), Some(SmolFSOutputOutcome(outpoint.txid)));
    let backup = m.get_backups(&db, "pubkey".to_string());
    assert_eq!("backup", backup)
}

#[test]
fn input_then_get() {
    let m = module();
    let mut db = SmolFSDb::new();
    let r = apply_one_input(&m, &mut db, input("alice", "backup-v1"));
    assert_eq!(r, Ok(InputMeta { amount: zero_amount() }));
    assert_eq!(m.get_backups(&db, "alice".to_string()), "backup-v1");
}

#[test]
fn output_status_then_second_apply_refused() {
    let m = module();
    let mut db = SmolFSDb::new();
    let bob_point = point(7, 1);
    assert_eq!(m.output_status(&db, bob_point), None);
    assert_eq!(m.apply_output(&mut db, &output("bob", "b1"), bob_point), Ok(zero_amount()));
    assert_eq!(m.output_status(&db, bob_point), Some(SmolFSOutputOutcome(bob_point.txid)));
    assert_eq!(m.get_backups(&db, "bob".to_string()), "b1");
    assert_eq!(
        m.apply_output(&mut db, &output("bob", "b2"), bob_point),
        Err(ModuleError::ProtocolViolation)
    );
    assert_eq!(m.get_backups(&db, "bob".to_string()), "b1");
    assert_eq!(m.output_status(&db, bob_point), Some(SmolFSOutputOutcome(bob_point.txid)));
}

#[test]
fn empty_epoch_suspends() {
    let m = module();
    let mut db = SmolFSDb::new();
    assert!(m.consensus_proposal(&db).is_empty());
    assert_eq!(m.await_consensus_proposal(&db), ProposalReadiness::Pending);
    apply_one_input(&m, &mut db, input("alice", "x")).unwrap();
    assert_eq!(m.await_consensus_proposal(&db), ProposalReadiness::Ready);
    consensus_round(&m, &mut db);
    assert!(m.consensus_proposal(&db).is_empty());
    assert_eq!(m.await_consensus_proposal(&db), ProposalReadiness::Pending);
}

#[test]
fn repeated_put_last_writer_wins() {
    let m = module();
    let mut db = SmolFSDb::new();
    assert!(m.put_backups(&mut db, "carol".to_string(), "v1".to_string()).is_ok());
    assert!(m.put_backups(&mut db, "carol".to_string(), "v2".to_string()).is_ok());
    assert_eq!(m.get_backups(&db, "carol".to_string()), "v2");
}

#[test]
fn proposal_is_sorted_and_repeatable() {
    let m = module();
    let mut db = SmolFSDb::new();
    for (k, v) in [("zed", "1"), ("amy", "2"), ("Bob", "3"), ("am", "4"), ("émile", "5")] {
        apply_one_input(&m, &mut db, input(k, v)).unwrap();
    }
    let first = m.consensus_proposal(&db);
    let second = m.consensus_proposal(&db);
    assert_eq!(first, second);
    let keys: Vec<String> = first.iter().map(|c| c.0.pubkey.clone()).collect();
    let mut sorted = keys.clone();
    sorted.sort();
    assert_eq!(keys, sorted);
    assert_eq!(keys, vec!["Bob", "am", "amy", "zed", "émile"]);
}

#[test]
fn proposal_leaves_out_agreed_entries() {
    let m = module();
    let mut db = SmolFSDb::new();
    apply_one_input(&m, &mut db, input("a", "1")).unwrap();
    apply_one_input(&m, &mut db, input("b", "2")).unwrap();
    m.begin_consensus_epoch(&mut db, vec![(PeerId(1), SmolFSOutputConfirmation(entry("a", "1")))]);
    assert_eq!(pairs(&m.consensus_proposal(&db)), vec![("b".to_string(), "2".to_string())]);
    apply_one_input(&m, &mut db, input("a", "changed")).unwrap();
    assert_eq!(
        pairs(&m.consensus_proposal(&db)),
        vec![("a".to_string(), "changed".to_string()), ("b".to_string(), "2".to_string())]
    );
}

#[test]
fn epoch_replay_gives_same_entries() {
    let m = module();
    let items = vec![
        (PeerId(0), SmolFSOutputConfirmation(entry("k", "first"))),
        (PeerId(1), SmolFSOutputConfirmation(entry("j", "x"))),
        (PeerId(2), SmolFSOutputConfirmation(entry("k", "second"))),
    ];
    let mut once = SmolFSDb::new();
    m.begin_consensus_epoch(&mut once, items.clone());
    let mut twice = SmolFSDb::new();
    m.begin_consensus_epoch(&mut twice, items.clone());
    m.begin_consensus_epoch(&mut twice, items);
    for k in ["k", "j", "absent"] {
        assert_eq!(m.get_backups(&once, k.to_string()), m.get_backups(&twice, k.to_string()));
    }
    assert_eq!(m.get_backups(&once, "k".to_string()), "second");
    assert!(m.consensus_proposal(&twice).is_empty());
}

#[test]
fn empty_epoch_changes_nothing() {
    let m = module();
    let mut db = SmolFSDb::new();
    apply_one_input(&m, &mut db, input("a", "1")).unwrap();
    m.begin_consensus_epoch(&mut db, vec![]);
    assert_eq!(m.get_backups(&db, "a".to_string()), "1");
    assert_eq!(pairs(&m.consensus_proposal(&db)), vec![("a".to_string(), "1".to_string())]);
}

#[test]
fn second_output_at_point_is_protocol_violation_even_if_malformed() {
    let m = module();
    let mut db = SmolFSDb::new();
    let p = point(1, 0);
    assert!(m.apply_output(&mut db, &output("x", "y"), p).is_ok());
    assert_eq!(m.apply_output(&mut db, &output("", "y"), p), Err(ModuleError::ProtocolViolation));
    assert!(m.apply_output(&mut db, &output("x", "z"), point(1, 1)).is_ok());
}

#[test]
fn cache_is_pure_and_keeps_last_payload() {
    let m = module();
    let mut db = SmolFSDb::new();
    apply_one_input(&m, &mut db, input("alice", "stored")).unwrap();
    let batch = vec![input("alice", "one"), input("bob", "b"), input("alice", "two")];
    let c1 = m.build_verification_cache(&batch);
    let c2 = m.build_verification_cache(&batch);
    for k in ["alice", "bob", "carol"] {
        assert_eq!(c1.lookup(&k.to_string()), c2.lookup(&k.to_string()));
    }
    assert_eq!(c1.lookup(&"alice".to_string()), Some("two".to_string()));
    assert_eq!(c1.lookup(&"carol".to_string()), None);
    assert_eq!(m.get_backups(&db, "alice".to_string()), "stored");
    assert_eq!(m.get_backups(&db, "bob".to_string()), "");
}

#[test]
fn validation_leaves_store_unchanged() {
    let m = module();
    let mut db = SmolFSDb::new();
    apply_one_input(&m, &mut db, input("alice", "a1")).unwrap();
    let batch = vec![input("alice", "a2"), input("bob", "b1"), input("", "bad")];
    let cache = m.build_verification_cache(&batch);
    for i in &batch {
        let _ = m.validate_input(&db, &cache, i);
    }
    assert_eq!(m.get_backups(&db, "alice".to_string()), "a1");
    assert_eq!(m.get_backups(&db, "bob".to_string()), "");
}

#[test]
fn malformed_and_oversized_inputs_are_refused() {
    let m = module();
    let mut db = SmolFSDb::new();
    let cache = m.build_verification_cache(&[]);
    assert_eq!(m.validate_input(&db, &cache, &input("", "x")), Err(ModuleError::MalformedInput));
    let big = "x".repeat(MAX_BACKUP_LEN + 1);
    assert_eq!(m.validate_input(&db, &cache, &input("k", &big)), Err(ModuleError::PolicyViolation));
    let edge = "é".repeat(MAX_BACKUP_LEN);
    assert!(m.validate_input(&db, &cache, &input("k", &edge)).is_ok());
    assert_eq!(m.validate_output(&db, &output("", "x")), Err(ModuleError::MalformedInput));
    assert_eq!(m.validate_output(&db, &output("k", &big)), Err(ModuleError::PolicyViolation));
    assert_eq!(apply_one_input(&m, &mut db, input("", "x")), Err(ModuleError::MalformedInput));
    assert_eq!(m.get_backups(&db, "".to_string()), "");
    assert_eq!(m.apply_output(&mut db, &output("k", &big), point(3, 0)), Err(ModuleError::PolicyViolation));
    assert_eq!(m.output_status(&db, point(3, 0)), None);
    assert_eq!(m.put_backups(&mut db, "".to_string(), "x".to_string()), Err(ModuleError::MalformedInput));
}

#[test]
fn put_replies_and_records_owner_outcome() {
    let m = module();
    let mut db = SmolFSDb::new();
    let reply = m.put_backups(&mut db, "alice".to_string(), "blob".to_string());
    assert_eq!(reply, Ok("<put backups> alice blob".to_string()));
    let p = OutPoint { txid: TransactionId(ALICE_DIGEST), out_idx: 0 };
    assert_eq!(owner_out_point(&"alice".to_string()), p);
    assert_eq!(m.output_status(&db, p), Some(SmolFSOutputOutcome(TransactionId(ALICE_DIGEST))));
    assert!(m.put_backups(&mut db, "alice".to_string(), "again".to_string()).is_ok());
    assert_eq!(m.get_backups(&db, "alice".to_string()), "again");
}

#[test]
fn owner_point_is_digest_of_key() {
    let p = owner_out_point(&"pubkey".to_string());
    assert_eq!(p.txid, TransactionId(PUBKEY_DIGEST));
    assert_eq!(p.out_idx, 0);
    assert_ne!(owner_out_point(&"bob".to_string()).txid, p.txid);
}

#[test]
fn end_epoch_and_audit_do_nothing() {
    let m = module();
    let db = SmolFSDb::new();
    assert!(m.end_consensus_epoch(&[PeerId(1), PeerId(2)], &db).is_empty());
    let mut audit = Audit { net_assets_msats: 5 };
    m.audit(&db, &mut audit);
    assert_eq!(audit, Audit { net_assets_msats: 5 });
}

#[test]
fn put_request_is_split_on_whitespace() {
    assert_eq!(
        parse_put_params(&"alice backup-v1".to_string()),
        Some(("alice".to_string(), "backup-v1".to_string()))
    );
    assert_eq!(
        parse_put_params(&"  \tbob\n b1  extra".to_string()),
        Some(("bob".to_string(), "b1".to_string()))
    );
    assert_eq!(parse_put_params(&"onlyone".to_string()), None);
    assert_eq!(parse_put_params(&"   ".to_string()), None);
    assert_eq!(parse_put_params(&"".to_string()), None);
}

#[test]
fn api_put_then_get() {
    let m = module();
    let mut db = SmolFSDb::new();
    assert_eq!(
        m.api_put(&mut db, &"carol v1".to_string()),
        Ok("<put backups> carol v1".to_string())
    );
    assert_eq!(m.api_put(&mut db, &"carol".to_string()), Err(ModuleError::MalformedInput));
    assert_eq!(m.get_backups(&db, "carol".to_string()), "v1");
}
