use smolfs::ledger::{Amount, TransactionItemAmount};
use smolfs::request::parse_put_params;
use smolfs::smolfs::{SmolFS, SmolFSEntry, SmolFSInput, SmolFSOutput};
use smolfs::smolfs_client::SmolFSClient;
use smolfs::smolfs_config::{SmolFSClientConfig, SmolFSConfig, SmolFSConfigConsensus, SmolFSConfigLocal};
use smolfs::smolfs_db::SmolFSDb;

fn client() -> SmolFSClient {
    SmolFSClient { config: SmolFSClientConfig { merkle_root: vec![4, 2] } }
}

#[test]
fn client_amounts_are_zero() {
    let c = client();
    let zero = TransactionItemAmount { amount: Amount { msats: 0 }, fee: Amount { msats: 0 } };
    let e = SmolFSEntry { pubkey: "k".to_string(), backup: "v".to_string() };
    assert_eq!(c.input_amount(&SmolFSInput(Box::new(e.clone()))), zero);
    assert_eq!(c.output_amount(&SmolFSOutput(Box::new(e))), zero);
}

#[test]
fn add_entry_request_reads_back() {
    let c = client();
    let req = c.add_entry_request(&"pubkey".to_string(), &"backup".to_string());
    assert_eq!(req, "pubkey backup");
    assert_eq!(parse_put_params(&req), Some(("pubkey".to_string(), "backup".to_string())));
}

#[test]
fn client_reads_local_entry() {
    let m = SmolFS::new(SmolFSConfig {
        local: SmolFSConfigLocal { pubkey: String::new(), backup: String::new() },
        consensus: SmolFSConfigConsensus { merkle_root: vec![] },
    });
    let mut db = SmolFSDb::new();
    m.api_put(&mut db, &client().add_entry_request(&"dave".to_string(), &"d1".to_string())).unwrap();
    assert_eq!(client().get_entry(&db, "dave".to_string()), "d1");
    assert_eq!(client().get_entry(&db, "erin".to_string()), "");
}
