//! Modules that extend a federated ledger: the SmolFS backup module, which
//! maps an owner's public key to a backup blob through the lifecycle the host
//! drives each epoch (propose, apply agreed items, validate and apply inputs
//! and outputs, record outcomes), the no-op Dummy module, and the plain parts
//! of the threshold-encryption Simple module.

pub mod digest;
pub mod key_order;
pub mod ledger;
pub mod smolfs;
pub mod smolfs_config;
pub mod smolfs_db;
pub mod dummy;
pub mod simple;
pub mod request;
pub mod smolfs_client;
