use iris_core::ipfs::{
    ipfs_update_configs, Config, Configuration, Error, Event, IpfsConfigKey, Pallet, Worker,
};
use iris_core::rpc::{Error as RpcError, Iris};
use std::sync::Arc;

#[test]
fn identity_is_bound_to_first_account() {
    let mut p = Pallet::new();
    let key = b"12D3KooW".to_vec();
    let r = p.submit_ipfs_identity(1, key.clone(), vec![b"/ip4/a".to_vec()]);
    assert_eq!(r, Ok(Event::IdentitySubmitted(1)));
    assert_eq!(p.account_of(&key), Some(1));
    assert_eq!(p.submit_ipfs_identity(2, key.clone(), vec![]), Err(Error::InvalidPublicKey));
    assert_eq!(p.account_of(&key), Some(1));
    assert_eq!(p.submit_ipfs_identity(1, key.clone(), vec![]), Ok(Event::IdentitySubmitted(1)));
    assert_eq!(p.account_of(&b"other".to_vec()), None);
    assert!(p.submit_ipfs_identity(2, b"other".to_vec(), vec![]).is_ok());
    assert_eq!(p.account_of(&b"other".to_vec()), Some(2));
}

#[test]
fn storage_reports_replace_earlier_ones() {
    let mut p = Pallet::new();
    assert_eq!(p.stats(3), 0);
    assert_eq!(p.submit_config_complete(3, 100), Event::ConfigurationSyncSubmitted(3));
    p.submit_config_complete(3, 250);
    assert_eq!(p.stats(3), 250);
}

#[test]
fn worker_gates_steps() {
    let mut p = Pallet::new();
    let key = b"node".to_vec();
    p.submit_ipfs_identity(9, key.clone(), vec![]).unwrap();
    let mut w = Worker::new(&Config { node_config_block_duration: 4 });
    let plan = w.offchain_worker(8, true);
    assert!(!plan.process_ingestion && !plan.sync_config && !plan.process_ejection);
    assert!(Worker::liveness_due(0));
    assert!(Worker::liveness_due(10));
    assert!(!Worker::liveness_due(11));
    w.record_liveness(&p, Some(&key));
    let plan = w.offchain_worker(8, true);
    assert!(plan.process_ingestion && plan.sync_config && plan.process_ejection);
    let plan = w.offchain_worker(9, true);
    assert!(plan.process_ingestion && !plan.sync_config);
    let plan = w.offchain_worker(8, false);
    assert!(!plan.process_ingestion && !plan.sync_config);
    w.record_liveness(&p, None);
    assert!(!w.daemon_available);
    assert!(!w.offchain_worker(8, true).process_ingestion);
    w.record_liveness(&p, Some(&b"unknown".to_vec()));
    assert_eq!(w.account, None);
    assert!(!w.offchain_worker(8, true).process_ingestion);
}

#[test]
fn zero_period_never_syncs() {
    let mut p = Pallet::new();
    p.submit_ipfs_identity(9, b"node".to_vec(), vec![]).unwrap();
    let mut w = Worker::new(&Config { node_config_block_duration: 0 });
    w.record_liveness(&p, Some(&b"node".to_vec()));
    let plan = w.offchain_worker(0, true);
    assert!(!plan.sync_config);
    assert!(plan.process_ingestion);
}

#[test]
fn config_request_writes_decimal_quota() {
    let r = ipfs_update_configs(1024);
    assert!(r.key == IpfsConfigKey::StorageMax);
    assert_eq!(r.key.as_ref(), "Datastore.StorageMax");
    assert_eq!(r.value, b"1024".to_vec());
    assert!(r.boolean.is_none() && r.json.is_none());
    assert_eq!(ipfs_update_configs(0).value, b"0".to_vec());
    assert_eq!(ipfs_update_configs(u128::MAX).value, u128::MAX.to_string().into_bytes());
}

#[test]
fn configuration_defaults() {
    let c = Configuration::default();
    assert_eq!(c.storage_config, 0);
    assert!(!c.ready);
}

#[test]
fn rpc_error_codes() {
    assert_eq!(i64::from(RpcError::RuntimeError), 1);
    assert_eq!(i64::from(RpcError::DecodeError), 2);
}

#[test]
fn rpc_handle_keeps_client() {
    let client = Arc::new(5u32);
    let h: Iris<u32, ()> = Iris::new(client.clone());
    assert!(Arc::ptr_eq(h.client(), &client));
}
