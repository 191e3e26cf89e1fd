use iris_core::data_assets::{
    Error, Event, GenesisConfig, MetadataProvider, Pallet, QueueManager, ReleaseRequest,
    ResultsHandler, ValidatorOf,
};
use iris_core::ipfs::{plan_releases, IngestionStep, Pallet as Ledger, Worker, Config};
use iris_core::primitives::IngestionCommand;

fn command(owner: u64, cid: &str, locator: &str, size: u128, balance: u128) -> IngestionCommand {
    IngestionCommand {
        owner,
        cid: cid.as_bytes().to_vec(),
        multiaddress: locator.as_bytes().to_vec(),
        estimated_size_gb: size,
        balance,
    }
}

fn store() -> Pallet {
    Pallet::new(&GenesisConfig::default())
}

const OWNER: u64 = 1;
const GATEWAY: u64 = 7;
const OTHER_GATEWAY: u64 = 8;

#[test]
fn genesis_defaults() {
    let g = GenesisConfig::default();
    assert_eq!(g.initial_asset_id, 2);
    assert_eq!(g.delay, 10);
    let s = store();
    assert_eq!(s.next_asset_id(), 2);
    assert_eq!(s.delay(), 10);
    assert!(s.ingestion_requests(GATEWAY).is_empty());
}

#[test]
fn enqueue_keeps_order_and_duplicates() {
    let mut s = store();
    let e = s.create_request(OWNER, GATEWAY, b"QmA".to_vec(), b"/ip4/a".to_vec(), 1, 5);
    assert!(e == Event::CreatedIngestionRequest);
    s.create_request(2, GATEWAY, b"QmB".to_vec(), b"/ip4/b".to_vec(), 2, 6);
    s.create_request(OWNER, GATEWAY, b"QmA".to_vec(), b"/ip4/a".to_vec(), 1, 5);
    let q = s.ingestion_requests(GATEWAY);
    assert_eq!(q.len(), 3);
    assert!(q[0] == command(OWNER, "QmA", "/ip4/a", 1, 5));
    assert!(q[1] == command(2, "QmB", "/ip4/b", 2, 6));
    assert!(q[2] == command(OWNER, "QmA", "/ip4/a", 1, 5));
    assert!(s.ingestion_requests(OTHER_GATEWAY).is_empty());
}

#[test]
fn removing_absent_command_is_noop() {
    let mut s = store();
    s.create_request(OWNER, GATEWAY, b"QmA".to_vec(), b"/ip4/a".to_vec(), 1, 5);
    let absent = command(OWNER, "QmZ", "/ip4/a", 1, 5);
    assert!(!s.remove_request(GATEWAY, &absent));
    assert_eq!(s.ingestion_requests(GATEWAY).len(), 1);
    assert!(!s.remove_request(OTHER_GATEWAY, &absent));
    assert!(s.ingestion_requests(OTHER_GATEWAY).is_empty());
    // a report for it changes nothing either
    s.add_ingestion_staging(OWNER, b"pk".to_vec());
    assert_eq!(s.create_asset_class(GATEWAY, &absent), Ok(None));
    assert_eq!(s.next_asset_id(), 2);
    assert!(s.get(2).is_none());
}

#[test]
fn removing_removes_first_match_only() {
    let mut s = store();
    s.create_request(OWNER, GATEWAY, b"QmA".to_vec(), b"/ip4/a".to_vec(), 1, 5);
    s.create_request(2, GATEWAY, b"QmB".to_vec(), b"/ip4/b".to_vec(), 2, 6);
    s.create_request(OWNER, GATEWAY, b"QmA".to_vec(), b"/ip4/a".to_vec(), 1, 5);
    assert!(s.remove_request(GATEWAY, &command(OWNER, "QmA", "/ip4/a", 1, 5)));
    let q = s.ingestion_requests(GATEWAY);
    assert_eq!(q.len(), 2);
    assert!(q[0] == command(2, "QmB", "/ip4/b", 2, 6));
    assert!(q[1] == command(OWNER, "QmA", "/ip4/a", 1, 5));
}

#[test]
fn staging_twice_keeps_second_key() {
    let mut s = store();
    s.add_ingestion_staging(OWNER, b"key-one".to_vec());
    s.add_ingestion_staging(OWNER, b"key-two".to_vec());
    s.create_request(OWNER, GATEWAY, b"QmA".to_vec(), b"/ip4/a".to_vec(), 1, 5);
    let id = s.create_asset_class(GATEWAY, &command(OWNER, "QmA", "/ip4/a", 1, 5));
    assert_eq!(id, Ok(Some(2)));
    assert_eq!(s.get(2).unwrap().public_key, b"key-two".to_vec());
}

#[test]
fn two_reports_register_one_asset() {
    let mut s = store();
    let ledger = Ledger::new();
    s.create_request(OWNER, GATEWAY, b"QmA".to_vec(), b"/ip4/a".to_vec(), 1, 5);
    s.create_request(OWNER, OTHER_GATEWAY, b"QmA".to_vec(), b"/ip4/a".to_vec(), 1, 5);
    s.add_ingestion_staging(OWNER, b"pk".to_vec());
    let cmd = command(OWNER, "QmA", "/ip4/a", 1, 5);
    assert_eq!(ledger.submit_ingestion_completed(&mut s, GATEWAY, &cmd), Ok(Some(2)));
    assert_eq!(ledger.submit_ingestion_completed(&mut s, OTHER_GATEWAY, &cmd), Ok(None));
    assert_eq!(ledger.submit_ingestion_completed(&mut s, GATEWAY, &cmd), Ok(None));
    assert_eq!(s.next_asset_id(), 3);
    assert!(s.get(2).is_some());
    assert!(s.get(3).is_none());
    assert!(s.ingestion_requests(GATEWAY).is_empty());
}

#[test]
fn report_without_staged_data_keeps_command_queued() {
    let mut s = store();
    s.create_request(OWNER, GATEWAY, b"QmA".to_vec(), b"/ip4/a".to_vec(), 1, 5);
    let cmd = command(OWNER, "QmA", "/ip4/a", 1, 5);
    assert_eq!(s.create_asset_class(GATEWAY, &cmd), Ok(None));
    assert_eq!(s.ingestion_requests(GATEWAY).len(), 1);
    assert_eq!(s.next_asset_id(), 2);
}

#[test]
fn exhausted_asset_ids_fail_and_keep_state() {
    let mut s = Pallet::new(&GenesisConfig { initial_asset_id: u32::MAX, delay: 0 });
    s.create_request(OWNER, GATEWAY, b"QmA".to_vec(), b"/ip4/a".to_vec(), 1, 5);
    s.add_ingestion_staging(OWNER, b"pk".to_vec());
    let cmd = command(OWNER, "QmA", "/ip4/a", 1, 5);
    assert_eq!(s.create_asset_class(GATEWAY, &cmd), Err(Error::CantCreateAssetClass));
    assert_eq!(s.ingestion_requests(GATEWAY).len(), 1);
    assert_eq!(s.next_asset_id(), u32::MAX);
    // the staged key is still there: a later report can succeed
    assert!(s.get(u32::MAX).is_none());
}

fn run_ingestion(fetch_ok: bool) -> IngestionStep {
    let mut step = IngestionStep::Connect;
    step = step.next(true);
    assert!(step == IngestionStep::Fetch);
    step = step.next(fetch_ok);
    step = step.next(true);
    step
}

#[test]
fn scenario_single_ingestion() {
    let mut s = store();
    let mut ledger = Ledger::new();
    let node_key = b"NodeKey".to_vec();
    assert!(ledger.submit_ipfs_identity(GATEWAY, node_key.clone(), vec![]).is_ok());
    s.create_request(
        OWNER,
        GATEWAY,
        b"Qm123".to_vec(),
        b"/ip4/1.2.3.4/tcp/4001/p2p/Node1".to_vec(),
        10,
        1,
    );
    s.add_ingestion_staging(OWNER, b"owner-pk".to_vec());
    let mut worker = Worker::new(&Config { node_config_block_duration: 10 });
    assert!(Worker::liveness_due(5));
    worker.record_liveness(&ledger, Some(&node_key));
    assert_eq!(worker.account, Some(GATEWAY));
    let plan = worker.offchain_worker(5, true);
    assert!(plan.process_ingestion);
    let queue = s.ingestion_requests(GATEWAY);
    assert_eq!(queue.len(), 1);
    for cmd in queue.iter() {
        assert!(run_ingestion(true) == IngestionStep::Report);
        let r = ledger.submit_ingestion_completed(&mut s, GATEWAY, cmd);
        assert_eq!(r, Ok(Some(2)));
    }
    assert!(s.ingestion_requests(GATEWAY).is_empty());
    assert_eq!(s.get(2).unwrap().cid, b"Qm123".to_vec());
}

#[test]
fn scenario_duplicate_enqueue() {
    let mut s = store();
    let ledger = Ledger::new();
    for _ in 0..2 {
        s.create_request(OWNER, GATEWAY, b"Qm123".to_vec(), b"/ip4/1.2.3.4".to_vec(), 10, 1);
    }
    s.add_ingestion_staging(OWNER, b"owner-pk".to_vec());
    let queue = s.ingestion_requests(GATEWAY);
    assert_eq!(queue.len(), 2);
    let mut registered = Vec::new();
    for cmd in queue.iter() {
        if let Ok(Some(id)) = ledger.submit_ingestion_completed(&mut s, GATEWAY, cmd) {
            registered.push(id);
        }
    }
    assert_eq!(registered, vec![2]);
    assert!(s.get(3).is_none());
    assert_eq!(s.next_asset_id(), 3);
}

#[test]
fn fetch_failure_skips_report() {
    assert!(run_ingestion(false) == IngestionStep::Skip);
    assert!(IngestionStep::Connect.next(false) == IngestionStep::Skip);
    assert!(IngestionStep::Report.next(false) == IngestionStep::Done);
    assert!(IngestionStep::Skip.next(true) == IngestionStep::Skip);
}

#[test]
fn release_queue_serves_only_known_assets() {
    let mut s = store();
    s.create_request(OWNER, GATEWAY, b"Qm1".to_vec(), b"/ip4/a".to_vec(), 1, 5);
    s.add_ingestion_staging(OWNER, b"pk".to_vec());
    let cmd = command(OWNER, "Qm1", "/ip4/a", 1, 5);
    assert_eq!(s.create_asset_class(GATEWAY, &cmd), Ok(Some(2)));
    s.request_release(30, 2);
    s.request_release(31, 9);
    s.request_release(32, 2);
    let pending = s.release_requests();
    assert_eq!(pending.len(), 3);
    let plan = plan_releases(&s, &pending);
    assert_eq!(plan.len(), 2);
    assert_eq!((plan[0].requester, plan[0].asset_id), (30, 2));
    assert_eq!(plan[0].cid, b"Qm1".to_vec());
    assert_eq!(plan[1].requester, 32);
    assert!(s.complete_release(ReleaseRequest { requester: 30, asset_id: 2 }));
    assert!(!s.complete_release(ReleaseRequest { requester: 30, asset_id: 2 }));
    let left = s.release_requests();
    assert_eq!(left, vec![ReleaseRequest { requester: 31, asset_id: 9 }, ReleaseRequest { requester: 32, asset_id: 2 }]);
    let drained = s.drain_release_requests();
    assert_eq!(drained.len(), 2);
    assert!(s.release_requests().is_empty());
}

#[test]
fn validator_designates_itself() {
    assert_eq!(ValidatorOf::convert(4), Some(4));
}

#[test]
fn only_the_owner_cancels() {
    let mut s = store();
    s.create_request(OWNER, GATEWAY, b"QmA".to_vec(), b"/ip4/a".to_vec(), 1, 5);
    let cmd = command(OWNER, "QmA", "/ip4/a", 1, 5);
    assert!(!s.kill_request(2, GATEWAY, &cmd));
    assert_eq!(s.ingestion_requests(GATEWAY).len(), 1);
    assert!(s.kill_request(OWNER, GATEWAY, &cmd));
    assert!(s.ingestion_requests(GATEWAY).is_empty());
    assert!(!s.kill_request(OWNER, GATEWAY, &cmd));
    // a report for the cancelled command is a no-op
    s.add_ingestion_staging(OWNER, b"pk".to_vec());
    assert_eq!(Ledger::new().submit_ingestion_completed(&mut s, GATEWAY, &cmd), Ok(None));
    assert!(s.get(2).is_none());
}

#[test]
fn taking_staged_key_empties_the_slot() {
    let mut s = store();
    assert_eq!(s.take_staged(OWNER), None);
    s.add_ingestion_staging(OWNER, b"pk".to_vec());
    assert_eq!(s.take_staged(OWNER), Some(b"pk".to_vec()));
    assert_eq!(s.take_staged(OWNER), None);
    s.create_request(OWNER, GATEWAY, b"QmA".to_vec(), b"/ip4/a".to_vec(), 1, 5);
    let cmd = command(OWNER, "QmA", "/ip4/a", 1, 5);
    assert_eq!(s.create_asset_class(GATEWAY, &cmd), Ok(None));
}

#[test]
fn new_asset_ids_are_fresh() {
    let mut s = store();
    for n in 0..3u8 {
        let cid = format!("Qm{}", n);
        s.create_request(OWNER, GATEWAY, cid.as_bytes().to_vec(), b"/ip4/a".to_vec(), 1, 5);
        s.add_ingestion_staging(OWNER, vec![n]);
        let id = s.create_asset_class(GATEWAY, &command(OWNER, &cid, "/ip4/a", 1, 5));
        assert_eq!(id, Ok(Some(2 + n as u32)));
    }
    for n in 0..3u8 {
        let m = s.get(2 + n as u32).unwrap();
        assert_eq!(m.cid, format!("Qm{}", n).into_bytes());
        assert_eq!(m.public_key, vec![n]);
    }
    assert!(s.get(5).is_none());
}
