//! Leader/worker key synchronization.

use star_randsrv::clock::{parse_timestamp, Timestamp};
use star_randsrv::config::Config;
use star_randsrv::duration::EpochDuration;
use star_randsrv::handler::{self, get_ppoprf_private_key, RandomnessRequest};
use star_randsrv::result::Error;
use star_randsrv::state::OPRFServer;
use star_randsrv::update::RotationOutcome;

const BASEPOINT: [u8; 32] = [
    0xe2, 0xf2, 0xae, 0x0a, 0x6a, 0xbc, 0x4e, 0x71, 0xa8, 0x84, 0xa9, 0x61, 0xc5, 0x00, 0x51,
    0x5f, 0x58, 0xe3, 0x0b, 0x6a, 0xa5, 0x82, 0xdd, 0x8d, 0xb6, 0xa6, 0x59, 0x45, 0xe0, 0x8d,
    0x2d, 0x76,
];

/// The shape of one record of a key payload.
type KeyRecord = (String, Vec<u8>, u8);

fn seconds(n: u32) -> EpochDuration {
    EpochDuration {
        negative: false,
        years: 0,
        months: 0,
        weeks: 0,
        days: 0,
        hours: 0,
        minutes: 0,
        seconds: n,
    }
}

fn ts(stamp: &str) -> Timestamp {
    parse_timestamp(stamp).expect("well-known timestamp format should always parse")
}

fn sync_config(names: &[&str], base: &str, first: u8, last: u8, port: u16) -> Config {
    Config {
        listen: "127.0.0.1:8082".to_string(),
        instance_names: names.iter().map(|n| n.to_string()).collect(),
        epoch_durations: names.iter().map(|_| seconds(10)).collect(),
        first_epoch: first,
        last_epoch: last,
        epoch_base_time: Some(ts(base)),
        increase_nofile_limit: false,
        prometheus_listen: None,
        enclave_key_sync: true,
        nitriding_internal_port: Some(port),
    }
}

fn valid_point() -> String {
    base64::Engine::encode(&base64::prelude::BASE64_STANDARD, BASEPOINT)
}

const T0: &str = "2023-03-22T21:00:00Z";

#[test]
fn test_enclave_leader() {
    let now = ts(T0);
    let config = sync_config(&["main", "secondary"], T0, 12, 24, 8083);
    let mut leader = OPRFServer::new(config, &now).expect("server construction should succeed");

    assert!(leader.instances[0].instance.is_none());
    assert!(leader.instances[1].instance.is_none());
    assert!(leader.is_leader.is_none());

    let payload = get_ppoprf_private_key(&mut leader, &now).expect("export should succeed");
    assert!(!payload.is_empty());
    assert_eq!(leader.is_leader, Some(true));

    let records: Vec<KeyRecord> =
        bincode::deserialize(&payload).expect("payload should deserialize");
    assert_eq!(records.len(), 2);
    assert_eq!(records[0].0, "main");
    assert_eq!(records[1].0, "secondary");
    for (record, slot) in records.iter().zip(leader.instances.iter()) {
        let inst = slot.instance.as_ref().expect("export populates every slot");
        assert_eq!(record.2, inst.epoch);
        assert!(!record.1.is_empty());
    }

    // Exporting again without an intervening rotation yields the
    // identical payload.
    let again = get_ppoprf_private_key(&mut leader, &now).expect("export should succeed");
    assert_eq!(payload, again);
}

#[test]
fn test_enclave_worker() {
    let now = ts(T0);
    let config = sync_config(&["main", "secondary"], T0, 12, 24, 8085);
    let mut worker =
        OPRFServer::new(config.clone(), &now).expect("server construction should succeed");
    assert!(worker.is_leader.is_none());

    // Key material produced outside this registry, as the host would
    // push it from a leader enclave.
    let mut records: Vec<KeyRecord> = Vec::new();
    let mut mock_servers = Vec::new();
    for name in ["main", "secondary"] {
        let server = ppoprf::ppoprf::Server::new((12..=24).collect())
            .expect("mock PPOPRF construction should succeed");
        let key = bincode::serialize(&server.get_private_key())
            .expect("mock key state should serialize");
        records.push((name.to_string(), key, 12));
        mock_servers.push(server);
    }
    let payload = bincode::serialize(&records).expect("payload should serialize");

    worker.set_private_keys(&payload, &now).expect("import should succeed");
    assert_eq!(worker.is_leader, Some(false));

    for ((slot, record), mock) in worker.instances.iter().zip(&records).zip(&mock_servers) {
        let inst = slot.instance.as_ref().expect("import populates matching slots");
        assert_eq!(inst.epoch, record.2);
        // The instance now serves under the pushed key: its public
        // key is the mock server's.
        let resp = handler::info(&worker, &slot.name).expect("info should succeed");
        let expected = bincode::serialize(&mock.get_public_key())
            .expect("mock public key should serialize");
        let got = base64::Engine::decode(&base64::prelude::BASE64_STANDARD, &resp.public_key)
            .expect("public key should be base64");
        assert_eq!(got, expected);
    }

    // The worker serves requests with the installed keys.
    let resp = handler::randomness(
        &worker,
        &"main".to_string(),
        &RandomnessRequest { points: vec![valid_point()], epoch: None },
    )
    .expect("evaluation should succeed");
    assert_eq!(resp.epoch, 12);
}

#[test]
fn export_import_export_yields_identical_bytes() {
    let now = ts(T0);
    let config = sync_config(&["main", "secondary"], T0, 12, 24, 8083);

    let mut leader =
        OPRFServer::new(config.clone(), &now).expect("server construction should succeed");
    let payload = get_ppoprf_private_key(&mut leader, &now).expect("export should succeed");

    let mut mirror = OPRFServer::new(config, &now).expect("server construction should succeed");
    mirror.set_private_keys(&payload, &now).expect("import should succeed");

    // Both processes now hold the same public keys.
    let leader_info = handler::info(&leader, &"main".to_string()).expect("info should succeed");
    let mirror_info = handler::info(&mirror, &"main".to_string()).expect("info should succeed");
    assert_eq!(leader_info.public_key, mirror_info.public_key);

    // Re-exporting the mirrored keys reproduces the payload byte for
    // byte. The mirror's latched worker role would refuse an export,
    // so stand up the export path as a fresh process would see it.
    mirror.is_leader = None;
    let reexport = get_ppoprf_private_key(&mut mirror, &now).expect("export should succeed");
    assert_eq!(payload, reexport);
}

#[test]
fn roles_latch_on_first_use() {
    let now = ts(T0);
    let config = sync_config(&["main"], T0, 12, 24, 8083);

    // A latched leader refuses imports.
    let mut leader =
        OPRFServer::new(config.clone(), &now).expect("server construction should succeed");
    let payload = get_ppoprf_private_key(&mut leader, &now).expect("export should succeed");
    match leader.set_private_keys(&payload, &now) {
        Err(Error::InvalidPrivateKeyCall) => {
            assert_eq!(Error::InvalidPrivateKeyCall.status_code(), 400);
        }
        other => panic!("expected invalid-call, got {other:?}"),
    }
    assert_eq!(leader.is_leader, Some(true));

    // A latched worker refuses exports.
    let mut worker =
        OPRFServer::new(config.clone(), &now).expect("server construction should succeed");
    worker.set_private_keys(&payload, &now).expect("import should succeed");
    match worker.get_private_keys() {
        Err(Error::InvalidPrivateKeyCall) => {}
        other => panic!("expected invalid-call, got {other:?}"),
    }
    assert_eq!(worker.is_leader, Some(false));

    // A garbage payload is rejected as a caller-visible error with
    // no state change: no role latches and no slot fills.
    let mut confused =
        OPRFServer::new(config, &now).expect("server construction should succeed");
    match confused.set_private_keys(&vec![0xde, 0xad, 0xbe, 0xef], &now) {
        Err(Error::KeySerialization) => {
            assert_eq!(Error::KeySerialization.status_code(), 500);
        }
        other => panic!("expected key-serialization error, got {other:?}"),
    }
    assert!(confused.is_leader.is_none());
    assert!(confused.instances[0].instance.is_none());
}

#[test]
fn records_for_other_epochs_are_skipped() {
    let now = ts(T0);
    let config = sync_config(&["main"], T0, 12, 24, 8085);

    // Into an empty slot: the record's epoch must match the schedule.
    let mut worker =
        OPRFServer::new(config.clone(), &now).expect("server construction should succeed");
    let server = ppoprf::ppoprf::Server::new((12..=24).collect())
        .expect("mock PPOPRF construction should succeed");
    let key = bincode::serialize(&server.get_private_key())
        .expect("mock key state should serialize");
    let stale: Vec<KeyRecord> = vec![("main".to_string(), key.clone(), 13)];
    let payload = bincode::serialize(&stale).expect("payload should serialize");
    worker.set_private_keys(&payload, &now).expect("import should succeed");
    assert!(worker.instances[0].instance.is_none());

    // Into a populated slot: a mismatched epoch leaves the key alone.
    let fitting: Vec<KeyRecord> = vec![("main".to_string(), key, 12)];
    let payload = bincode::serialize(&fitting).expect("payload should serialize");
    worker.set_private_keys(&payload, &now).expect("import should succeed");
    let installed = handler::info(&worker, &"main".to_string()).expect("info should succeed");

    let other = ppoprf::ppoprf::Server::new((12..=24).collect())
        .expect("mock PPOPRF construction should succeed");
    let other_key = bincode::serialize(&other.get_private_key())
        .expect("mock key state should serialize");
    let mismatched: Vec<KeyRecord> = vec![("main".to_string(), other_key, 14)];
    let payload = bincode::serialize(&mismatched).expect("payload should serialize");
    worker.set_private_keys(&payload, &now).expect("import should succeed");
    let after = handler::info(&worker, &"main".to_string()).expect("info should succeed");
    assert_eq!(installed.public_key, after.public_key);

    // Records for unknown instances change nothing.
    let stranger: Vec<KeyRecord> =
        vec![("stranger".to_string(), vec![1, 2, 3], 12)];
    let payload = bincode::serialize(&stranger).expect("payload should serialize");
    worker.set_private_keys(&payload, &now).expect("import should succeed");
    let untouched = handler::info(&worker, &"main".to_string()).expect("info should succeed");
    assert_eq!(installed.public_key, untouched.public_key);
}

#[test]
fn test_leader_updates_keys_with_nitriding() {
    let now = ts(T0);
    let config = sync_config(&["main"], T0, 12, 13, 8087);
    let mut leader = OPRFServer::new(config, &now).expect("server construction should succeed");

    let first_payload = get_ppoprf_private_key(&mut leader, &now).expect("export should succeed");

    let outcome = leader
        .rotate_instance(0, &ts("2023-03-22T21:00:10Z"))
        .expect("rotation should succeed");
    assert_eq!(outcome, RotationOutcome::Advanced);

    let outcome = leader
        .rotate_instance(0, &ts("2023-03-22T21:00:20Z"))
        .expect("rotation should succeed");
    assert_eq!(outcome, RotationOutcome::Rebuilt);

    // After the rebuild the scheduler pushes the new keys to the
    // host: the payload it would send carries the post-rebuild epoch
    // and fresh key material.
    let pushed =
        get_ppoprf_private_key(&mut leader, &ts("2023-03-22T21:00:20Z")).expect("export");
    assert_ne!(first_payload, pushed);
    let records: Vec<KeyRecord> =
        bincode::deserialize(&pushed).expect("payload should deserialize");
    assert_eq!(records.len(), 1);
    assert_eq!(records[0].2, 12);
}

#[test]
fn workers_pause_when_their_range_is_exhausted() {
    let now = ts(T0);
    let config = sync_config(&["main"], T0, 12, 12, 8085);
    let mut worker =
        OPRFServer::new(config, &now).expect("server construction should succeed");

    let server = ppoprf::ppoprf::Server::new(vec![12])
        .expect("mock PPOPRF construction should succeed");
    let key = bincode::serialize(&server.get_private_key())
        .expect("mock key state should serialize");
    let records: Vec<KeyRecord> = vec![("main".to_string(), key, 12)];
    let payload = bincode::serialize(&records).expect("payload should serialize");
    worker.set_private_keys(&payload, &now).expect("import should succeed");
    assert!(worker.instances[0].instance.is_some());

    let outcome = worker
        .rotate_instance(0, &ts("2023-03-22T21:00:10Z"))
        .expect("rotation should succeed");
    assert_eq!(outcome, RotationOutcome::Paused);
    assert!(worker.instances[0].instance.is_none());

    match handler::randomness(
        &worker,
        &"main".to_string(),
        &RandomnessRequest { points: vec![valid_point()], epoch: None },
    ) {
        Err(Error::PPOPRFNotReady) => {}
        other => panic!("expected not-ready, got {other:?}"),
    }
}
