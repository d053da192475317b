//! Request-handling behaviour: evaluation, metadata, error taxonomy.

use star_randsrv::clock::parse_timestamp;
use star_randsrv::clock::Timestamp;
use star_randsrv::config::Config;
use star_randsrv::duration::EpochDuration;
use star_randsrv::handler::{self, RandomnessRequest};
use star_randsrv::result::Error;
use star_randsrv::state::OPRFServer;
use star_randsrv::{welcome_message, MAX_POINTS};

/// Compressed encoding of the Ristretto base point: a valid point.
const BASEPOINT: [u8; 32] = [
    0xe2, 0xf2, 0xae, 0x0a, 0x6a, 0xbc, 0x4e, 0x71, 0xa8, 0x84, 0xa9, 0x61, 0xc5, 0x00, 0x51,
    0x5f, 0x58, 0xe3, 0x0b, 0x6a, 0xa5, 0x82, 0xdd, 0x8d, 0xb6, 0xa6, 0x59, 0x45, 0xe0, 0x8d,
    0x2d, 0x76,
];

fn seconds(n: u32) -> EpochDuration {
    EpochDuration {
        negative: false,
        years: 0,
        months: 0,
        weeks: 0,
        days: 0,
        hours: 0,
        minutes: 0,
        seconds: n,
    }
}

fn ts(stamp: &str) -> Timestamp {
    parse_timestamp(stamp).expect("well-known timestamp format should always parse")
}

fn test_config(names: &[&str]) -> Config {
    Config {
        listen: "127.0.0.1:8081".to_string(),
        instance_names: names.iter().map(|n| n.to_string()).collect(),
        epoch_durations: names.iter().map(|_| seconds(1)).collect(),
        first_epoch: 12,
        last_epoch: 24,
        epoch_base_time: None,
        increase_nofile_limit: false,
        prometheus_listen: None,
        enclave_key_sync: false,
        nitriding_internal_port: None,
    }
}

fn test_server(names: &[&str]) -> OPRFServer {
    let now = ts("2023-03-22T21:40:00Z");
    OPRFServer::new(test_config(names), &now).expect("server construction should succeed")
}

fn b64(bytes: &[u8]) -> String {
    base64::Engine::encode(&base64::prelude::BASE64_STANDARD, bytes)
}

fn valid_point() -> String {
    b64(&BASEPOINT)
}

fn request(points: Vec<String>, epoch: Option<u8>) -> RandomnessRequest {
    RandomnessRequest { points, epoch }
}

#[test]
fn welcome() {
    assert!(!welcome_message().is_empty());
}

#[test]
fn info() {
    let mut server = test_server(&["main", "alternate"]);
    for slot in server.instances.iter_mut() {
        slot.instance.as_mut().unwrap().next_epoch_time = "2023-03-22T21:46:35Z".to_string();
    }

    let resp = handler::info(&server, &"main".to_string()).expect("info should succeed");
    assert_eq!(resp.current_epoch, 12);
    assert_eq!(resp.next_epoch_time, "2023-03-22T21:46:35Z");
    assert_eq!(resp.max_points, MAX_POINTS);
    let raw = base64::Engine::decode(&base64::prelude::BASE64_STANDARD, &resp.public_key)
        .expect("public key should be base64");
    let _: ppoprf::ppoprf::ServerPublicKey =
        bincode::deserialize(&raw).expect("public key should deserialize");

    let alt = handler::info(&server, &"alternate".to_string()).expect("info should succeed");
    assert_ne!(resp.public_key, alt.public_key);

    match handler::info(&server, &"notexisting".to_string()) {
        Err(Error::InstanceNotFound(name)) => {
            assert_eq!(name, "notexisting");
            assert_eq!(Error::InstanceNotFound(name).status_code(), 404);
        }
        other => panic!("expected instance-not-found, got {other:?}"),
    }
}

#[test]
fn randomness() {
    let server = test_server(&["main", "alternate"]);

    let resp = handler::randomness(&server, &"main".to_string(), &request(vec![valid_point()], None))
        .expect("evaluation should succeed");
    assert_eq!(resp.epoch, 12);
    assert_eq!(resp.points.len(), 1);
    let out = base64::Engine::decode(&base64::prelude::BASE64_STANDARD, &resp.points[0])
        .expect("output should be base64");
    assert_eq!(out.len(), 32);
    // The evaluation is a real transformation of the input point.
    assert_ne!(resp.points[0], valid_point());

    // The same instance answers the same point identically.
    let again = handler::randomness(&server, &"main".to_string(), &request(vec![valid_point()], None))
        .expect("evaluation should succeed");
    assert_eq!(resp.points, again.points);

    // A different instance holds a different key.
    let alt = handler::randomness(
        &server,
        &"alternate".to_string(),
        &request(vec![valid_point()], None),
    )
    .expect("evaluation should succeed");
    assert_ne!(resp.points, alt.points);

    match handler::randomness(
        &server,
        &"notexisting".to_string(),
        &request(vec![valid_point()], None),
    ) {
        Err(Error::InstanceNotFound(_)) => {}
        other => panic!("expected instance-not-found, got {other:?}"),
    }
}

#[test]
fn epoch() {
    let server = test_server(&["main"]);
    let points = vec![valid_point(); 3];

    let ok = handler::randomness(&server, &"main".to_string(), &request(points.clone(), Some(12)));
    assert_eq!(ok.expect("the active epoch is accepted").points.len(), 3);

    match handler::randomness(&server, &"main".to_string(), &request(points.clone(), Some(0))) {
        Err(Error::BadEpoch(0)) => assert_eq!(Error::BadEpoch(0).status_code(), 400),
        other => panic!("expected bad-epoch, got {other:?}"),
    }
    match handler::randomness(&server, &"main".to_string(), &request(points, Some(13))) {
        Err(Error::BadEpoch(13)) => {}
        other => panic!("expected bad-epoch, got {other:?}"),
    }
}

#[test]
fn point_batches() {
    let server = test_server(&["main"]);
    for count in [5usize, 128] {
        let points = vec![valid_point(); count];
        let resp = handler::randomness(&server, &"main".to_string(), &request(points, None))
            .expect("batch should succeed");
        assert_eq!(resp.points.len(), count);
    }
}

#[test]
fn max_points() {
    let server = test_server(&["main"]);

    let full = vec![valid_point(); MAX_POINTS];
    let resp = handler::randomness(&server, &"main".to_string(), &request(full, None))
        .expect("a full batch should succeed");
    assert_eq!(resp.points.len(), MAX_POINTS);

    let over = vec![valid_point(); MAX_POINTS + 1];
    match handler::randomness(&server, &"main".to_string(), &request(over, None)) {
        Err(Error::TooManyPoints) => assert_eq!(Error::TooManyPoints.status_code(), 400),
        other => panic!("expected too-many-points, got {other:?}"),
    }
}

#[test]
fn points_of_the_wrong_length_are_rejected() {
    let server = test_server(&["main"]);
    for len in [31usize, 33] {
        let short = b64(&vec![0u8; len]);
        match handler::randomness(&server, &"main".to_string(), &request(vec![short], None)) {
            Err(Error::BadPoint) => assert_eq!(Error::BadPoint.status_code(), 400),
            other => panic!("expected bad-point, got {other:?}"),
        }
    }
}

#[test]
fn undecodable_points_are_rejected() {
    let server = test_server(&["main"]);
    match handler::randomness(
        &server,
        &"main".to_string(),
        &request(vec!["not base64!!!".to_string()], None),
    ) {
        Err(Error::Base64) => assert_eq!(Error::Base64.status_code(), 400),
        other => panic!("expected base64 error, got {other:?}"),
    }
}

#[test]
fn invalid_curve_encodings_surface_as_oprf_errors() {
    let server = test_server(&["main"]);
    // 32 bytes that are not a canonical field element.
    let bad = b64(&[0xffu8; 32]);
    match handler::randomness(&server, &"main".to_string(), &request(vec![bad], None)) {
        Err(Error::Oprf) => assert_eq!(Error::Oprf.status_code(), 500),
        other => panic!("expected an OPRF error, got {other:?}"),
    }
}

#[test]
fn listing_names_every_instance_and_the_default() {
    let server = test_server(&["main", "alternate"]);
    let resp = handler::list_instances(&server);
    assert_eq!(resp.instances, vec!["main".to_string(), "alternate".to_string()]);
    assert_eq!(resp.default_instance, "main");
}

#[test]
fn empty_slots_report_not_ready() {
    let mut config = test_config(&["main"]);
    config.enclave_key_sync = true;
    config.nitriding_internal_port = Some(8083);
    let now = ts("2023-03-22T21:40:00Z");
    let server = OPRFServer::new(config, &now).expect("server construction should succeed");

    match handler::randomness(&server, &"main".to_string(), &request(vec![valid_point()], None)) {
        Err(Error::PPOPRFNotReady) => assert_eq!(Error::PPOPRFNotReady.status_code(), 503),
        other => panic!("expected not-ready, got {other:?}"),
    }
    match handler::info(&server, &"main".to_string()) {
        Err(Error::PPOPRFNotReady) => {}
        other => panic!("expected not-ready, got {other:?}"),
    }
    // Listing stays available while slots are empty.
    assert_eq!(handler::list_instances(&server).instances, vec!["main".to_string()]);
}
