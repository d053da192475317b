//! Schedule computation and epoch rotation.

use star_randsrv::clock::{format_rfc3339, parse_timestamp, Timestamp};
use star_randsrv::config::{assert_unique_names, Config};
use star_randsrv::duration::EpochDuration;
use star_randsrv::handler::{self, RandomnessRequest};
use star_randsrv::result::Error;
use star_randsrv::state::OPRFServer;
use star_randsrv::update::{sleep_duration_nanos, RotationOutcome};

const BASEPOINT: [u8; 32] = [
    0xe2, 0xf2, 0xae, 0x0a, 0x6a, 0xbc, 0x4e, 0x71, 0xa8, 0x84, 0xa9, 0x61, 0xc5, 0x00, 0x51,
    0x5f, 0x58, 0xe3, 0x0b, 0x6a, 0xa5, 0x82, 0xdd, 0x8d, 0xb6, 0xa6, 0x59, 0x45, 0xe0, 0x8d,
    0x2d, 0x76,
];

fn seconds(n: u32) -> EpochDuration {
    EpochDuration {
        negative: false,
        years: 0,
        months: 0,
        weeks: 0,
        days: 0,
        hours: 0,
        minutes: 0,
        seconds: n,
    }
}

fn ts(stamp: &str) -> Timestamp {
    parse_timestamp(stamp).expect("well-known timestamp format should always parse")
}

fn aligned_config(base: &str, duration: EpochDuration, first: u8, last: u8) -> Config {
    Config {
        listen: "127.0.0.1:8081".to_string(),
        instance_names: vec!["main".to_string()],
        epoch_durations: vec![duration],
        first_epoch: first,
        last_epoch: last,
        epoch_base_time: Some(ts(base)),
        increase_nofile_limit: false,
        prometheus_listen: None,
        enclave_key_sync: false,
        nitriding_internal_port: None,
    }
}

fn valid_point() -> String {
    base64::Engine::encode(&base64::prelude::BASE64_STANDARD, BASEPOINT)
}

#[test]
fn epoch_base_time() {
    // Eleven seconds into ten-second epochs: one epoch has elapsed,
    // and the next rotation is nine seconds away.
    let now = ts("2023-03-22T21:46:35Z");
    let config = aligned_config("2023-03-22T21:46:24Z", seconds(10), 12, 24);
    let server = OPRFServer::new(config, &now).expect("server construction should succeed");

    let resp = handler::info(&server, &"main".to_string()).expect("info should succeed");
    assert_eq!(resp.current_epoch, 13);
    assert_eq!(resp.next_epoch_time, "2023-03-22T21:46:44Z");
}

#[test]
fn identical_anchor_and_instant_give_identical_schedules() {
    let now = ts("2023-03-22T21:46:35Z");
    let a = OPRFServer::new(aligned_config("2023-03-20T00:00:00Z", seconds(7), 12, 24), &now)
        .expect("server construction should succeed");
    let b = OPRFServer::new(aligned_config("2023-03-20T00:00:00Z", seconds(7), 12, 24), &now)
        .expect("server construction should succeed");

    let ia = handler::info(&a, &"main".to_string()).expect("info should succeed");
    let ib = handler::info(&b, &"main".to_string()).expect("info should succeed");
    assert_eq!(ia.current_epoch, ib.current_epoch);
    assert_eq!(ia.next_epoch_time, ib.next_epoch_time);
    // The key material itself is fresh per process.
    assert_ne!(ia.public_key, ib.public_key);
}

#[test]
fn rotation_advances_to_the_successor_tag() {
    let t0 = "2023-03-22T21:00:00Z";
    let mut server = OPRFServer::new(aligned_config(t0, seconds(10), 12, 24), &ts(t0))
        .expect("server construction should succeed");
    assert_eq!(server.instances[0].instance.as_ref().unwrap().epoch, 12);

    let boundary = ts("2023-03-22T21:00:10Z");
    let outcome = server.rotate_instance(0, &boundary).expect("rotation should succeed");
    assert_eq!(outcome, RotationOutcome::Advanced);

    let resp = handler::info(&server, &"main".to_string()).expect("info should succeed");
    assert_eq!(resp.current_epoch, 13);
    assert_eq!(resp.next_epoch_time, "2023-03-22T21:00:20Z");

    // The punctured previous tag can no longer be requested.
    match handler::randomness(
        &server,
        &"main".to_string(),
        &RandomnessRequest { points: vec![valid_point()], epoch: Some(12) },
    ) {
        Err(Error::BadEpoch(12)) => {}
        other => panic!("expected bad-epoch for the punctured tag, got {other:?}"),
    }
    // The new tag evaluates.
    let resp = handler::randomness(
        &server,
        &"main".to_string(),
        &RandomnessRequest { points: vec![valid_point()], epoch: Some(13) },
    )
    .expect("evaluation should succeed");
    assert_eq!(resp.epoch, 13);
}

#[test]
fn single_tag_ranges_rebuild_on_every_rotation() {
    let t0 = "2023-03-22T21:00:00Z";
    let mut server = OPRFServer::new(aligned_config(t0, seconds(10), 12, 12), &ts(t0))
        .expect("server construction should succeed");
    let before = handler::info(&server, &"main".to_string()).expect("info should succeed");

    let outcome = server
        .rotate_instance(0, &ts("2023-03-22T21:00:10Z"))
        .expect("rotation should succeed");
    assert_eq!(outcome, RotationOutcome::Rebuilt);

    let after = handler::info(&server, &"main".to_string()).expect("info should succeed");
    assert_eq!(after.current_epoch, 12);
    assert_eq!(after.next_epoch_time, "2023-03-22T21:00:20Z");
    // Rebuilding drew fresh key material.
    assert_ne!(before.public_key, after.public_key);
}

#[test]
fn exhausting_the_range_rebuilds_at_the_first_tag() {
    let t0 = "2023-03-22T21:00:00Z";
    let mut server = OPRFServer::new(aligned_config(t0, seconds(10), 12, 13), &ts(t0))
        .expect("server construction should succeed");

    let outcome = server
        .rotate_instance(0, &ts("2023-03-22T21:00:10Z"))
        .expect("rotation should succeed");
    assert_eq!(outcome, RotationOutcome::Advanced);

    let outcome = server
        .rotate_instance(0, &ts("2023-03-22T21:00:20Z"))
        .expect("rotation should succeed");
    assert_eq!(outcome, RotationOutcome::Rebuilt);

    let resp = handler::info(&server, &"main".to_string()).expect("info should succeed");
    assert_eq!(resp.current_epoch, 12);
    assert_eq!(resp.next_epoch_time, "2023-03-22T21:00:30Z");
}

#[test]
fn base_time_far_in_the_past_punctures_elapsed_tags() {
    // Twenty-five seconds of ten-second epochs: tags 12 and 13 are
    // already over and have been punctured.
    let now = ts("2023-03-22T21:00:25Z");
    let server = OPRFServer::new(aligned_config("2023-03-22T21:00:00Z", seconds(10), 12, 24), &now)
        .expect("server construction should succeed");

    let resp = handler::info(&server, &"main".to_string()).expect("info should succeed");
    assert_eq!(resp.current_epoch, 14);
    for stale in [12u8, 13] {
        match handler::randomness(
            &server,
            &"main".to_string(),
            &RandomnessRequest { points: vec![valid_point()], epoch: Some(stale) },
        ) {
            Err(Error::BadEpoch(tag)) => assert_eq!(tag, stale),
            other => panic!("expected bad-epoch, got {other:?}"),
        }
    }
}

#[test]
fn calendar_durations_respect_month_lengths() {
    let now = ts("2021-01-31T00:00:00Z");
    let one_month = EpochDuration {
        negative: false,
        years: 0,
        months: 1,
        weeks: 0,
        days: 0,
        hours: 0,
        minutes: 0,
        seconds: 0,
    };
    let server = OPRFServer::new(aligned_config("2021-01-31T00:00:00Z", one_month, 12, 24), &now)
        .expect("server construction should succeed");
    let resp = handler::info(&server, &"main".to_string()).expect("info should succeed");
    // Adding one month to January 31st clamps to the end of February.
    assert_eq!(resp.next_epoch_time, "2021-02-28T00:00:00Z");
}

#[test]
fn sleep_is_clamped_to_zero_for_past_instants() {
    let next = ts("2023-03-22T21:00:10Z");
    assert_eq!(sleep_duration_nanos(&next, &ts("2023-03-22T21:00:03Z")), 7_000_000_000);
    assert_eq!(sleep_duration_nanos(&next, &ts("2023-03-22T21:00:10Z")), 0);
    assert_eq!(sleep_duration_nanos(&next, &ts("2023-03-22T21:00:11Z")), 0);
}

#[test]
fn timestamps_render_back_to_their_source_text() {
    let text = "2023-03-22T21:46:35Z";
    assert_eq!(format_rfc3339(&ts(text)), text);
    assert!(parse_timestamp("not a timestamp").is_err());
}

#[test]
fn configurations_are_checked_before_use() {
    let now = ts("2023-03-22T21:46:35Z");
    let good = aligned_config("2023-03-22T21:00:00Z", seconds(10), 12, 24);
    assert!(good.validate(&now));

    // A base time strictly in the future is rejected.
    let mut future = good.clone();
    future.epoch_base_time = Some(ts("2023-03-22T21:46:36Z"));
    assert!(!future.validate(&now));
    // The present instant itself is an acceptable anchor.
    let mut present = good.clone();
    present.epoch_base_time = Some(now);
    assert!(present.validate(&now));

    // Duplicate names, zero durations, negative durations, inverted
    // tag ranges and a missing callback port are all rejected.
    let mut dup = good.clone();
    dup.instance_names = vec!["main".to_string(), "main".to_string()];
    dup.epoch_durations = vec![seconds(10), seconds(10)];
    assert!(!assert_unique_names(&dup.instance_names));
    assert!(!dup.validate(&now));
    assert!(assert_unique_names(&good.instance_names));

    let mut zero = good.clone();
    zero.epoch_durations = vec![seconds(0)];
    assert!(!zero.validate(&now));

    let mut negative = good.clone();
    negative.epoch_durations = vec![EpochDuration { negative: true, ..seconds(10) }];
    assert!(!negative.validate(&now));

    let mut inverted = good.clone();
    inverted.first_epoch = 25;
    assert!(!inverted.validate(&now));

    let mut portless = good.clone();
    portless.enclave_key_sync = true;
    assert!(!portless.validate(&now));
}
