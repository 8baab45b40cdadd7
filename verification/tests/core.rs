use gtfs_poc::helpers::{
    eta_from_train_info, find_stops_near, find_trains_near_stop, get_stop, is_near,
    route_from_train_info, stop_id_from_train_info, train_info_from_feed, DEFAULT_ETA_HORIZON_SECS,
    DEFAULT_NEAR_RADIUS_M,
};
use gtfs_poc::types::{
    Directionality, FeedEntity, InvariantError, Stop, StopTimeEvent, StopTimeUpdate, Stops,
    TrainInfo, TripDescriptor, TripUpdate, VehiclePosition,
};

use humanize_duration::prelude::DurationExt;
use humanize_duration::Truncate;

fn trip(trip_id: Option<&str>, route_id: Option<&str>) -> TripDescriptor {
    TripDescriptor {
        trip_id: trip_id.map(|s| s.to_string()),
        route_id: route_id.map(|s| s.to_string()),
    }
}

fn stu(stop_id: &str, time: Option<i64>, delay: Option<i32>) -> StopTimeUpdate {
    StopTimeUpdate {
        stop_id: Some(stop_id.to_string()),
        arrival: Some(StopTimeEvent { time, delay }),
    }
}

fn train(trip_id: &str, route_id: &str, vehicle_stop: &str, stus: Vec<StopTimeUpdate>) -> TrainInfo {
    TrainInfo {
        trip_update: TripUpdate {
            trip: trip(Some(trip_id), Some(route_id)),
            stop_time_update: stus,
        },
        vehicle_position: VehiclePosition {
            trip: Some(trip(Some(trip_id), Some(route_id))),
            stop_id: Some(vehicle_stop.to_string()),
        },
    }
}

fn entity_pair(trip_id: &str) -> (FeedEntity, FeedEntity) {
    let t = train(trip_id, "Q", "S1", vec![]);
    (
        FeedEntity {
            trip_update: Some(t.trip_update),
            vehicle: None,
        },
        FeedEntity {
            trip_update: None,
            vehicle: Some(t.vehicle_position),
        },
    )
}

fn humanized(secs: u64) -> String {
    std::time::Duration::from_secs(secs)
        .human(Truncate::Second)
        .to_string()
}

#[test]
fn merge_well_paired_two_pairs() {
    let (a1, a2) = entity_pair("Q..N01");
    let (b1, b2) = entity_pair("Q..S02");
    let feed = vec![a1, a2, b1, b2];
    let records = train_info_from_feed(&feed).expect("well-paired feed must merge");
    assert_eq!(records.len(), 2);
    assert_eq!(
        records[0].trip_update.trip.trip_id.as_deref(),
        Some("Q..N01")
    );
    assert_eq!(
        records[0].vehicle_position.trip.as_ref().unwrap().trip_id.as_deref(),
        Some("Q..N01")
    );
    assert_eq!(
        records[1].trip_update.trip.trip_id.as_deref(),
        Some("Q..S02")
    );
}

#[test]
fn merge_prefers_first_entity_payloads() {
    // both payloads in the first entity of the pair; the second is empty of
    // the taken payload
    let t = train("T..N77", "N", "S9", vec![]);
    let e1 = FeedEntity {
        trip_update: Some(t.trip_update),
        vehicle: Some(t.vehicle_position),
    };
    let other = train("T..N77", "N", "S8", vec![]);
    let e2 = FeedEntity {
        trip_update: None,
        vehicle: Some(other.vehicle_position),
    };
    let feed = vec![e1, e2];
    let records = train_info_from_feed(&feed).expect("pair must merge");
    assert_eq!(records.len(), 1);
    // the first entity's vehicle position wins
    assert_eq!(
        records[0].vehicle_position.stop_id.as_deref(),
        Some("S9")
    );
}

#[test]
fn merge_rejects_odd_count() {
    let (a1, a2) = entity_pair("Q..N01");
    let (b1, _) = entity_pair("Q..S02");
    let feed = vec![a1, a2, b1];
    assert!(matches!(
        train_info_from_feed(&feed),
        Err(InvariantError::OddEntityCount)
    ));
}

#[test]
fn merge_rejects_trip_mismatch() {
    let (a1, _) = entity_pair("Q..N01");
    let (_, b2) = entity_pair("Q..S02");
    let feed = vec![a1, b2];
    assert!(matches!(
        train_info_from_feed(&feed),
        Err(InvariantError::TripMismatch)
    ));
}

#[test]
fn merge_rejects_missing_trip_update() {
    let (_, a2) = entity_pair("Q..N01");
    let (_, b2) = entity_pair("Q..N01");
    let feed = vec![a2, b2];
    assert!(matches!(
        train_info_from_feed(&feed),
        Err(InvariantError::MissingTripUpdate)
    ));
}

#[test]
fn merge_rejects_missing_vehicle_position() {
    let (a1, _) = entity_pair("Q..N01");
    let (b1, _) = entity_pair("Q..N01");
    let feed = vec![a1, b1];
    assert!(matches!(
        train_info_from_feed(&feed),
        Err(InvariantError::MissingVehiclePosition)
    ));
}

#[test]
fn classify_north() {
    let t = train("123450_Q..N05R", "Q", "S1", vec![]);
    assert_eq!(Directionality::from_train_info(&t), Directionality::N);
}

#[test]
fn classify_south() {
    let t = train("123450_Q..S05R", "Q", "S1", vec![]);
    assert_eq!(Directionality::from_train_info(&t), Directionality::S);
}

#[test]
fn classify_north_wins_over_south() {
    let t = train("A..N_then_..S", "Q", "S1", vec![]);
    assert_eq!(Directionality::from_train_info(&t), Directionality::N);
}

#[test]
fn classify_unknown_without_marker() {
    let t = train("123450_Q05R", "Q", "S1", vec![]);
    assert_eq!(Directionality::from_train_info(&t), Directionality::Unknown);
    // single dots do not count
    let t2 = train("A.N.S", "Q", "S1", vec![]);
    assert_eq!(Directionality::from_train_info(&t2), Directionality::Unknown);
}

#[test]
fn classify_unknown_without_trip_id() {
    let mut t = train("x", "Q", "S1", vec![]);
    t.trip_update.trip.trip_id = None;
    assert_eq!(Directionality::from_train_info(&t), Directionality::Unknown);
}

#[test]
fn direction_labels() {
    assert_eq!(Directionality::N.to_string(), "north");
    assert_eq!(Directionality::S.to_string(), "south");
    assert_eq!(Directionality::Unknown.to_string(), "<UNKNOWN>");
}

#[test]
fn resolve_picks_smallest_future_delta() {
    let now: i64 = 1_000_000;
    let t = train(
        "Q..N01",
        "Q",
        "V1",
        vec![stu("FAR", Some(now + 500), None), stu("NEAR", Some(now + 50), None)],
    );
    assert_eq!(stop_id_from_train_info(&t, now), "NEAR");
}

#[test]
fn resolve_ties_keep_first_occurrence() {
    let now: i64 = 1_000_000;
    let t = train(
        "Q..N01",
        "Q",
        "V1",
        vec![stu("FIRST", Some(now + 50), None), stu("SECOND", Some(now + 50), None)],
    );
    assert_eq!(stop_id_from_train_info(&t, now), "FIRST");
}

#[test]
fn resolve_falls_back_to_vehicle_stop() {
    let now: i64 = 1_000_000;
    let t = train(
        "Q..N01",
        "Q",
        "V1",
        vec![stu("A", Some(now - 10), None), stu("B", Some(now - 500), None)],
    );
    assert_eq!(stop_id_from_train_info(&t, now), "V1");
}

#[test]
fn resolve_ignores_delay() {
    // delay would make the second entry nearer, but resolve reads the raw
    // scheduled time only
    let now: i64 = 1_000_000;
    let t = train(
        "Q..N01",
        "Q",
        "V1",
        vec![stu("RAWNEAR", Some(now + 100), Some(500)), stu("RAWFAR", Some(now + 200), Some(-190))],
    );
    assert_eq!(stop_id_from_train_info(&t, now), "RAWNEAR");
}

#[test]
fn eta_hundred_seconds_out() {
    let now: i64 = 1_700_000_000;
    let t = train("Q..N01", "Q", "V1", vec![stu("S1", Some(now + 100), Some(0))]);
    let eta = eta_from_train_info(&t, &"S1".to_string(), now, DEFAULT_ETA_HORIZON_SECS);
    assert_eq!(eta, Some(humanized(100)));
}

#[test]
fn eta_applies_delay() {
    let now: i64 = 1_700_000_000;
    let t = train("Q..N01", "Q", "V1", vec![stu("S1", Some(now + 100), Some(50))]);
    let eta = eta_from_train_info(&t, &"S1".to_string(), now, DEFAULT_ETA_HORIZON_SECS);
    assert_eq!(eta, Some(humanized(150)));
}

#[test]
fn eta_in_the_past_is_not_useful() {
    let now: i64 = 1_700_000_000;
    let t = train("Q..N01", "Q", "V1", vec![stu("S1", Some(now - 100), Some(0))]);
    let eta = eta_from_train_info(&t, &"S1".to_string(), now, DEFAULT_ETA_HORIZON_SECS);
    assert_eq!(eta, None);
}

#[test]
fn eta_beyond_horizon_is_not_useful() {
    let now: i64 = 1_700_000_000;
    let t = train("Q..N01", "Q", "V1", vec![stu("S1", Some(now + 2000), Some(0))]);
    let eta = eta_from_train_info(&t, &"S1".to_string(), now, 1800);
    assert_eq!(eta, None);
}

#[test]
fn eta_without_matching_update_is_not_useful() {
    let now: i64 = 1_700_000_000;
    let t = train("Q..N01", "Q", "V1", vec![stu("OTHER", Some(now + 100), Some(0))]);
    let eta = eta_from_train_info(&t, &"S1".to_string(), now, DEFAULT_ETA_HORIZON_SECS);
    assert_eq!(eta, None);
}

#[test]
fn eta_unrepresentable_timestamp_is_the_unknown_sentinel() {
    // one second past the largest timestamp chrono represents
    let now: i64 = 1_700_000_000;
    let t = train("Q..N01", "Q", "V1", vec![stu("S1", Some(8210266876800), Some(0))]);
    let eta = eta_from_train_info(&t, &"S1".to_string(), now, DEFAULT_ETA_HORIZON_SECS);
    assert_eq!(eta, Some("<UNKNOWN>".to_string()));
}

#[test]
fn eta_at_the_representable_boundary_is_merely_far_off() {
    // the largest representable timestamp is far beyond the horizon, so the
    // answer is "nothing to report", not the sentinel
    let now: i64 = 1_700_000_000;
    let t = train("Q..N01", "Q", "V1", vec![stu("S1", Some(8210266876799), Some(0))]);
    let eta = eta_from_train_info(&t, &"S1".to_string(), now, DEFAULT_ETA_HORIZON_SECS);
    assert_eq!(eta, None);
    let t2 = train("Q..N01", "Q", "V1", vec![stu("S1", Some(-8334601228800), Some(0))]);
    let eta2 = eta_from_train_info(&t2, &"S1".to_string(), now, DEFAULT_ETA_HORIZON_SECS);
    assert_eq!(eta2, None);
    let t3 = train("Q..N01", "Q", "V1", vec![stu("S1", Some(-8334601228801), Some(0))]);
    let eta3 = eta_from_train_info(&t3, &"S1".to_string(), now, DEFAULT_ETA_HORIZON_SECS);
    assert_eq!(eta3, Some("<UNKNOWN>".to_string()));
}

#[test]
fn eta_delay_can_push_past_the_representable_range() {
    let now: i64 = 1_700_000_000;
    let t = train("Q..N01", "Q", "V1", vec![stu("S1", Some(8210266876799), Some(1))]);
    let eta = eta_from_train_info(&t, &"S1".to_string(), now, DEFAULT_ETA_HORIZON_SECS);
    assert_eq!(eta, Some("<UNKNOWN>".to_string()));
}

#[test]
fn eta_without_arrival_uses_the_zero_sentinel() {
    let now: i64 = 1_700_000_000;
    let t = train(
        "Q..N01",
        "Q",
        "V1",
        vec![StopTimeUpdate { stop_id: Some("S1".to_string()), arrival: None }],
    );
    let eta = eta_from_train_info(&t, &"S1".to_string(), now, DEFAULT_ETA_HORIZON_SECS);
    // timestamp 0 is representable and lies far in the past
    assert_eq!(eta, None);
}

fn catalog_stop(id: &str, name: &str, lat_micro: i64, lon_micro: i64) -> Stop {
    Stop {
        stop_id: id.to_string(),
        stop_name: name.to_string(),
        stop_lat_micro: lat_micro,
        stop_lon_micro: lon_micro,
        location_type: String::new(),
        parent_station: String::new(),
    }
}

#[test]
fn is_near_thresholds() {
    assert!(is_near(Some(1600), DEFAULT_NEAR_RADIUS_M));
    assert!(!is_near(Some(1700), DEFAULT_NEAR_RADIUS_M));
    // the comparison is strict, as the distance formula's circle test is
    assert!(!is_near(Some(1610), DEFAULT_NEAR_RADIUS_M));
    assert!(!is_near(None, DEFAULT_NEAR_RADIUS_M));
}

#[test]
fn is_near_against_computed_distances() {
    // two points on one meridian, roughly 1600 m and 1700 m apart; floor of
    // the computed distance preserves the strict circle test for an
    // integer radius
    let here = geoutils::Location::new(40.0, -74.0);
    let near = geoutils::Location::new(40.0 + 1600.0 / 110_574.0, -74.0);
    let far = geoutils::Location::new(40.0 + 1700.0 / 110_574.0, -74.0);
    let d_near = here.distance_to(&near).unwrap().meters();
    let d_far = here.distance_to(&far).unwrap().meters();
    assert!(is_near(Some(d_near.floor() as u64), DEFAULT_NEAR_RADIUS_M));
    assert!(!is_near(Some(d_far.floor() as u64), DEFAULT_NEAR_RADIUS_M));
}

#[test]
fn find_stops_near_filters_by_distance() {
    let mut stops = Stops::new();
    stops.insert(catalog_stop("A", "Alpha", 40_000_000, -74_000_000));
    stops.insert(catalog_stop("B", "Beta", 41_000_000, -74_000_000));
    let distances = vec![Some(1200u64), Some(90_000u64)];
    let nearby = find_stops_near(&stops, &distances, DEFAULT_NEAR_RADIUS_M);
    assert_eq!(nearby.len(), 1);
    assert_eq!(nearby.stops[0].stop_id, "A");
}

#[test]
fn get_stop_finds_names_and_falls_back() {
    let mut stops = Stops::new();
    stops.insert(catalog_stop("A", "Alpha", 0, 0));
    assert_eq!(get_stop(&stops, &"A".to_string()), "Alpha");
    assert_eq!(get_stop(&stops, &"Z".to_string()), "<UNKNOWN>");
}

#[test]
fn insert_replaces_entries_with_the_same_key() {
    let mut stops = Stops::new();
    stops.insert(catalog_stop("A", "Alpha", 0, 0));
    stops.insert(catalog_stop("A", "Alpha Rebuilt", 1, 1));
    stops.insert(catalog_stop("B", "Beta", 2, 2));
    assert_eq!(stops.len(), 2);
    assert_eq!(get_stop(&stops, &"A".to_string()), "Alpha Rebuilt");
}

#[test]
fn route_comes_from_the_vehicle_trip() {
    let t = train("Q..N01", "Q", "V1", vec![]);
    assert_eq!(route_from_train_info(&t), Some("Q".to_string()));
    let mut no_trip = train("Q..N01", "Q", "V1", vec![]);
    no_trip.vehicle_position.trip = None;
    assert_eq!(route_from_train_info(&no_trip), None);
    let mut no_route = train("Q..N01", "Q", "V1", vec![]);
    no_route.vehicle_position.trip = Some(trip(Some("Q..N01"), None));
    assert_eq!(route_from_train_info(&no_route), Some(String::new()));
}

#[test]
fn find_trains_near_stop_matches_resolved_stops() {
    let now: i64 = 1_000_000;
    let going_there = train("Q..N01", "Q", "V1", vec![stu("S1", Some(now + 60), None)]);
    let going_elsewhere = train("Q..S02", "Q", "V2", vec![stu("S2", Some(now + 60), None)]);
    let feed = vec![going_there, going_elsewhere];
    let stop = catalog_stop("S1", "First", 0, 0);
    let found = find_trains_near_stop(&feed, &stop, now);
    assert_eq!(found.len(), 1);
    assert_eq!(found[0].trip_update.trip.trip_id.as_deref(), Some("Q..N01"));
}

#[test]
fn resolve_treats_missing_time_as_zero() {
    // an arrival without a timestamp counts as time 0, which is never in
    // the future for a positive clock
    let now: i64 = 1_000_000;
    let t = train("Q..N01", "Q", "V1", vec![stu("A", None, Some(30))]);
    assert_eq!(stop_id_from_train_info(&t, now), "V1");
}

#[test]
fn eta_reads_the_first_update_matching_the_stop() {
    // the first update matching the stop has no arrival, so the zero
    // sentinel applies even though a later match carries one
    let now: i64 = 1_700_000_000;
    let t = train(
        "Q..N01",
        "Q",
        "V1",
        vec![
            StopTimeUpdate { stop_id: Some("S1".to_string()), arrival: None },
            stu("S1", Some(now + 100), Some(0)),
        ],
    );
    let eta = eta_from_train_info(&t, &"S1".to_string(), now, DEFAULT_ETA_HORIZON_SECS);
    assert_eq!(eta, None);
}

#[test]
fn find_stops_near_drops_undefined_distances() {
    let mut stops = Stops::new();
    stops.insert(catalog_stop("A", "Alpha", 0, 0));
    let distances = vec![None];
    let nearby = find_stops_near(&stops, &distances, DEFAULT_NEAR_RADIUS_M);
    assert_eq!(nearby.len(), 0);
}
