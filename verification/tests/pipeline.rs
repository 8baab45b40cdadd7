use gtfs_poc::helpers::{DEFAULT_ETA_HORIZON_SECS, DEFAULT_NEAR_RADIUS_M};
use gtfs_poc::query::query;
use gtfs_poc::types::{
    Directionality, Stop, StopTimeEvent, StopTimeUpdate, Stops, TrainInfo, TripDescriptor,
    TripUpdate, VehiclePosition,
};

use humanize_duration::prelude::DurationExt;
use humanize_duration::Truncate;

fn northbound_train(trip_id: &str, route_id: &str, stop_id: &str, arrival: i64) -> TrainInfo {
    let td = TripDescriptor {
        trip_id: Some(trip_id.to_string()),
        route_id: Some(route_id.to_string()),
    };
    TrainInfo {
        trip_update: TripUpdate {
            trip: td.clone(),
            stop_time_update: vec![StopTimeUpdate {
                stop_id: Some(stop_id.to_string()),
                arrival: Some(StopTimeEvent {
                    time: Some(arrival),
                    delay: Some(0),
                }),
            }],
        },
        vehicle_position: VehiclePosition {
            trip: Some(td),
            stop_id: Some(stop_id.to_string()),
        },
    }
}

#[test]
fn end_to_end_single_match() {
    let now: i64 = 1_700_000_000;

    // the catalog holds one stop at the query point
    let mut catalog = Stops::new();
    catalog.insert(Stop {
        stop_id: "S".to_string(),
        stop_name: "Station".to_string(),
        stop_lat_micro: 40_752_700,
        stop_lon_micro: -73_977_200,
        location_type: String::new(),
        parent_station: String::new(),
    });
    // the stop is at the query point: distance zero
    let distances = vec![Some(0u64)];

    // one train resolves to S, arriving 90 seconds out, heading north
    let records = vec![northbound_train("123450_Q..N05R", "Q", "S", now + 90)];

    let matches = query(
        &catalog,
        &distances,
        &records,
        DEFAULT_NEAR_RADIUS_M,
        now,
        DEFAULT_ETA_HORIZON_SECS,
    );

    assert_eq!(matches.len(), 1);
    assert_eq!(matches[0].route, "Q");
    assert_eq!(matches[0].direction, Directionality::N);
    assert_eq!(matches[0].direction.to_string(), "north");
    assert_eq!(matches[0].stop_name, "Station");
    let expected_eta = std::time::Duration::from_secs(90)
        .human(Truncate::Second)
        .to_string();
    assert_eq!(matches[0].eta, expected_eta);
}

#[test]
fn end_to_end_drops_far_stops_and_stale_trains() {
    let now: i64 = 1_700_000_000;

    let mut catalog = Stops::new();
    catalog.insert(Stop {
        stop_id: "NEARBY".to_string(),
        stop_name: "Near Station".to_string(),
        stop_lat_micro: 0,
        stop_lon_micro: 0,
        location_type: String::new(),
        parent_station: String::new(),
    });
    catalog.insert(Stop {
        stop_id: "REMOTE".to_string(),
        stop_name: "Remote Station".to_string(),
        stop_lat_micro: 0,
        stop_lon_micro: 0,
        location_type: String::new(),
        parent_station: String::new(),
    });
    let distances = vec![Some(100u64), Some(50_000u64)];

    let records = vec![
        // matches the nearby stop, 60 seconds out
        northbound_train("A..N1", "A", "NEARBY", now + 60),
        // heads to the remote stop, which the radius filters away
        northbound_train("B..N2", "B", "REMOTE", now + 60),
        // heads to the nearby stop but lies beyond the horizon: dropped
        northbound_train("C..N3", "C", "NEARBY", now + 10_000),
    ];

    let matches = query(
        &catalog,
        &distances,
        &records,
        DEFAULT_NEAR_RADIUS_M,
        now,
        DEFAULT_ETA_HORIZON_SECS,
    );

    assert_eq!(matches.len(), 1);
    assert_eq!(matches[0].route, "A");
    assert_eq!(matches[0].stop_name, "Near Station");
}

#[test]
fn end_to_end_unknown_route_sentinel() {
    let now: i64 = 1_700_000_000;

    let mut catalog = Stops::new();
    catalog.insert(Stop {
        stop_id: "S".to_string(),
        stop_name: "Station".to_string(),
        stop_lat_micro: 0,
        stop_lon_micro: 0,
        location_type: String::new(),
        parent_station: String::new(),
    });
    let distances = vec![Some(0u64)];

    // the vehicle position carries no trip reference, so the route is
    // unknown and the direction heuristic has nothing to read
    let mut record = northbound_train("nodirection", "Q", "S", now + 30);
    record.vehicle_position.trip = None;
    let records = vec![record];

    let matches = query(
        &catalog,
        &distances,
        &records,
        DEFAULT_NEAR_RADIUS_M,
        now,
        DEFAULT_ETA_HORIZON_SECS,
    );
    assert_eq!(matches.len(), 1);
    assert_eq!(matches[0].route, "<UNKNOWN>");
    assert_eq!(matches[0].direction, Directionality::Unknown);
}
