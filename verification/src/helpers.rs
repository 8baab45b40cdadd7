//! The query's building blocks: merging the paired feed into per-train
//! records, inferring the next stop of a train, computing a bounded
//! human-readable ETA, looking stops up in the catalog, and filtering by
//! distance.

use crate::ext::{
    human_duration_of, humanize_seconds, timestamp_representable, timestamp_representable_spec,
};
use crate::types::{
    stop_lookup, FeedEntity, FeedEntityV, InvariantError, Stop, StopTimeEvent, StopTimeUpdateV,
    StopV, Stops, TrainInfo, TrainInfoV, TripDescriptor, TripUpdate, TripUpdateV, VehiclePosition,
    VehiclePositionV,
};
use vstd::prelude::*;
use vstd::string::StringExecFns;

verus! {

/// The trip update of a pair: whichever element carries one, the first
/// preferred.
pub open spec fn pair_trip_update(a: FeedEntityV, b: FeedEntityV) -> Option<TripUpdateV> {
    if a.trip_update is Some {
        a.trip_update
    } else {
        b.trip_update
    }
}

/// The vehicle position of a pair: whichever element carries one, the
/// first preferred.
pub open spec fn pair_vehicle(a: FeedEntityV, b: FeedEntityV) -> Option<VehiclePositionV> {
    if a.vehicle is Some {
        a.vehicle
    } else {
        b.vehicle
    }
}

/// The record one pair of feed entities reconciles to, or the invariant it
/// breaks: a pair must jointly provide a trip update and a vehicle
/// position, and the two halves must reference the same trip.
pub open spec fn pair_record(a: FeedEntityV, b: FeedEntityV) -> Result<TrainInfoV, InvariantError> {
    match pair_trip_update(a, b) {
        None => Err(InvariantError::MissingTripUpdate),
        Some(tu) => match pair_vehicle(a, b) {
            None => Err(InvariantError::MissingVehiclePosition),
            Some(vp) => if vp.trip != Some(tu.trip) {
                Err(InvariantError::TripMismatch)
            } else {
                Ok(TrainInfoV { trip_update: tu, vehicle_position: vp })
            },
        },
    }
}

/// The records of an even-length entity stream, taken as consecutive
/// non-overlapping pairs, aborting on the first pair that breaks an
/// invariant.
pub open spec fn merge_pairs(s: Seq<FeedEntityV>) -> Result<Seq<TrainInfoV>, InvariantError>
    decreases s.len(),
{
    if s.len() < 2 {
        Ok(Seq::empty())
    } else {
        match pair_record(s[0], s[1]) {
            Err(e) => Err(e),
            Ok(r) => match merge_pairs(s.skip(2)) {
                Err(e) => Err(e),
                Ok(rest) => Ok(seq![r] + rest),
            },
        }
    }
}

/// What merging a raw entity stream yields: an odd stream is rejected
/// outright, an even one is reconciled pair by pair.
pub open spec fn merge_spec(s: Seq<FeedEntityV>) -> Result<Seq<TrainInfoV>, InvariantError> {
    if s.len() % 2 != 0 {
        Err(InvariantError::OddEntityCount)
    } else {
        merge_pairs(s)
    }
}

/// Compares two optional strings by their text.
fn opt_string_eq(a: &Option<String>, b: &Option<String>) -> (r: bool)
    ensures
        r == (a.deep_view() == b.deep_view()),
{
    match (a, b) {
        (None, None) => true,
        (Some(x), Some(y)) => *x == *y,
        _ => false,
    }
}

/// Compares two trip descriptors by their fields.
fn trip_descriptor_eq(a: &TripDescriptor, b: &TripDescriptor) -> (r: bool)
    ensures
        r == (a.deep_view() == b.deep_view()),
{
    opt_string_eq(&a.trip_id, &b.trip_id) && opt_string_eq(&a.route_id, &b.route_id)
}

/// Reconciles the pairs of `entities` from position `start` on.
fn merge_from(entities: &Vec<FeedEntity>, start: usize) -> (r: Result<
    Vec<TrainInfo>,
    InvariantError,
>)
    requires
        start <= entities.len(),
        (entities.len() - start) % 2 == 0,
    ensures
        match r {
            Ok(v) => merge_pairs(entities.deep_view().skip(start as int)) == Ok::<
                _,
                InvariantError,
            >(v.deep_view()),
            Err(e) => merge_pairs(entities.deep_view().skip(start as int)) == Err::<
                Seq<TrainInfoV>,
                _,
            >(e),
        },
    decreases entities.len() - start,
{
    let ghost s = entities.deep_view().skip(start as int);
    if entities.len() - start < 2 {
        let r: Vec<TrainInfo> = Vec::new();
        proof {
            assert(r.deep_view() =~= Seq::<TrainInfoV>::empty());
        }
        return Ok(r);
    }
    let a = &entities[start];
    let b = &entities[start + 1];
    proof {
        assert(s[0] == a.deep_view());
        assert(s[1] == b.deep_view());
    }
    let tu: TripUpdate = match &a.trip_update {
        Some(t) => t.clone(),
        None => match &b.trip_update {
            Some(t) => t.clone(),
            None => {
                return Err(InvariantError::MissingTripUpdate);
            },
        },
    };
    let vp: VehiclePosition = match &a.vehicle {
        Some(v) => v.clone(),
        None => match &b.vehicle {
            Some(v) => v.clone(),
            None => {
                return Err(InvariantError::MissingVehiclePosition);
            },
        },
    };
    let trips_match: bool = match &vp.trip {
        None => false,
        Some(td) => trip_descriptor_eq(td, &tu.trip),
    };
    if !trips_match {
        return Err(InvariantError::TripMismatch);
    }
    proof {
        assert(pair_record(s[0], s[1]) == Ok::<_, InvariantError>(
            TrainInfoV { trip_update: tu.deep_view(), vehicle_position: vp.deep_view() },
        ));
    }
    proof {
        assert(entities.deep_view().skip(start as int + 2) =~= s.skip(2));
    }
    match merge_from(entities, start + 2) {
        Err(e) => Err(e),
        Ok(rest) => {
            let mut v = rest;
            v.insert(0, TrainInfo { trip_update: tu, vehicle_position: vp });
            proof {
                assert(v.deep_view() =~= seq![
                    pair_record(s[0], s[1])->Ok_0,
                ] + merge_pairs(s.skip(2))->Ok_0);
                assert(merge_pairs(s) == Ok::<_, InvariantError>(seq![
                    pair_record(s[0], s[1])->Ok_0,
                ] + merge_pairs(s.skip(2))->Ok_0));
                assert(merge_pairs(s) == Ok::<_, InvariantError>(v.deep_view()));
            }
            Ok(v)
        },
    }
}

/// Reconstructs per-train records from the raw paired entity stream.
///
/// The stream must split into consecutive pairs, each pair jointly
/// providing one trip update and one vehicle position that reference the
/// same trip; the first violation aborts the merge. Output order matches
/// pairing order.
pub fn train_info_from_feed(entities: &Vec<FeedEntity>) -> (r: Result<
    Vec<TrainInfo>,
    InvariantError,
>)
    ensures
        match r {
            Ok(v) => merge_spec(entities.deep_view()) == Ok::<_, InvariantError>(v.deep_view()),
            Err(e) => merge_spec(entities.deep_view()) == Err::<Seq<TrainInfoV>, _>(e),
        },
{
    if entities.len() % 2 != 0 {
        return Err(InvariantError::OddEntityCount);
    }
    proof {
        assert(entities.deep_view().skip(0) =~= entities.deep_view());
    }
    merge_from(entities, 0)
}

/// The arrival timestamp of an event, a missing timestamp standing for the
/// sentinel 0 of the wire schema.
pub open spec fn event_time_or_zero(ev: StopTimeEvent) -> int {
    match ev.time {
        Some(t) => t as int,
        None => 0,
    }
}

/// The stop identifier of an update, a missing one standing for empty text.
pub open spec fn stu_stop_id_or_empty(stu: StopTimeUpdateV) -> Seq<char> {
    match stu.stop_id {
        Some(s) => s,
        None => Seq::empty(),
    }
}

/// One step of the next-stop scan. A candidate must carry an arrival whose
/// delta against `now` (raw scheduled time, delay not applied) is strictly
/// positive and undercuts the best delta seen so far; ties keep the
/// earlier entry.
pub open spec fn resolve_step(
    acc: Option<(int, Seq<char>)>,
    stu: StopTimeUpdateV,
    now: int,
) -> Option<(int, Seq<char>)> {
    match stu.arrival {
        None => acc,
        Some(ev) => {
            let t = event_time_or_zero(ev) - now;
            let better = t > 0 && match acc {
                None => true,
                Some(p) => t < p.0,
            };
            if better {
                Some((t, stu_stop_id_or_empty(stu)))
            } else {
                acc
            }
        },
    }
}

/// The next-stop scan over a whole sequence of stop-time updates.
pub open spec fn resolve_scan(
    stus: Seq<StopTimeUpdateV>,
    now: int,
    acc: Option<(int, Seq<char>)>,
) -> Option<(int, Seq<char>)>
    decreases stus.len(),
{
    if stus.len() == 0 {
        acc
    } else {
        resolve_scan(stus.skip(1), now, resolve_step(acc, stus[0], now))
    }
}

/// The current stop of a vehicle, a missing one standing for empty text.
pub open spec fn vp_stop_id_or_empty(vp: VehiclePositionV) -> Seq<char> {
    match vp.stop_id {
        Some(s) => s,
        None => Seq::empty(),
    }
}

/// The stop a train is heading to: the stop with the nearest strictly
/// future arrival, or the vehicle's current stop when no arrival lies in
/// the future.
pub open spec fn resolve_spec(ti: TrainInfoV, now: int) -> Seq<char> {
    match resolve_scan(ti.trip_update.stop_time_update, now, None) {
        Some(p) => p.1,
        None => vp_stop_id_or_empty(ti.vehicle_position),
    }
}

/// The view of the scan accumulator the iteration below carries.
pub open spec fn acc_view(acc: Option<(i128, String)>) -> Option<(int, Seq<char>)> {
    match acc {
        None => None,
        Some(p) => Some((p.0 as int, p.1@)),
    }
}

/// Infers the identifier of the stop the train heads to next: the entry of
/// its stop-time updates with the smallest strictly positive arrival delta
/// against `now` (raw scheduled time; delay is deliberately not applied
/// here), ties broken by first occurrence, falling back to the vehicle
/// position's current stop when no arrival lies in the future.
pub fn stop_id_from_train_info(ti: &TrainInfo, now: i64) -> (r: String)
    ensures
        r@ == resolve_spec(ti.deep_view(), now as int),
{
    let ghost sv = ti.trip_update.stop_time_update.deep_view();
    let mut acc: Option<(i128, String)> = None;
    let n = ti.trip_update.stop_time_update.len();
    let mut i: usize = 0;
    proof {
        assert(sv.skip(0) =~= sv);
    }
    while i < n
        invariant
            i <= n,
            n == ti.trip_update.stop_time_update.len(),
            sv == ti.trip_update.stop_time_update.deep_view(),
            resolve_scan(sv, now as int, None) == resolve_scan(
                sv.skip(i as int),
                now as int,
                acc_view(acc),
            ),
        decreases n - i,
    {
        let stu = &ti.trip_update.stop_time_update[i];
        proof {
            assert(sv.skip(i as int)[0] == sv[i as int]);
            assert(sv[i as int] == stu.deep_view());
        }
        match &stu.arrival {
            None => {},
            Some(ev) => {
                let t_raw: i64 = match ev.time {
                    Some(t) => t,
                    None => 0,
                };
                let t: i128 = t_raw as i128 - now as i128;
                let better: bool = t > 0 && match &acc {
                    None => true,
                    Some(p) => t < p.0,
                };
                if better {
                    let sid: String = match &stu.stop_id {
                        Some(s) => s.clone(),
                        None => String::new(),
                    };
                    acc = Some((t, sid));
                }
            },
        }
        proof {
            assert(sv.skip(i as int).skip(1) =~= sv.skip(i as int + 1));
        }
        i += 1;
    }
    proof {
        assert(sv.skip(n as int) =~= Seq::<StopTimeUpdateV>::empty());
    }
    match acc {
        Some(p) => p.1,
        None => match &ti.vehicle_position.stop_id {
            Some(s) => s.clone(),
            None => String::new(),
        },
    }
}

/// The delta of an update's arrival against `now` where that delta is
/// strictly positive; 0 stands for "no strictly future arrival" (no
/// arrival at all, or one at or before `now`).
pub open spec fn stu_future_delta(stu: StopTimeUpdateV, now: int) -> int {
    match stu.arrival {
        None => 0,
        Some(ev) => {
            let t = event_time_or_zero(ev) - now;
            if t > 0 {
                t
            } else {
                0
            }
        },
    }
}

/// What the scan accumulator means over the updates already seen.
proof fn lemma_resolve_scan_min(stus: Seq<StopTimeUpdateV>, now: int, acc: Option<(int, Seq<char>)>)
    requires
        acc matches Some(q) ==> q.0 > 0,
    ensures
        match resolve_scan(stus, now, acc) {
            None => acc is None && forall|j: int|
                0 <= j < stus.len() ==> #[trigger] stu_future_delta(stus[j], now) == 0,
            Some(p) => {
                &&& p.0 > 0
                &&& (forall|j: int|
                    0 <= j < stus.len() && #[trigger] stu_future_delta(stus[j], now) > 0 ==> p.0
                        <= stu_future_delta(stus[j], now))
                &&& (acc == Some(p) || exists|i: int|
                    {
                        &&& 0 <= i < stus.len()
                        &&& #[trigger] stu_future_delta(stus[i], now) == p.0
                        &&& p.1 == stu_stop_id_or_empty(stus[i])
                        &&& (forall|j: int|
                            0 <= j < i && #[trigger] stu_future_delta(stus[j], now) > 0 ==> p.0
                                < stu_future_delta(stus[j], now))
                        &&& (acc matches Some(q) ==> p.0 < q.0)
                    })
            },
        },
    decreases stus.len(),
{
    if stus.len() > 0 {
        let acc1 = resolve_step(acc, stus[0], now);
        let t = stus.skip(1);
        lemma_resolve_scan_min(t, now, acc1);
        assert forall|j: int| 1 <= j < stus.len() implies t[j - 1] == stus[j] by {}
        match resolve_scan(stus, now, acc) {
            None => {
                assert(stu_future_delta(stus[0], now) == 0);
            },
            Some(p) => {
                assert forall|j: int|
                    0 <= j < stus.len() && #[trigger] stu_future_delta(stus[j], now) > 0 implies p.0
                    <= stu_future_delta(stus[j], now) by {
                    if j == 0 {
                        if acc1 == acc {
                            // the step left the accumulator alone, so the
                            // first delta was zero or no better than it
                            assert(resolve_scan(t, now, acc1) == Some(p));
                        } else {
                            assert(acc1 == Some((stu_future_delta(stus[0], now), stu_stop_id_or_empty(stus[0]))));
                        }
                    } else {
                        assert(stu_future_delta(t[j - 1], now) == stu_future_delta(stus[j], now));
                    }
                }
                if acc1 == acc {
                    // nothing changed at the head; lift the witness by one
                    if resolve_scan(t, now, acc1) == Some(p) && acc != Some(p) {
                        let i0 = choose|i: int|
                            {
                                &&& 0 <= i < t.len()
                                &&& #[trigger] stu_future_delta(t[i], now) == p.0
                                &&& p.1 == stu_stop_id_or_empty(t[i])
                                &&& (forall|j: int|
                                    0 <= j < i && #[trigger] stu_future_delta(t[j], now) > 0
                                        ==> p.0 < stu_future_delta(t[j], now))
                                &&& (acc1 matches Some(q) ==> p.0 < q.0)
                            };
                        let i = i0 + 1;
                        assert(stu_future_delta(stus[i], now) == p.0);
                        assert forall|j: int|
                            0 <= j < i && #[trigger] stu_future_delta(stus[j], now) > 0 implies p.0
                            < stu_future_delta(stus[j], now) by {
                            if j == 0 {
                                // the head was not taken: either its delta is
                                // zero, or the accumulator already undercut it
                                match acc {
                                    None => {
                                        assert(stu_future_delta(stus[0], now) == 0);
                                    },
                                    Some(q) => {
                                        assert(q.0 <= stu_future_delta(stus[0], now));
                                        assert(p.0 < q.0);
                                    },
                                }
                            } else {
                                assert(stu_future_delta(t[j - 1], now) == stu_future_delta(
                                    stus[j],
                                    now,
                                ));
                            }
                        }
                    }
                } else {
                    // the head became the accumulator
                    let d0 = stu_future_delta(stus[0], now);
                    assert(acc1 == Some((d0, stu_stop_id_or_empty(stus[0]))));
                    if acc1 == Some(p) {
                        assert(stu_future_delta(stus[0], now) == p.0);
                        assert(p.1 == stu_stop_id_or_empty(stus[0]));
                    }
                }
            },
        }
    }
}

/// The law of the resolver: where no update has a strictly future arrival
/// the vehicle's current stop is answered; otherwise the answer is the
/// identifier of the first update attaining the smallest strictly positive
/// delta against `now`.
pub proof fn lemma_resolve_picks_nearest_future(ti: TrainInfoV, now: int)
    ensures
        (forall|j: int|
            0 <= j < ti.trip_update.stop_time_update.len() ==> #[trigger] stu_future_delta(
                ti.trip_update.stop_time_update[j],
                now,
            ) == 0) ==> resolve_spec(ti, now) == vp_stop_id_or_empty(ti.vehicle_position),
        (exists|j: int|
            0 <= j < ti.trip_update.stop_time_update.len() && #[trigger] stu_future_delta(
                ti.trip_update.stop_time_update[j],
                now,
            ) > 0) ==> exists|i: int|
            {
                &&& 0 <= i < ti.trip_update.stop_time_update.len()
                &&& #[trigger] stu_future_delta(ti.trip_update.stop_time_update[i], now) > 0
                &&& resolve_spec(ti, now) == stu_stop_id_or_empty(
                    ti.trip_update.stop_time_update[i],
                )
                &&& (forall|j: int|
                    0 <= j < ti.trip_update.stop_time_update.len() && #[trigger] stu_future_delta(
                        ti.trip_update.stop_time_update[j],
                        now,
                    ) > 0 ==> stu_future_delta(ti.trip_update.stop_time_update[i], now)
                        <= stu_future_delta(ti.trip_update.stop_time_update[j], now))
                &&& (forall|j: int|
                    0 <= j < i && #[trigger] stu_future_delta(ti.trip_update.stop_time_update[j], now)
                        > 0 ==> stu_future_delta(ti.trip_update.stop_time_update[i], now)
                        < stu_future_delta(ti.trip_update.stop_time_update[j], now))
            },
{
    let stus = ti.trip_update.stop_time_update;
    lemma_resolve_scan_min(stus, now, None);
}

/// The route identifier of a record: absent when the vehicle position has
/// no trip reference, otherwise the trip's route identifier (empty text
/// when the trip carries none).
pub open spec fn route_spec(vp: VehiclePositionV) -> Option<Seq<char>> {
    match vp.trip {
        None => None,
        Some(td) => Some(
            match td.route_id {
                Some(r) => r,
                None => Seq::empty(),
            },
        ),
    }
}

/// Reads the route identifier off the vehicle position's trip reference.
pub fn route_from_train_info(ti: &TrainInfo) -> (r: Option<String>)
    ensures
        r.deep_view() == route_spec(ti.deep_view().vehicle_position),
{
    match &ti.vehicle_position.trip {
        None => None,
        Some(td) => Some(
            match &td.route_id {
                Some(rid) => rid.clone(),
                None => String::new(),
            },
        ),
    }
}

/// The default proximity radius, in meters (one mile).
pub const DEFAULT_NEAR_RADIUS_M: u64 = 1610;

/// The default ETA horizon, in seconds (thirty minutes).
pub const DEFAULT_ETA_HORIZON_SECS: i64 = 1800;

/// The first stop-time update carrying the given stop identifier.
pub open spec fn find_stu(stus: Seq<StopTimeUpdateV>, sid: Seq<char>) -> Option<StopTimeUpdateV>
    decreases stus.len(),
{
    if stus.len() == 0 {
        None
    } else if stus[0].stop_id == Some(sid) {
        Some(stus[0])
    } else {
        find_stu(stus.skip(1), sid)
    }
}

/// The effective arrival timestamp of a train at a stop: the raw predicted
/// timestamp plus the optional delay. The sentinel 0 stands for "no
/// arrival known" — when no update matches the stop, when the matching
/// update has no arrival, or when the raw timestamp itself is 0 — and the
/// delay is not applied to it.
pub open spec fn effective_eta(stus: Seq<StopTimeUpdateV>, sid: Seq<char>) -> int {
    let arrival = match find_stu(stus, sid) {
        Some(stu) => stu.arrival,
        None => None,
    };
    match arrival {
        None => 0,
        Some(ev) => {
            let raw = event_time_or_zero(ev);
            if raw == 0 {
                0
            } else {
                raw + match ev.delay {
                    Some(d) => d as int,
                    None => 0,
                }
            }
        },
    }
}

/// The ETA text of a train at a stop: the humanized duration from `now` to
/// the effective arrival, absent when that duration is negative or beyond
/// the horizon, and the literal unknown sentinel when the effective
/// timestamp denotes no representable point in time.
pub open spec fn eta_spec(ti: TrainInfoV, sid: Seq<char>, now: int, horizon: int) -> Option<
    Seq<char>,
> {
    let eff = effective_eta(ti.trip_update.stop_time_update, sid);
    if !timestamp_representable_spec(eff) {
        Some("<UNKNOWN>"@)
    } else {
        let dur = eff - now;
        if dur < 0 || dur > horizon {
            None
        } else {
            Some(human_duration_of(dur))
        }
    }
}

/// Computes when the train is expected to arrive at the given stop, as
/// human-readable text: absent when the arrival lies in the past or more
/// than `horizon_secs` seconds out, and the unknown sentinel when the
/// effective timestamp cannot denote a point in time.
pub fn eta_from_train_info(ti: &TrainInfo, stop_id: &String, now: i64, horizon_secs: i64) -> (r:
    Option<String>)
    ensures
        r.deep_view() == eta_spec(ti.deep_view(), stop_id@, now as int, horizon_secs as int),
{
    let ghost sv = ti.trip_update.stop_time_update.deep_view();
    let n = ti.trip_update.stop_time_update.len();
    let mut i: usize = 0;
    let mut arrival: Option<StopTimeEvent> = None;
    let mut found = false;
    proof {
        assert(sv.skip(0) =~= sv);
    }
    while i < n && !found
        invariant
            i <= n,
            n == ti.trip_update.stop_time_update.len(),
            sv == ti.trip_update.stop_time_update.deep_view(),
            !found ==> arrival is None && find_stu(sv, stop_id@) == find_stu(
                sv.skip(i as int),
                stop_id@,
            ),
            found ==> match find_stu(sv, stop_id@) {
                Some(stu) => arrival == stu.arrival,
                None => false,
            },
        decreases n - i + if found { 0int } else { 1int },
    {
        let stu = &ti.trip_update.stop_time_update[i];
        proof {
            assert(sv.skip(i as int)[0] == sv[i as int]);
            assert(sv[i as int] == stu.deep_view());
        }
        let matches_id: bool = match &stu.stop_id {
            Some(s) => *s == *stop_id,
            None => false,
        };
        if matches_id {
            arrival = stu.arrival;
            found = true;
        } else {
            proof {
                assert(sv.skip(i as int).skip(1) =~= sv.skip(i as int + 1));
            }
            i += 1;
        }
    }
    proof {
        if !found {
            assert(sv.skip(n as int) =~= Seq::<StopTimeUpdateV>::empty());
        }
    }
    let eff: i128 = match arrival {
        None => 0,
        Some(ev) => {
            let raw: i64 = match ev.time {
                Some(t) => t,
                None => 0,
            };
            if raw == 0 {
                0
            } else {
                let delay: i32 = match ev.delay {
                    Some(d) => d,
                    None => 0,
                };
                raw as i128 + delay as i128
            }
        },
    };
    proof {
        assert(eff as int == effective_eta(sv, stop_id@));
    }
    let representable: bool = if eff >= i64::MIN as i128 && eff <= i64::MAX as i128 {
        timestamp_representable(eff as i64)
    } else {
        false
    };
    if !representable {
        return Some(String::from_str("<UNKNOWN>"));
    }
    let dur: i128 = eff - now as i128;
    if dur < 0 || dur > horizon_secs as i128 {
        None
    } else {
        Some(humanize_seconds(dur as u64))
    }
}

/// The display name of the stop with the given identifier, or the unknown
/// sentinel when the catalog has no such stop.
pub open spec fn get_stop_spec(ss: Seq<crate::types::StopV>, sid: Seq<char>) -> Seq<char> {
    match stop_lookup(ss, sid) {
        Some(st) => st.stop_name,
        None => "<UNKNOWN>"@,
    }
}

/// Looks the display name of a stop up in the catalog, answering the
/// unknown sentinel when the identifier is not catalogued.
pub fn get_stop(stops: &Stops, stop_id: &String) -> (r: String)
    ensures
        r@ == get_stop_spec(stops.deep_view(), stop_id@),
{
    let ghost ss = stops.deep_view();
    let n = stops.stops.len();
    let mut i: usize = 0;
    while i < n
        invariant
            i <= n,
            n == ss.len(),
            ss == stops.deep_view(),
            forall|j: int| 0 <= j < i ==> (#[trigger] ss[j]).stop_id != stop_id@,
        decreases n - i,
    {
        if stops.stops[i].stop_id == *stop_id {
            proof {
                crate::types::lemma_stop_index_of_first(ss, stop_id@, i as int);
            }
            return stops.stops[i].stop_name.clone();
        }
        i += 1;
    }
    proof {
        crate::types::lemma_stop_index_of_absent(ss, stop_id@);
    }
    String::from_str("<UNKNOWN>")
}

/// Whether a computed distance lies strictly within the radius; an
/// undefined distance is never near.
pub open spec fn is_near_spec(distance_m: Option<u64>, radius_m: u64) -> bool {
    match distance_m {
        Some(d) => d < radius_m,
        None => false,
    }
}

/// Decides proximity from a stop's computed great-circle distance to the
/// query point: strictly within the radius, and never near when the
/// distance computation was undefined.
pub fn is_near(distance_m: Option<u64>, radius_m: u64) -> (r: bool)
    ensures
        r == is_near_spec(distance_m, radius_m),
{
    match distance_m {
        Some(d) => d < radius_m,
        None => false,
    }
}

/// The catalog entries whose computed distance lies within the radius, in
/// catalog order. `ds[i]` is the computed distance of entry `ss[i]`.
pub open spec fn filter_near_spec(ss: Seq<StopV>, ds: Seq<Option<u64>>, radius_m: u64) -> Seq<
    StopV,
>
    decreases ss.len(),
{
    if ss.len() == 0 {
        Seq::empty()
    } else {
        let prefix = filter_near_spec(ss.drop_last(), ds.drop_last(), radius_m);
        if is_near_spec(ds[ss.len() - 1], radius_m) {
            prefix.push(ss.last())
        } else {
            prefix
        }
    }
}

/// Every filtered entry is an entry of the catalog.
proof fn lemma_filter_near_subset(ss: Seq<StopV>, ds: Seq<Option<u64>>, radius_m: u64, p: int)
    requires
        ds.len() == ss.len(),
        0 <= p < filter_near_spec(ss, ds, radius_m).len(),
    ensures
        exists|j: int|
            0 <= j < ss.len() && filter_near_spec(ss, ds, radius_m)[p] == #[trigger] ss[j],
    decreases ss.len(),
{
    let f = filter_near_spec(ss, ds, radius_m);
    if ss.len() > 0 {
        let prefix = filter_near_spec(ss.drop_last(), ds.drop_last(), radius_m);
        if p < prefix.len() {
            lemma_filter_near_subset(ss.drop_last(), ds.drop_last(), radius_m, p);
            let j = choose|j: int|
                0 <= j < ss.drop_last().len() && prefix[p] == #[trigger] ss.drop_last()[j];
            assert(f[p] == ss[j]);
        } else {
            assert(f[p] == ss[ss.len() - 1]);
        }
    }
}

/// Filtering keeps the catalog's keys unique.
proof fn lemma_filter_near_distinct(ss: Seq<StopV>, ds: Seq<Option<u64>>, radius_m: u64)
    requires
        ds.len() == ss.len(),
        forall|i: int, j: int|
            0 <= i < j < ss.len() ==> (#[trigger] ss[i]).stop_id != (#[trigger] ss[j]).stop_id,
    ensures
        forall|p: int, q: int|
            0 <= p < q < filter_near_spec(ss, ds, radius_m).len() ==> (#[trigger] filter_near_spec(
                ss,
                ds,
                radius_m,
            )[p]).stop_id != (#[trigger] filter_near_spec(ss, ds, radius_m)[q]).stop_id,
    decreases ss.len(),
{
    let f = filter_near_spec(ss, ds, radius_m);
    if ss.len() > 0 {
        let st = ss.drop_last();
        let dt = ds.drop_last();
        assert forall|i: int, j: int| 0 <= i < j < st.len() implies (#[trigger] st[i]).stop_id != (
        #[trigger] st[j]).stop_id by {
            assert(ss[i].stop_id != ss[j].stop_id);
        }
        lemma_filter_near_distinct(st, dt, radius_m);
        let prefix = filter_near_spec(st, dt, radius_m);
        assert forall|p: int, q: int| 0 <= p < q < f.len() implies (#[trigger] f[p]).stop_id != (
        #[trigger] f[q]).stop_id by {
            if q < prefix.len() {
                assert(prefix[p].stop_id != prefix[q].stop_id);
            } else {
                lemma_filter_near_subset(st, dt, radius_m, p);
                let j = choose|j: int| 0 <= j < st.len() && prefix[p] == #[trigger] st[j];
                assert(ss[j].stop_id != ss[ss.len() - 1].stop_id);
            }
        }
    }
}

/// Filters the catalog to the stops whose computed great-circle distance
/// to the query point lies within the radius. `distances[i]` is the
/// computed distance of catalog entry `i`, absent where the computation
/// was undefined.
pub fn find_stops_near(stops: &Stops, distances: &Vec<Option<u64>>, radius_m: u64) -> (r: Stops)
    requires
        stops.wf(),
        distances@.len() == stops.deep_view().len(),
    ensures
        r.deep_view() == filter_near_spec(stops.deep_view(), distances@, radius_m),
        r.wf(),
{
    let ghost ss = stops.deep_view();
    let ghost dsq = distances@;
    let n = stops.stops.len();
    let mut out = Stops::new();
    let mut i: usize = 0;
    proof {
        assert(ss.take(0) =~= Seq::<StopV>::empty());
        assert(dsq.take(0) =~= Seq::<Option<u64>>::empty());
    }
    while i < n
        invariant
            i <= n,
            n == ss.len(),
            dsq.len() == ss.len(),
            ss == stops.deep_view(),
            dsq == distances@,
            out.deep_view() == filter_near_spec(ss.take(i as int), dsq.take(i as int), radius_m),
        decreases n - i,
    {
        proof {
            assert(ss.take(i as int + 1).drop_last() =~= ss.take(i as int));
            assert(dsq.take(i as int + 1).drop_last() =~= dsq.take(i as int));
            assert(ss.take(i as int + 1).last() == ss[i as int]);
        }
        if is_near(distances[i], radius_m) {
            let stop = stops.stops[i].clone();
            out.stops.push(stop);
            proof {
                assert(out.deep_view() =~= filter_near_spec(
                    ss.take(i as int),
                    dsq.take(i as int),
                    radius_m,
                ).push(ss[i as int]));
            }
        }
        i += 1;
    }
    proof {
        assert(ss.take(n as int) =~= ss);
        assert(dsq.take(n as int) =~= dsq);
        lemma_filter_near_distinct(ss, dsq, radius_m);
    }
    out
}

/// The records whose resolved next stop is the given stop, in feed order.
pub open spec fn trains_near_spec(ts: Seq<TrainInfoV>, sid: Seq<char>, now: int) -> Seq<TrainInfoV>
    decreases ts.len(),
{
    if ts.len() == 0 {
        Seq::empty()
    } else {
        let prefix = trains_near_spec(ts.drop_last(), sid, now);
        if resolve_spec(ts.last(), now) == sid {
            prefix.push(ts.last())
        } else {
            prefix
        }
    }
}

/// Filters a train feed to the trains at or approaching the given stop:
/// those whose resolved next stop is the stop's identifier.
pub fn find_trains_near_stop(feed: &Vec<TrainInfo>, stop: &Stop, now: i64) -> (r: Vec<TrainInfo>)
    ensures
        r.deep_view() == trains_near_spec(feed.deep_view(), stop.stop_id@, now as int),
{
    let ghost ts = feed.deep_view();
    let n = feed.len();
    let mut out: Vec<TrainInfo> = Vec::new();
    let mut i: usize = 0;
    proof {
        assert(ts.take(0) =~= Seq::<TrainInfoV>::empty());
        assert(out.deep_view() =~= Seq::<TrainInfoV>::empty());
    }
    while i < n
        invariant
            i <= n,
            n == ts.len(),
            ts == feed.deep_view(),
            out.deep_view() == trains_near_spec(ts.take(i as int), stop.stop_id@, now as int),
        decreases n - i,
    {
        proof {
            assert(ts.take(i as int + 1).drop_last() =~= ts.take(i as int));
            assert(ts.take(i as int + 1).last() == ts[i as int]);
        }
        let resolved = stop_id_from_train_info(&feed[i], now);
        if resolved == stop.stop_id {
            out.push(feed[i].clone());
            proof {
                assert(out.deep_view() =~= trains_near_spec(
                    ts.take(i as int),
                    stop.stop_id@,
                    now as int,
                ).push(ts[i as int]));
            }
        }
        i += 1;
    }
    proof {
        assert(ts.take(n as int) =~= ts);
    }
    out
}

/// Whether the `k`-th consecutive pair of `s` reconciles to a record.
pub open spec fn pair_ok_at(s: Seq<FeedEntityV>, k: int) -> bool {
    pair_record(s[2 * k], s[2 * k + 1]) is Ok
}

/// An entity stream is well paired when it has even length and every
/// consecutive pair reconciles to a record.
pub open spec fn well_paired(s: Seq<FeedEntityV>) -> bool {
    &&& s.len() % 2 == 0
    &&& forall|k: int| 0 <= k < s.len() / 2 ==> #[trigger] pair_ok_at(s, k)
}

/// Merging a well-paired stream of `n` entities succeeds and yields
/// exactly `n / 2` records.
pub proof fn lemma_merge_well_paired(s: Seq<FeedEntityV>)
    requires
        well_paired(s),
    ensures
        merge_spec(s) is Ok,
        merge_spec(s)->Ok_0.len() == s.len() / 2,
    decreases s.len(),
{
    if s.len() >= 2 {
        assert(pair_ok_at(s, 0));
        let t = s.skip(2);
        assert forall|k: int| 0 <= k < t.len() / 2 implies #[trigger] pair_ok_at(t, k) by {
            assert(pair_ok_at(s, k + 1));
            assert(t[2 * k] == s[2 * (k + 1)]);
            assert(t[2 * k + 1] == s[2 * (k + 1) + 1]);
        }
        lemma_merge_well_paired(t);
    }
}

/// Merging a well-paired stream keeps pairing order: the `k`-th record is
/// what the `k`-th pair reconciles to.
pub proof fn lemma_merge_well_paired_at(s: Seq<FeedEntityV>, k: int)
    requires
        well_paired(s),
        0 <= k < s.len() / 2,
    ensures
        merge_spec(s) is Ok,
        merge_spec(s)->Ok_0[k] == pair_record(s[2 * k], s[2 * k + 1])->Ok_0,
    decreases k,
{
    lemma_merge_well_paired(s);
    assert(pair_ok_at(s, 0));
    let t = s.skip(2);
    assert forall|j: int| 0 <= j < t.len() / 2 implies #[trigger] pair_ok_at(t, j) by {
        assert(pair_ok_at(s, j + 1));
        assert(t[2 * j] == s[2 * (j + 1)]);
        assert(t[2 * j + 1] == s[2 * (j + 1) + 1]);
    }
    lemma_merge_well_paired(t);
    if k == 0 {
    } else {
        lemma_merge_well_paired_at(t, k - 1);
        assert(t[2 * (k - 1)] == s[2 * k]);
        assert(t[2 * (k - 1) + 1] == s[2 * k + 1]);
    }
}

/// Merging fails on an odd-length stream (with the odd-count error), and
/// on any even-length stream whose `k`-th pair breaks an invariant — in
/// particular a pair whose trip references differ.
pub proof fn lemma_merge_rejects_malformed(s: Seq<FeedEntityV>, k: int)
    requires
        s.len() % 2 != 0 || (0 <= k < s.len() / 2 && !pair_ok_at(s, k)),
    ensures
        merge_spec(s) is Err,
        s.len() % 2 != 0 ==> merge_spec(s) == Err::<Seq<TrainInfoV>, _>(
            InvariantError::OddEntityCount,
        ),
    decreases k,
{
    if s.len() % 2 == 0 {
        if pair_record(s[0], s[1]) is Ok {
            assert(pair_ok_at(s, 0));
            let t = s.skip(2);
            assert(t[2 * (k - 1)] == s[2 * k]);
            assert(t[2 * (k - 1) + 1] == s[2 * k + 1]);
            assert(!pair_ok_at(t, k - 1));
            lemma_merge_rejects_malformed(t, k - 1);
        }
    }
}

} // verus!
