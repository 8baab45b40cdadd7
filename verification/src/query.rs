//! The query pipeline: which trains are approaching stops near a point,
//! and when. The caller supplies the catalog, the per-train records, and
//! the computed distance of every catalog entry to the query point.

use crate::helpers::{
    eta_from_train_info, eta_spec, is_near, is_near_spec, resolve_spec, route_from_train_info,
    route_spec, stop_id_from_train_info,
};
use crate::types::{
    classify_spec, AnnotatedMatch, AnnotatedMatchV, Directionality, StopV, Stops, TrainInfo,
    TrainInfoV,
};
use vstd::prelude::*;
use vstd::string::StringExecFns;

verus! {

/// The answer row for one matched train at one stop: the route (or the
/// unknown sentinel where the vehicle has no trip reference), the
/// direction, the stop's display name, and the ETA text.
pub open spec fn match_row(st: StopV, t: TrainInfoV, eta_text: Seq<char>) -> AnnotatedMatchV {
    AnnotatedMatchV {
        route: match route_spec(t.vehicle_position) {
            Some(r) => r,
            None => "<UNKNOWN>"@,
        },
        direction: classify_spec(t.trip_update.trip.trip_id),
        stop_name: st.stop_name,
        eta: eta_text,
    }
}

/// The rows one nearby stop contributes: one row for every record whose
/// resolved next stop is the stop and whose ETA is worth reporting, in
/// feed order.
pub open spec fn stop_matches(st: StopV, ts: Seq<TrainInfoV>, now: int, horizon: int) -> Seq<
    AnnotatedMatchV,
>
    decreases ts.len(),
{
    if ts.len() == 0 {
        Seq::empty()
    } else {
        let prefix = stop_matches(st, ts.drop_last(), now, horizon);
        let t = ts.last();
        if resolve_spec(t, now) == st.stop_id {
            match eta_spec(t, st.stop_id, now, horizon) {
                Some(text) => prefix.push(match_row(st, t, text)),
                None => prefix,
            }
        } else {
            prefix
        }
    }
}

/// The full answer: for every catalog stop within the radius, in catalog
/// order, the rows of its matched trains.
pub open spec fn query_spec(
    ss: Seq<StopV>,
    ds: Seq<Option<u64>>,
    ts: Seq<TrainInfoV>,
    radius_m: u64,
    now: int,
    horizon: int,
) -> Seq<AnnotatedMatchV>
    decreases ss.len(),
{
    if ss.len() == 0 {
        Seq::empty()
    } else {
        let prefix = query_spec(ss.drop_last(), ds.drop_last(), ts, radius_m, now, horizon);
        if is_near_spec(ds[ss.len() - 1], radius_m) {
            prefix + stop_matches(ss.last(), ts, now, horizon)
        } else {
            prefix
        }
    }
}

/// Answers the proximity query over an in-memory snapshot: every train
/// whose resolved next stop is a catalog stop within `radius_m` of the
/// query point, annotated with route, direction, stop name and ETA.
/// `distances[i]` is the computed great-circle distance of catalog entry
/// `i` to the query point, absent where the computation was undefined.
pub fn query(
    stops: &Stops,
    distances: &Vec<Option<u64>>,
    records: &Vec<TrainInfo>,
    radius_m: u64,
    now: i64,
    horizon_secs: i64,
) -> (r: Vec<AnnotatedMatch>)
    requires
        distances@.len() == stops.deep_view().len(),
    ensures
        r.deep_view() == query_spec(
            stops.deep_view(),
            distances@,
            records.deep_view(),
            radius_m,
            now as int,
            horizon_secs as int,
        ),
{
    let ghost ss = stops.deep_view();
    let ghost dsq = distances@;
    let ghost ts = records.deep_view();
    let mut out: Vec<AnnotatedMatch> = Vec::new();
    let n = stops.stops.len();
    let mut i: usize = 0;
    proof {
        assert(ss.take(0) =~= Seq::<StopV>::empty());
        assert(dsq.take(0) =~= Seq::<Option<u64>>::empty());
        assert(out.deep_view() =~= Seq::<AnnotatedMatchV>::empty());
    }
    while i < n
        invariant
            i <= n,
            n == ss.len(),
            dsq.len() == ss.len(),
            ss == stops.deep_view(),
            dsq == distances@,
            ts == records.deep_view(),
            out.deep_view() == query_spec(
                ss.take(i as int),
                dsq.take(i as int),
                ts,
                radius_m,
                now as int,
                horizon_secs as int,
            ),
        decreases n - i,
    {
        proof {
            assert(ss.take(i as int + 1).drop_last() =~= ss.take(i as int));
            assert(dsq.take(i as int + 1).drop_last() =~= dsq.take(i as int));
            assert(ss.take(i as int + 1).last() == ss[i as int]);
        }
        if is_near(distances[i], radius_m) {
            let stop = &stops.stops[i];
            proof {
                assert(ss[i as int] == stop.deep_view());
            }
            let ghost out0 = out.deep_view();
            let m = records.len();
            let mut j: usize = 0;
            proof {
                assert(ts.take(0) =~= Seq::<TrainInfoV>::empty());
                assert(out.deep_view() =~= out0 + stop_matches(
                    ss[i as int],
                    ts.take(0),
                    now as int,
                    horizon_secs as int,
                ));
            }
            while j < m
                invariant
                    j <= m,
                    m == ts.len(),
                    i < n,
                    n == ss.len(),
                    ss == stops.deep_view(),
                    ts == records.deep_view(),
                    stop == &stops.stops[i as int],
                    stop.deep_view() == ss[i as int],
                    out.deep_view() == out0 + stop_matches(
                        ss[i as int],
                        ts.take(j as int),
                        now as int,
                        horizon_secs as int,
                    ),
                decreases m - j,
            {
                proof {
                    assert(ts.take(j as int + 1).drop_last() =~= ts.take(j as int));
                    assert(ts.take(j as int + 1).last() == ts[j as int]);
                }
                let rec = &records[j];
                proof {
                    assert(ts[j as int] == rec.deep_view());
                }
                let resolved = stop_id_from_train_info(rec, now);
                if resolved == stop.stop_id {
                    match eta_from_train_info(rec, &resolved, now, horizon_secs) {
                        None => {},
                        Some(eta_text) => {
                            let route: String = match route_from_train_info(rec) {
                                Some(rt) => rt,
                                None => String::from_str("<UNKNOWN>"),
                            };
                            let direction = Directionality::from_train_info(rec);
                            let stop_name = stop.stop_name.clone();
                            let ghost prev = out.deep_view();
                            let row = AnnotatedMatch { route, direction, stop_name, eta: eta_text };
                            proof {
                                assert(row.deep_view() == match_row(
                                    ss[i as int],
                                    ts[j as int],
                                    row.eta@,
                                ));
                            }
                            out.push(row);
                            proof {
                                assert(out.deep_view() =~= (out0 + stop_matches(
                                    ss[i as int],
                                    ts.take(j as int),
                                    now as int,
                                    horizon_secs as int,
                                )).push(out.deep_view().last()));
                            }
                        },
                    }
                }
                j += 1;
            }
            proof {
                assert(ts.take(m as int) =~= ts);
            }
        }
        i += 1;
    }
    proof {
        assert(ss.take(n as int) =~= ss);
        assert(dsq.take(n as int) =~= dsq);
    }
    out
}

} // verus!
