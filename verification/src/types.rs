//! Data model of the feed and of the static stop catalog.
//!
//! The raw feed consists of entities that each carry at most one trip update
//! and at most one vehicle position; consecutive pairs of entities describe
//! one train. Every optional field of the wire schema is an explicit
//! `Option`. Each type has a ghost view (`deep_view`) over which contracts
//! are stated: strings become `Seq<char>`, vectors become `Seq`.

use vstd::prelude::*;
use vstd::string::StrSliceExecFns;

verus! {

/// A predicted arrival: absolute timestamp in seconds, optional delay in
/// seconds.
#[derive(Clone, Copy)]
pub struct StopTimeEvent {
    pub time: Option<i64>,
    pub delay: Option<i32>,
}

/// A predicted arrival at one stop within a trip.
pub struct StopTimeUpdate {
    pub stop_id: Option<String>,
    pub arrival: Option<StopTimeEvent>,
}

/// The identifier of a trip, correlating the two halves of a train's feed
/// pair; the route identifier rides along.
pub struct TripDescriptor {
    pub trip_id: Option<String>,
    pub route_id: Option<String>,
}

/// A trip reference plus the ordered arrival predictions of that trip.
pub struct TripUpdate {
    pub trip: TripDescriptor,
    pub stop_time_update: Vec<StopTimeUpdate>,
}

/// Where a train currently is: its trip reference and its current stop.
pub struct VehiclePosition {
    pub trip: Option<TripDescriptor>,
    pub stop_id: Option<String>,
}

/// One element of the raw feed, carrying at most one of each payload.
pub struct FeedEntity {
    pub trip_update: Option<TripUpdate>,
    pub vehicle: Option<VehiclePosition>,
}

/// The reconciled per-train record: one trip update and one vehicle
/// position that reference the same trip.
pub struct TrainInfo {
    pub trip_update: TripUpdate,
    pub vehicle_position: VehiclePosition,
}

// Ghost views of the model. String-valued fields are viewed as `Seq<char>`,
// vectors as `Seq`; all-scalar types stand for themselves.

pub ghost struct StopTimeUpdateV {
    pub stop_id: Option<Seq<char>>,
    pub arrival: Option<StopTimeEvent>,
}

pub ghost struct TripDescriptorV {
    pub trip_id: Option<Seq<char>>,
    pub route_id: Option<Seq<char>>,
}

pub ghost struct TripUpdateV {
    pub trip: TripDescriptorV,
    pub stop_time_update: Seq<StopTimeUpdateV>,
}

pub ghost struct VehiclePositionV {
    pub trip: Option<TripDescriptorV>,
    pub stop_id: Option<Seq<char>>,
}

pub ghost struct FeedEntityV {
    pub trip_update: Option<TripUpdateV>,
    pub vehicle: Option<VehiclePositionV>,
}

pub ghost struct TrainInfoV {
    pub trip_update: TripUpdateV,
    pub vehicle_position: VehiclePositionV,
}

impl DeepView for StopTimeUpdate {
    type V = StopTimeUpdateV;

    open spec fn deep_view(&self) -> StopTimeUpdateV {
        StopTimeUpdateV { stop_id: self.stop_id.deep_view(), arrival: self.arrival }
    }
}

impl DeepView for TripDescriptor {
    type V = TripDescriptorV;

    open spec fn deep_view(&self) -> TripDescriptorV {
        TripDescriptorV {
            trip_id: self.trip_id.deep_view(),
            route_id: self.route_id.deep_view(),
        }
    }
}

impl DeepView for TripUpdate {
    type V = TripUpdateV;

    open spec fn deep_view(&self) -> TripUpdateV {
        TripUpdateV {
            trip: self.trip.deep_view(),
            stop_time_update: self.stop_time_update.deep_view(),
        }
    }
}

impl DeepView for VehiclePosition {
    type V = VehiclePositionV;

    open spec fn deep_view(&self) -> VehiclePositionV {
        VehiclePositionV { trip: self.trip.deep_view(), stop_id: self.stop_id.deep_view() }
    }
}

impl DeepView for FeedEntity {
    type V = FeedEntityV;

    open spec fn deep_view(&self) -> FeedEntityV {
        FeedEntityV { trip_update: self.trip_update.deep_view(), vehicle: self.vehicle.deep_view() }
    }
}

impl DeepView for TrainInfo {
    type V = TrainInfoV;

    open spec fn deep_view(&self) -> TrainInfoV {
        TrainInfoV {
            trip_update: self.trip_update.deep_view(),
            vehicle_position: self.vehicle_position.deep_view(),
        }
    }
}

impl Clone for StopTimeUpdate {
    fn clone(&self) -> (r: Self)
        ensures
            r.deep_view() == self.deep_view(),
    {
        StopTimeUpdate {
            stop_id: match &self.stop_id {
                Some(s) => Some(s.clone()),
                None => None,
            },
            arrival: self.arrival,
        }
    }
}

impl Clone for TripDescriptor {
    fn clone(&self) -> (r: Self)
        ensures
            r.deep_view() == self.deep_view(),
    {
        TripDescriptor {
            trip_id: match &self.trip_id {
                Some(s) => Some(s.clone()),
                None => None,
            },
            route_id: match &self.route_id {
                Some(s) => Some(s.clone()),
                None => None,
            },
        }
    }
}

impl Clone for TripUpdate {
    fn clone(&self) -> (r: Self)
        ensures
            r.deep_view() == self.deep_view(),
    {
        let stus = self.stop_time_update.clone();
        proof {
            assert forall|i: int| 0 <= i < self.stop_time_update@.len() implies stus.deep_view()[i]
                == self.stop_time_update.deep_view()[i] by {
                assert(cloned(self.stop_time_update[i], stus[i]));
            }
            assert(stus.deep_view() =~= self.stop_time_update.deep_view());
        }
        TripUpdate { trip: self.trip.clone(), stop_time_update: stus }
    }
}

impl Clone for VehiclePosition {
    fn clone(&self) -> (r: Self)
        ensures
            r.deep_view() == self.deep_view(),
    {
        VehiclePosition {
            trip: match &self.trip {
                Some(t) => Some(t.clone()),
                None => None,
            },
            stop_id: match &self.stop_id {
                Some(s) => Some(s.clone()),
                None => None,
            },
        }
    }
}

impl Clone for TrainInfo {
    fn clone(&self) -> (r: Self)
        ensures
            r.deep_view() == self.deep_view(),
    {
        TrainInfo {
            trip_update: self.trip_update.clone(),
            vehicle_position: self.vehicle_position.clone(),
        }
    }
}

/// Why a raw feed was rejected as structurally malformed.
#[derive(Clone, Copy, Debug, PartialEq, Eq, Structural)]
pub enum InvariantError {
    /// The entity stream does not split into pairs.
    OddEntityCount,
    /// Neither entity of a pair carries a trip update.
    MissingTripUpdate,
    /// Neither entity of a pair carries a vehicle position.
    MissingVehiclePosition,
    /// The two halves of a pair do not reference the same trip.
    TripMismatch,
}

/// Coarse direction of travel, derived from an upstream naming convention.
#[derive(Clone, Copy, Debug, PartialEq, Eq, Structural)]
pub enum Directionality {
    N,
    S,
    Unknown,
}

/// Holds when the characters `.` `.` `c` occur consecutively in `s`.
pub open spec fn has_direction_marker(s: Seq<char>, c: char) -> bool {
    exists|i: int| 0 <= i && i + 2 < s.len() && #[trigger] s[i] == '.' && s[i + 1] == '.' && s[i + 2]
        == c
}

/// The direction encoded in an optional trip identifier: `..N` means north,
/// otherwise `..S` means south, anything else is unknown.
pub open spec fn classify_spec(trip_id: Option<Seq<char>>) -> Directionality {
    match trip_id {
        None => Directionality::Unknown,
        Some(s) => if has_direction_marker(s, 'N') {
            Directionality::N
        } else if has_direction_marker(s, 'S') {
            Directionality::S
        } else {
            Directionality::Unknown
        },
    }
}

/// The display label of a direction.
pub open spec fn direction_label(d: Directionality) -> Seq<char> {
    match d {
        Directionality::N => "north"@,
        Directionality::S => "south"@,
        Directionality::Unknown => "<UNKNOWN>"@,
    }
}

/// Reports whether `.` `.` `c` occur consecutively in `s`.
fn contains_direction_marker(s: &str, c: char) -> (r: bool)
    ensures
        r == has_direction_marker(s@, c),
{
    let n = s.unicode_len();
    if n < 3 {
        return false;
    }
    let mut i: usize = 0;
    while i <= n - 3
        invariant
            3 <= n,
            i <= n - 2,
            n == s@.len(),
            forall|j: int|
                0 <= j && j + 2 < s@.len() && j < i ==> !(#[trigger] s@[j] == '.' && s@[j + 1]
                    == '.' && s@[j + 2] == c),
        decreases n - i,
    {
        if s.get_char(i) == '.' && s.get_char(i + 1) == '.' && s.get_char(i + 2) == c {
            return true;
        }
        i += 1;
    }
    false
}

/// A static catalog entry. Coordinates are held in microdegrees (degrees
/// scaled by one million), so that a caller owning the original fractional
/// coordinates converts once at the boundary.
pub struct Stop {
    pub stop_id: String,
    pub stop_name: String,
    pub stop_lat_micro: i64,
    pub stop_lon_micro: i64,
    pub location_type: String,
    pub parent_station: String,
}

pub ghost struct StopV {
    pub stop_id: Seq<char>,
    pub stop_name: Seq<char>,
    pub stop_lat_micro: i64,
    pub stop_lon_micro: i64,
    pub location_type: Seq<char>,
    pub parent_station: Seq<char>,
}

impl DeepView for Stop {
    type V = StopV;

    open spec fn deep_view(&self) -> StopV {
        StopV {
            stop_id: self.stop_id@,
            stop_name: self.stop_name@,
            stop_lat_micro: self.stop_lat_micro,
            stop_lon_micro: self.stop_lon_micro,
            location_type: self.location_type@,
            parent_station: self.parent_station@,
        }
    }
}

impl Clone for Stop {
    fn clone(&self) -> (r: Self)
        ensures
            r.deep_view() == self.deep_view(),
    {
        Stop {
            stop_id: self.stop_id.clone(),
            stop_name: self.stop_name.clone(),
            stop_lat_micro: self.stop_lat_micro,
            stop_lon_micro: self.stop_lon_micro,
            location_type: self.location_type.clone(),
            parent_station: self.parent_station.clone(),
        }
    }
}

/// The index of the first entry of `ss` whose identifier is `sid`.
pub open spec fn stop_index_of(ss: Seq<StopV>, sid: Seq<char>) -> Option<int>
    decreases ss.len(),
{
    if ss.len() == 0 {
        None
    } else if ss[0].stop_id == sid {
        Some(0int)
    } else {
        match stop_index_of(ss.skip(1), sid) {
            Some(i) => Some(i + 1),
            None => None,
        }
    }
}

/// The first entry of `ss` whose identifier is `sid`.
pub open spec fn stop_lookup(ss: Seq<StopV>, sid: Seq<char>) -> Option<StopV> {
    match stop_index_of(ss, sid) {
        Some(i) => Some(ss[i]),
        None => None,
    }
}

/// The catalog after `insert`: an entry with the same identifier is
/// replaced in place, otherwise the new entry is appended.
pub open spec fn stops_insert_spec(ss: Seq<StopV>, s: StopV) -> Seq<StopV> {
    match stop_index_of(ss, s.stop_id) {
        Some(i) => ss.update(i, s),
        None => ss.push(s),
    }
}

/// The static stop catalog: a read-only lookup table keyed by stop
/// identifier, with unique keys.
pub struct Stops {
    pub stops: Vec<Stop>,
}

impl DeepView for Stops {
    type V = Seq<StopV>;

    open spec fn deep_view(&self) -> Seq<StopV> {
        self.stops.deep_view()
    }
}

impl Stops {
    /// Keys are unique: no two entries share a stop identifier.
    pub open spec fn wf(&self) -> bool {
        forall|i: int, j: int|
            0 <= i < j < self.deep_view().len() ==> (#[trigger] self.deep_view()[i]).stop_id != (
            #[trigger] self.deep_view()[j]).stop_id
    }

    /// An empty catalog.
    pub fn new() -> (r: Self)
        ensures
            r.deep_view() == Seq::<StopV>::empty(),
            r.wf(),
    {
        let r = Stops { stops: Vec::new() };
        proof {
            assert(r.deep_view() =~= Seq::<StopV>::empty());
        }
        r
    }

    /// The number of catalog entries.
    pub fn len(&self) -> (n: usize)
        ensures
            n == self.deep_view().len(),
    {
        self.stops.len()
    }

    /// Inserts an entry, replacing the entry with the same identifier if
    /// one is present.
    pub fn insert(&mut self, stop: Stop)
        requires
            old(self).wf(),
        ensures
            final(self).deep_view() == stops_insert_spec(old(self).deep_view(), stop.deep_view()),
            final(self).wf(),
    {
        let ghost ss = self.deep_view();
        let n = self.stops.len();
        let mut i: usize = 0;
        while i < n
            invariant
                n == ss.len(),
                i <= n,
                ss == old(self).deep_view(),
                old(self).wf(),
                self.deep_view() == ss,
                forall|j: int| 0 <= j < i ==> (#[trigger] ss[j]).stop_id != stop.deep_view().stop_id,
            decreases n - i,
        {
            if self.stops[i].stop_id == stop.stop_id {
                proof {
                    lemma_stop_index_of_first(ss, stop.deep_view().stop_id, i as int);
                }
                let ghost sv = stop.deep_view();
                self.stops.set(i, stop);
                proof {
                    assert(self.deep_view() =~= ss.update(i as int, sv));
                    assert forall|p: int, q: int|
                        0 <= p < q < self.deep_view().len() implies (
                    #[trigger] self.deep_view()[p]).stop_id != (
                    #[trigger] self.deep_view()[q]).stop_id by {
                        assert((#[trigger] old(self).deep_view()[p]).stop_id != (
                        #[trigger] old(self).deep_view()[q]).stop_id);
                        assert(sv.stop_id == ss[i as int].stop_id);
                    }
                }
                return ;
            }
            i += 1;
        }
        proof {
            lemma_stop_index_of_absent(ss, stop.deep_view().stop_id);
        }
        self.stops.push(stop);
        proof {
            assert(self.deep_view() =~= ss.push(stop.deep_view()));
        }
    }
}

/// Where `sid` first occurs at position `k` of `ss` and nowhere earlier,
/// the search finds exactly `k`.
pub proof fn lemma_stop_index_of_first(ss: Seq<StopV>, sid: Seq<char>, k: int)
    requires
        0 <= k < ss.len(),
        ss[k].stop_id == sid,
        forall|j: int| 0 <= j < k ==> (#[trigger] ss[j]).stop_id != sid,
    ensures
        stop_index_of(ss, sid) == Some(k),
    decreases k,
{
    if k == 0 {
    } else {
        lemma_stop_index_of_first(ss.skip(1), sid, k - 1);
    }
}

/// Where `sid` occurs nowhere in `ss`, the search finds nothing.
pub proof fn lemma_stop_index_of_absent(ss: Seq<StopV>, sid: Seq<char>)
    requires
        forall|j: int| 0 <= j < ss.len() ==> (#[trigger] ss[j]).stop_id != sid,
    ensures
        stop_index_of(ss, sid) is None,
    decreases ss.len(),
{
    if ss.len() == 0 {
    } else {
        lemma_stop_index_of_absent(ss.skip(1), sid);
    }
}

/// One row of a query's answer: a train at or approaching a nearby stop.
pub struct AnnotatedMatch {
    pub route: String,
    pub direction: Directionality,
    pub stop_name: String,
    pub eta: String,
}

pub ghost struct AnnotatedMatchV {
    pub route: Seq<char>,
    pub direction: Directionality,
    pub stop_name: Seq<char>,
    pub eta: Seq<char>,
}

impl DeepView for AnnotatedMatch {
    type V = AnnotatedMatchV;

    open spec fn deep_view(&self) -> AnnotatedMatchV {
        AnnotatedMatchV {
            route: self.route@,
            direction: self.direction,
            stop_name: self.stop_name@,
            eta: self.eta@,
        }
    }
}

impl Directionality {
    /// Derives the direction of travel from the trip identifier of the
    /// record's trip update, by looking for the literal markers `..N` and
    /// `..S` (north wins where both occur).
    pub fn from_train_info(ti: &TrainInfo) -> (r: Self)
        ensures
            r == classify_spec(ti.trip_update.trip.trip_id.deep_view()),
    {
        match &ti.trip_update.trip.trip_id {
            None => Directionality::Unknown,
            Some(trip_id) => {
                if contains_direction_marker(trip_id.as_str(), 'N') {
                    Directionality::N
                } else if contains_direction_marker(trip_id.as_str(), 'S') {
                    Directionality::S
                } else {
                    Directionality::Unknown
                }
            },
        }
    }

    /// The display label of this direction.
    pub fn to_string(&self) -> (r: &'static str)
        ensures
            r@ == direction_label(*self),
    {
        match self {
            Self::N => "north",
            Self::S => "south",
            Self::Unknown => "<UNKNOWN>",
        }
    }
}

} // verus!
