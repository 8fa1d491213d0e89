use vstd::prelude::*;

verus! {

/// Largest admissible observation time, in seconds since the epoch: a time
/// that still fits a signed 64-bit value once converted to milliseconds.
pub const MAX_OBSERVED_AT: i64 = 9_223_372_036_854_775;

/// The four raw counters a snapshot supplies for one station.
#[derive(Clone, Copy, PartialEq, Eq, Structural, Debug)]
pub struct Counters {
    /// Raw bikes available (electric bikes included).
    pub bikes_raw: i32,
    /// Electric bikes available.
    pub ebikes: i32,
    /// Bikes disabled.
    pub disabled: i32,
    /// Docks available.
    pub docks: i32,
}

impl Counters {
    /// Well-formed counters are non-negative, as the feed requires.
    pub open spec fn wf(&self) -> bool {
        0 <= self.bikes_raw && 0 <= self.ebikes && 0 <= self.disabled && 0 <= self.docks
    }
}

/// Mathematical model of one station record: its key and status as
/// character sequences, its counters as plain values.
#[verifier::ext_equal]
pub struct RecModel {
    pub key: Seq<char>,
    pub counters: Counters,
    pub status: Option<Seq<char>>,
}

/// One station's counters at a single observation instant.
#[derive(Debug)]
pub struct StationRecord {
    /// Opaque string key, stable across files.
    pub station_id: String,
    /// The raw counters.
    pub counters: Counters,
    /// Optional status flag; consulted only by the filter policy.
    pub status: Option<String>,
}

impl View for StationRecord {
    type V = RecModel;

    open spec fn view(&self) -> RecModel {
        RecModel {
            key: self.station_id@,
            counters: self.counters,
            status: match self.status {
                Some(s) => Some(s@),
                None => None,
            },
        }
    }
}

impl StationRecord {
    pub open spec fn wf(&self) -> bool {
        self.counters.wf()
    }
}

impl Clone for StationRecord {
    fn clone(&self) -> (r: Self)
        ensures
            r == self,
    {
        StationRecord {
            station_id: self.station_id.clone(),
            counters: self.counters,
            status: match &self.status {
                Some(s) => Some(s.clone()),
                None => None,
            },
        }
    }
}

/// Mathematical model of one decoded snapshot.
#[verifier::ext_equal]
pub struct SnapModel {
    pub observed_at: i64,
    pub stations: Seq<RecModel>,
}

/// One decoded input file: an observation time and the stations seen then.
#[derive(Debug)]
pub struct Snapshot {
    /// Seconds since the epoch, whole seconds.
    pub observed_at: i64,
    pub stations: Vec<StationRecord>,
}

impl View for Snapshot {
    type V = SnapModel;

    open spec fn view(&self) -> SnapModel {
        SnapModel {
            observed_at: self.observed_at,
            stations: self.stations@.map_values(|rec: StationRecord| rec@),
        }
    }
}

impl Snapshot {
    pub open spec fn wf(&self) -> bool {
        &&& -MAX_OBSERVED_AT <= self.observed_at <= MAX_OBSERVED_AT
        &&& forall|i: int| 0 <= i < self.stations@.len() ==> (#[trigger] self.stations@[i]).wf()
    }
}

/// Whether station records are filtered by their status flag.
///
/// Structural parsing always accepts a record regardless of its status; this
/// policy is a separate, named step that the caller enables or disables.
#[derive(Debug)]
pub enum FilterPolicy {
    /// Keep every record.
    KeepAll,
    /// Keep only records whose status equals the configured sentinel.
    ActiveOnly { sentinel: String },
}

/// A record passes the filter when the policy keeps everything, or when its
/// status is present and equals the policy's sentinel.
pub open spec fn keep_model(rm: RecModel, policy: FilterPolicy) -> bool {
    match policy {
        FilterPolicy::KeepAll => true,
        FilterPolicy::ActiveOnly { sentinel } => match rm.status {
            Some(s) => s == sentinel@,
            None => false,
        },
    }
}

/// The same filter, on an executable record.
pub open spec fn keep_spec(rec: StationRecord, policy: FilterPolicy) -> bool {
    keep_model(rec@, policy)
}

/// Decide whether one record passes the filter policy.
pub fn keep_record(rec: &StationRecord, policy: &FilterPolicy) -> (r: bool)
    ensures
        r == keep_spec(*rec, *policy),
{
    match policy {
        FilterPolicy::KeepAll => true,
        FilterPolicy::ActiveOnly { sentinel } => match &rec.status {
            Some(s) => s.eq(sentinel),
            None => false,
        },
    }
}

/// The explicit, named filter step: keep exactly the records that pass the
/// policy, in their original order.
pub fn filter_stations(stations: &Vec<StationRecord>, policy: &FilterPolicy) -> (r: Vec<
    StationRecord,
>)
    ensures
        r@ == stations@.filter(|rec: StationRecord| keep_spec(rec, *policy)),
{
    let mut out: Vec<StationRecord> = Vec::new();
    let n: usize = stations.len();
    proof {
        assert(stations@.take(0).filter(|rec: StationRecord| keep_spec(rec, *policy))
            =~= Seq::<StationRecord>::empty());
    }
    for i in 0..n
        invariant
            n == stations@.len(),
            out@ == stations@.take(i as int).filter(
                |rec: StationRecord| keep_spec(rec, *policy),
            ),
    {
        proof {
            let prefix = stations@.take(i as int);
            let x = stations@[i as int];
            prefix.lemma_filter_push(x, |rec: StationRecord| keep_spec(rec, *policy));
            assert(stations@.take(i + 1) =~= prefix.push(x));
        }
        if keep_record(&stations[i], policy) {
            out.push(stations[i].clone());
        }
    }
    proof {
        assert(stations@.take(n as int) =~= stations@);
    }
    out
}

/// Non-electric bikes available: the raw bikes-available counter minus the
/// e-bikes-available counter, passed through unclamped (a negative result is
/// a data-quality signal, not an error).
pub fn derive_bikes_available(raw: i32, ebikes: i32) -> (r: i32)
    requires
        0 <= raw,
        0 <= ebikes,
    ensures
        r == raw - ebikes,
{
    raw - ebikes
}

} // verus!
