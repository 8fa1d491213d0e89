use vstd::prelude::*;
use crate::idtable::{distinct_keys, has_key, id_of, key_index, lemma_key_index_first,
    lemma_key_index_props, lemma_key_index_push, IdentifierTable};
use crate::series::{empty_series_model, push_row, series_model_wf, SeriesModel, StationSeries};
use crate::station::{keep_model, keep_record, Counters, FilterPolicy, RecModel, SnapModel,
    Snapshot, MAX_OBSERVED_AT};
use crate::station::derive_bikes_available;

verus! {

/// Mathematical model of the whole aggregator: the key table and one series
/// model per assigned identifier, in identifier order.
#[verifier::ext_equal]
pub struct AggModel {
    pub keys: Seq<Seq<char>>,
    pub series: Seq<SeriesModel>,
}

/// Keys are distinct, each key has exactly one series, and the series at
/// position `i` carries numeric identifier `i + 1` and aligned rows.
pub open spec fn agg_model_wf(m: AggModel) -> bool {
    &&& distinct_keys(m.keys)
    &&& m.series.len() == m.keys.len()
    &&& m.keys.len() < u32::MAX
    &&& forall|i: int|
        0 <= i < m.series.len() ==> series_model_wf(#[trigger] m.series[i]) && m.series[i].id == i
            + 1
}

/// One observation folded into the model: the key gets its stable identifier
/// (a fresh one on first sight), and exactly that key's series grows by one
/// row — the time in milliseconds and the four counters, with non-electric
/// bikes derived as raw minus e-bikes.
pub open spec fn record_model(m: AggModel, k: Seq<char>, observed_at: i64, c: Counters) -> AggModel {
    let t_ms = (observed_at * 1000) as i64;
    let bikes = (c.bikes_raw - c.ebikes) as i32;
    if has_key(m.keys, k) {
        let idx = key_index(m.keys, k);
        AggModel {
            keys: m.keys,
            series: m.series.update(
                idx,
                push_row(m.series[idx], t_ms, bikes, c.ebikes, c.disabled, c.docks),
            ),
        }
    } else {
        AggModel {
            keys: m.keys.push(k),
            series: m.series.push(
                push_row(
                    empty_series_model((m.keys.len() + 1) as u32),
                    t_ms,
                    bikes,
                    c.ebikes,
                    c.disabled,
                    c.docks,
                ),
            ),
        }
    }
}

/// A whole snapshot folded into the model, record by record, in order.
pub open spec fn fold_records(m: AggModel, recs: Seq<RecModel>, observed_at: i64) -> AggModel
    decreases recs.len(),
{
    if recs.len() == 0 {
        m
    } else {
        fold_records(
            record_model(m, recs[0].key, observed_at, recs[0].counters),
            recs.drop_first(),
            observed_at,
        )
    }
}

/// Folding one more record is one more model step.
pub proof fn lemma_fold_push(m: AggModel, recs: Seq<RecModel>, x: RecModel, observed_at: i64)
    ensures
        fold_records(m, recs.push(x), observed_at) == record_model(
            fold_records(m, recs, observed_at),
            x.key,
            observed_at,
            x.counters,
        ),
    decreases recs.len(),
{
    if recs.len() == 0 {
        let m2 = record_model(m, x.key, observed_at, x.counters);
        assert(recs.push(x).drop_first() =~= recs);
        assert(recs.push(x)[0] == x);
        assert(fold_records(m, recs.push(x), observed_at) == fold_records(
            m2,
            recs,
            observed_at,
        ));
        assert(fold_records(m2, recs, observed_at) == m2);
    } else {
        assert(recs.push(x)[0] == recs[0]);
        assert(recs.push(x).drop_first() =~= recs.drop_first().push(x));
        lemma_fold_push(
            record_model(m, recs[0].key, observed_at, recs[0].counters),
            recs.drop_first(),
            x,
            observed_at,
        );
    }
}

/// The model of an aggregator that has seen nothing yet.
pub open spec fn empty_agg_model() -> AggModel {
    AggModel { keys: Seq::empty(), series: Seq::empty() }
}

/// A whole snapshot folded into the model under a filter policy: every
/// record that passes the policy, in order, at the snapshot's observation
/// time.
pub open spec fn snapshot_fold(m: AggModel, sm: SnapModel, policy: FilterPolicy) -> AggModel {
    fold_records(m, sm.stations.filter(|rm: RecModel| keep_model(rm, policy)), sm.observed_at)
}

/// One model step keeps the model well-formed — in particular, every
/// station's five sequences stay aligned — grows the key table by at most
/// one, and leaves the recorded key present.
pub proof fn lemma_record_model_wf(m: AggModel, k: Seq<char>, observed_at: i64, c: Counters)
    requires
        agg_model_wf(m),
        m.keys.len() + 1 < u32::MAX,
    ensures
        agg_model_wf(record_model(m, k, observed_at, c)),
        m.keys.len() <= record_model(m, k, observed_at, c).keys.len() <= m.keys.len() + 1,
        has_key(record_model(m, k, observed_at, c).keys, k),
{
    lemma_key_index_props(m.keys, k);
    let m2 = record_model(m, k, observed_at, c);
    if has_key(m.keys, k) {
        assert forall|i: int|
            0 <= i < m2.series.len() implies series_model_wf(#[trigger] m2.series[i])
            && m2.series[i].id == i + 1 by {
            assert(series_model_wf(m.series[i]));
        }
    } else {
        lemma_key_index_first(m.keys.push(k), k, m.keys.len() as int);
        assert forall|i: int, j: int| 0 <= i < j < m2.keys.len() implies m2.keys[i] != m2.keys[j] by {
            if j < m.keys.len() {
                assert(m.keys[i] != m.keys[j]);
            } else {
                assert(m.keys[i] != k);
            }
        }
        assert forall|i: int|
            0 <= i < m2.series.len() implies series_model_wf(#[trigger] m2.series[i])
            && m2.series[i].id == i + 1 by {
            if i < m.series.len() {
                assert(series_model_wf(m.series[i]));
            }
        }
    }
}

/// Row alignment, for any number of recorded observations: folding a whole
/// sequence of records into a well-formed model — with room left in the
/// identifier space — keeps every station's five parallel sequences equal in
/// length, and grows the key table by at most one key per record.
pub proof fn lemma_fold_records_wf(m: AggModel, recs: Seq<RecModel>, observed_at: i64)
    requires
        agg_model_wf(m),
        m.keys.len() + recs.len() < u32::MAX,
    ensures
        agg_model_wf(fold_records(m, recs, observed_at)),
        fold_records(m, recs, observed_at).keys.len() <= m.keys.len() + recs.len(),
    decreases recs.len(),
{
    if recs.len() > 0 {
        lemma_record_model_wf(m, recs[0].key, observed_at, recs[0].counters);
        lemma_fold_records_wf(
            record_model(m, recs[0].key, observed_at, recs[0].counters),
            recs.drop_first(),
            observed_at,
        );
    }
}

/// Identifier stability, across whole snapshots: a station key already in
/// the table keeps its numeric identifier through any later fold — however
/// many records, for whatever stations, at whatever times.
pub proof fn lemma_fold_records_stable_id(
    m: AggModel,
    recs: Seq<RecModel>,
    observed_at: i64,
    k: Seq<char>,
)
    requires
        has_key(m.keys, k),
    ensures
        has_key(fold_records(m, recs, observed_at).keys, k),
        id_of(fold_records(m, recs, observed_at).keys, k) == id_of(m.keys, k),
    decreases recs.len(),
{
    if recs.len() > 0 {
        let m2 = record_model(m, recs[0].key, observed_at, recs[0].counters);
        if !has_key(m.keys, recs[0].key) {
            lemma_key_index_push(m.keys, k, recs[0].key);
        }
        lemma_fold_records_stable_id(m2, recs.drop_first(), observed_at, k);
    }
}

/// The station aggregator: the identifier table plus one set of column
/// buffers per station, owned here until sealed and emitted. Identifier
/// assignment is explicit per-instance state, not a global counter.
#[derive(Debug)]
pub struct Aggregator {
    pub table: IdentifierTable,
    pub series: Vec<StationSeries>,
}

impl View for Aggregator {
    type V = AggModel;

    open spec fn view(&self) -> AggModel {
        AggModel {
            keys: self.table.keys(),
            series: self.series@.map_values(|s: StationSeries| s@),
        }
    }
}

impl Aggregator {
    pub open spec fn wf(&self) -> bool {
        &&& agg_model_wf(self@)
        &&& forall|i: int| 0 <= i < self.series@.len() ==> !(#[trigger] self.series@[i]).sealed
    }

    pub fn new() -> (r: Self)
        ensures
            r.wf(),
            r@ == empty_agg_model(),
    {
        let r = Aggregator { table: IdentifierTable::new(), series: Vec::new() };
        proof {
            assert(r@.series =~= Seq::<SeriesModel>::empty());
            assert(r@ =~= empty_agg_model());
        }
        r
    }

    /// Record a single observation: assign (or look up) the station's
    /// identifier and append one row to exactly that station's series.
    ///
    /// Rows keep file-processing order; there is no sort by time before
    /// emission, and no deduplication — a repeated observation of the same
    /// station at the same time appends a duplicate row. Both are deliberate
    /// pass-through choices, kept from the observed behavior.
    pub fn record(&mut self, station_id: &String, observed_at: i64, c: &Counters)
        requires
            old(self).wf(),
            c.wf(),
            -MAX_OBSERVED_AT <= observed_at <= MAX_OBSERVED_AT,
            old(self)@.keys.len() + 1 < u32::MAX,
        ensures
            final(self).wf(),
            final(self)@ == record_model(old(self)@, station_id@, observed_at, *c),
    {
        let t_ms: i64 = observed_at * 1000;
        let bikes: i32 = derive_bikes_available(c.bikes_raw, c.ebikes);
        let n: usize = self.series.len();
        let ghost m0 = old(self)@;
        proof {
            lemma_key_index_props(m0.keys, station_id@);
        }
        let id: u32 = self.table.assign(station_id);
        if (id as usize) == n + 1 {
            let mut s = StationSeries::new(id);
            s.append_row(t_ms, bikes, c.ebikes, c.disabled, c.docks);
            self.series.push(s);
            proof {
                assert(self@.series =~~= record_model(m0, station_id@, observed_at, *c).series);
                assert(self@ =~~= record_model(m0, station_id@, observed_at, *c));
            }
        } else {
            let idx: usize = (id as usize) - 1;
            let s: &mut StationSeries = &mut self.series[idx];
            s.append_row(t_ms, bikes, c.ebikes, c.disabled, c.docks);
            proof {
                assert(self@.series =~~= record_model(m0, station_id@, observed_at, *c).series);
                assert(self@ =~~= record_model(m0, station_id@, observed_at, *c));
            }
        }
    }

    /// Fold one decoded snapshot into the aggregator: every station record
    /// that passes the filter policy is recorded at the snapshot's
    /// observation time, in order.
    pub fn record_snapshot(&mut self, snap: &Snapshot, policy: &FilterPolicy)
        requires
            old(self).wf(),
            snap.wf(),
            old(self)@.keys.len() + snap.stations@.len() + 1 < u32::MAX,
        ensures
            final(self).wf(),
            final(self)@ == snapshot_fold(old(self)@, snap@, *policy),
    {
        let ghost m0 = old(self)@;
        let n: usize = snap.stations.len();
        proof {
            assert(snap@.stations.take(0).filter(|rm: RecModel| keep_model(rm, *policy))
                =~= Seq::<RecModel>::empty());
        }
        for i in 0..n
            invariant
                self.wf(),
                n == snap.stations@.len(),
                snap.wf(),
                m0.keys.len() + n + 1 < u32::MAX,
                self@ == fold_records(
                    m0,
                    snap@.stations.take(i as int).filter(|rm: RecModel| keep_model(rm, *policy)),
                    snap.observed_at,
                ),
                self@.keys.len() <= m0.keys.len() + i,
        {
            proof {
                let prefix = snap@.stations.take(i as int);
                let x = snap.stations@[i as int]@;
                prefix.lemma_filter_push(x, |rm: RecModel| keep_model(rm, *policy));
                assert(snap@.stations.take(i + 1) =~= prefix.push(x));
                lemma_fold_push(
                    m0,
                    prefix.filter(|rm: RecModel| keep_model(rm, *policy)),
                    x,
                    snap.observed_at,
                );
            }
            if keep_record(&snap.stations[i], policy) {
                self.record(
                    &snap.stations[i].station_id,
                    snap.observed_at,
                    &snap.stations[i].counters,
                );
            }
        }
        proof {
            assert(snap@.stations.take(n as int) =~= snap@.stations);
        }
    }
}

} // verus!
