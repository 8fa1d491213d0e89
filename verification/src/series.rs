use vstd::prelude::*;

verus! {

/// Mathematical model of one station's accumulated series: five parallel
/// sequences, indexed in lock-step — row `i` across all five describes one
/// observation.
#[verifier::ext_equal]
pub struct SeriesModel {
    pub id: u32,
    pub times: Seq<i64>,
    pub bikes: Seq<i32>,
    pub ebikes: Seq<i32>,
    pub disabled: Seq<i32>,
    pub docks: Seq<i32>,
}

/// Row alignment: the five parallel sequences always have equal length, and
/// the numeric identifier starts at 1.
pub open spec fn series_model_wf(m: SeriesModel) -> bool {
    &&& m.id >= 1
    &&& m.bikes.len() == m.times.len()
    &&& m.ebikes.len() == m.times.len()
    &&& m.disabled.len() == m.times.len()
    &&& m.docks.len() == m.times.len()
}

/// One observation appended to all five sequences at once.
pub open spec fn push_row(
    m: SeriesModel,
    t_ms: i64,
    bikes: i32,
    ebikes: i32,
    disabled: i32,
    docks: i32,
) -> SeriesModel {
    SeriesModel {
        id: m.id,
        times: m.times.push(t_ms),
        bikes: m.bikes.push(bikes),
        ebikes: m.ebikes.push(ebikes),
        disabled: m.disabled.push(disabled),
        docks: m.docks.push(docks),
    }
}

/// A fresh, empty series for the station with identifier `id`.
pub open spec fn empty_series_model(id: u32) -> SeriesModel {
    SeriesModel {
        id,
        times: Seq::empty(),
        bikes: Seq::empty(),
        ebikes: Seq::empty(),
        disabled: Seq::empty(),
        docks: Seq::empty(),
    }
}

/// Per-station accumulator: growable column buffers plus the station's
/// numeric identifier. Sealing is destructive: once sealed, the buffers are
/// gone and no further row can be appended.
#[derive(Debug)]
pub struct StationSeries {
    pub numeric_id: u32,
    pub sealed: bool,
    pub times_ms: Vec<i64>,
    pub bikes_available: Vec<i32>,
    pub ebikes_available: Vec<i32>,
    pub bikes_disabled: Vec<i32>,
    pub docks_available: Vec<i32>,
}

impl View for StationSeries {
    type V = SeriesModel;

    open spec fn view(&self) -> SeriesModel {
        SeriesModel {
            id: self.numeric_id,
            times: self.times_ms@,
            bikes: self.bikes_available@,
            ebikes: self.ebikes_available@,
            disabled: self.bikes_disabled@,
            docks: self.docks_available@,
        }
    }
}

impl StationSeries {
    pub open spec fn wf(&self) -> bool {
        series_model_wf(self@)
    }

    /// A fresh set of empty column buffers for one station.
    pub fn new(id: u32) -> (r: Self)
        requires
            id >= 1,
        ensures
            r.wf(),
            !r.sealed,
            r@ =~= empty_series_model(id),
    {
        StationSeries {
            numeric_id: id,
            sealed: false,
            times_ms: Vec::new(),
            bikes_available: Vec::new(),
            ebikes_available: Vec::new(),
            bikes_disabled: Vec::new(),
            docks_available: Vec::new(),
        }
    }

    /// Append one observation: a row is added to all five sequences or to
    /// none, so row alignment is preserved by construction.
    pub fn append_row(&mut self, t_ms: i64, bikes: i32, ebikes: i32, disabled: i32, docks: i32)
        requires
            old(self).wf(),
            !old(self).sealed,
        ensures
            final(self).wf(),
            !final(self).sealed,
            final(self)@ =~= push_row(old(self)@, t_ms, bikes, ebikes, disabled, docks),
    {
        self.times_ms.push(t_ms);
        self.bikes_available.push(bikes);
        self.ebikes_available.push(ebikes);
        self.bikes_disabled.push(disabled);
        self.docks_available.push(docks);
    }
}

/// Why sealing was refused.
#[derive(Debug, PartialEq, Eq, Structural)]
pub enum SealError {
    /// The buffers were already sealed into an output unit once.
    AlreadySealed,
}

/// Mathematical model of one columnar output unit: the six columns of the
/// fixed schema, equal in length.
#[verifier::ext_equal]
pub struct UnitModel {
    pub ids: Seq<u32>,
    pub bikes: Seq<i32>,
    pub ebikes: Seq<i32>,
    pub disabled: Seq<i32>,
    pub docks: Seq<i32>,
    pub times: Seq<i64>,
}

pub open spec fn unit_model_wf(m: UnitModel) -> bool {
    &&& m.ids.len() == m.times.len()
    &&& m.bikes.len() == m.times.len()
    &&& m.ebikes.len() == m.times.len()
    &&& m.disabled.len() == m.times.len()
    &&& m.docks.len() == m.times.len()
}

/// What sealing a series yields: its five sequences unchanged, plus an
/// identifier column that repeats the station's numeric identifier once per
/// row.
pub open spec fn seal_model(m: SeriesModel) -> UnitModel {
    UnitModel {
        ids: Seq::new(m.times.len(), |i: int| m.id),
        bikes: m.bikes,
        ebikes: m.ebikes,
        disabled: m.disabled,
        docks: m.docks,
        times: m.times,
    }
}

/// Sealing loses no rows and breaks no alignment: every column of the unit —
/// the identifier column included — has exactly the series' row count.
pub proof fn lemma_seal_preserves_rows(m: SeriesModel)
    requires
        series_model_wf(m),
    ensures
        unit_model_wf(seal_model(m)),
        seal_model(m).times.len() == m.times.len(),
{
}

/// One sealed columnar output unit, ready to be written out under the fixed
/// six-column schema.
#[derive(Debug)]
pub struct ColumnUnit {
    pub station_numeric_id: Vec<u32>,
    pub bikes_available: Vec<i32>,
    pub ebikes_available: Vec<i32>,
    pub bikes_disabled: Vec<i32>,
    pub docks_available: Vec<i32>,
    pub time_ms: Vec<i64>,
}

impl View for ColumnUnit {
    type V = UnitModel;

    open spec fn view(&self) -> UnitModel {
        UnitModel {
            ids: self.station_numeric_id@,
            bikes: self.bikes_available@,
            ebikes: self.ebikes_available@,
            disabled: self.bikes_disabled@,
            docks: self.docks_available@,
            times: self.time_ms@,
        }
    }
}

impl ColumnUnit {
    pub open spec fn wf(&self) -> bool {
        unit_model_wf(self@)
    }

    /// An output unit with no rows yet.
    pub fn new_empty() -> (r: Self)
        ensures
            r.wf(),
            r@.times.len() == 0,
    {
        ColumnUnit {
            station_numeric_id: Vec::new(),
            bikes_available: Vec::new(),
            ebikes_available: Vec::new(),
            bikes_disabled: Vec::new(),
            docks_available: Vec::new(),
            time_ms: Vec::new(),
        }
    }
}

impl StationSeries {
    /// Seal the buffers into one columnar output unit.
    ///
    /// Sealing is destructive and happens at most once: a second attempt on
    /// the same series is refused, and the buffers it emptied stay empty.
    pub fn seal(&mut self) -> (r: Result<ColumnUnit, SealError>)
        requires
            old(self).wf(),
        ensures
            final(self).wf(),
            final(self).sealed,
            final(self).numeric_id == old(self).numeric_id,
            old(self).sealed ==> (r matches Err(e) && e == SealError::AlreadySealed && *final(self)
                == *old(self)),
            !old(self).sealed ==> (r matches Ok(u) && u@ =~= seal_model(old(self)@) && u.wf()
                && final(self)@ =~= empty_series_model(old(self).numeric_id)),
    {
        if self.sealed {
            return Err(SealError::AlreadySealed);
        }
        self.sealed = true;
        let n: usize = self.times_ms.len();
        let ids: Vec<u32> = vec![self.numeric_id; n];
        proof {
            assert(ids@ =~= Seq::new(self@.times.len(), |i: int| self.numeric_id));
        }
        let mut times: Vec<i64> = Vec::new();
        let mut bikes: Vec<i32> = Vec::new();
        let mut ebikes: Vec<i32> = Vec::new();
        let mut disabled: Vec<i32> = Vec::new();
        let mut docks: Vec<i32> = Vec::new();
        core::mem::swap(&mut times, &mut self.times_ms);
        core::mem::swap(&mut bikes, &mut self.bikes_available);
        core::mem::swap(&mut ebikes, &mut self.ebikes_available);
        core::mem::swap(&mut disabled, &mut self.bikes_disabled);
        core::mem::swap(&mut docks, &mut self.docks_available);
        Ok(
            ColumnUnit {
                station_numeric_id: ids,
                bikes_available: bikes,
                ebikes_available: ebikes,
                bikes_disabled: disabled,
                docks_available: docks,
                time_ms: times,
            },
        )
    }
}

} // verus!
