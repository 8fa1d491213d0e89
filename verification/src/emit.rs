use vstd::prelude::*;
use crate::aggregate::Aggregator;
use crate::idtable::IdentifierTable;
use crate::series::{seal_model, series_model_wf, unit_model_wf, ColumnUnit, SeriesModel,
    UnitModel};

verus! {

/// The storage type of one schema column.
#[derive(Clone, Copy, PartialEq, Eq, Structural, Debug)]
pub enum ColumnType {
    UInt32,
    Int32,
    TimestampMillis,
}

/// One column of the output schema.
#[derive(Debug)]
pub struct ColumnDecl {
    pub name: String,
    pub ty: ColumnType,
    pub nullable: bool,
}

/// The fixed six-column schema every output unit conforms to. Field names
/// and types are a compatibility contract for downstream readers; all
/// columns are non-nullable, since a row is appended to all five series
/// buffers or to none.
pub fn schema() -> (r: Vec<ColumnDecl>)
    ensures
        r@.len() == 6,
        r@[0].name@ == "station_numeric_id"@ && r@[0].ty == ColumnType::UInt32,
        r@[1].name@ == "bikes_available"@ && r@[1].ty == ColumnType::Int32,
        r@[2].name@ == "ebikes_available"@ && r@[2].ty == ColumnType::Int32,
        r@[3].name@ == "bikes_disabled"@ && r@[3].ty == ColumnType::Int32,
        r@[4].name@ == "docks_available"@ && r@[4].ty == ColumnType::Int32,
        r@[5].name@ == "time"@ && r@[5].ty == ColumnType::TimestampMillis,
        forall|i: int| 0 <= i < 6 ==> !(#[trigger] r@[i]).nullable,
{
    let mut r: Vec<ColumnDecl> = Vec::new();
    r.push(
        ColumnDecl {
            name: "station_numeric_id".to_owned(),
            ty: ColumnType::UInt32,
            nullable: false,
        },
    );
    r.push(ColumnDecl { name: "bikes_available".to_owned(), ty: ColumnType::Int32, nullable: false });
    r.push(
        ColumnDecl { name: "ebikes_available".to_owned(), ty: ColumnType::Int32, nullable: false },
    );
    r.push(ColumnDecl { name: "bikes_disabled".to_owned(), ty: ColumnType::Int32, nullable: false });
    r.push(
        ColumnDecl { name: "docks_available".to_owned(), ty: ColumnType::Int32, nullable: false },
    );
    r.push(ColumnDecl { name: "time".to_owned(), ty: ColumnType::TimestampMillis, nullable: false });
    r
}

/// How output rows are partitioned into files: one combined unit holding
/// every station's rows (the identifier column tells them apart), or one
/// unit per station. Both layouts exist in the wild; the choice is an
/// explicit parameter, never implied.
#[derive(Clone, Copy, PartialEq, Eq, Structural, Debug)]
pub enum PartitionPolicy {
    SingleCombined,
    PerStation,
}

/// One output unit: its sealed columns, and — under the per-station layout —
/// the station identifier that names its file.
#[derive(Debug)]
pub struct OutputUnit {
    /// `Some(id)` under `PerStation`, `None` under `SingleCombined`.
    pub station: Option<u32>,
    pub columns: ColumnUnit,
}

/// A unit with no rows.
pub open spec fn empty_unit_model() -> UnitModel {
    UnitModel {
        ids: Seq::empty(),
        bikes: Seq::empty(),
        ebikes: Seq::empty(),
        disabled: Seq::empty(),
        docks: Seq::empty(),
        times: Seq::empty(),
    }
}

/// Two units joined column-wise: `a`'s rows, then `b`'s rows.
pub open spec fn unit_add(a: UnitModel, b: UnitModel) -> UnitModel {
    UnitModel {
        ids: a.ids + b.ids,
        bikes: a.bikes + b.bikes,
        ebikes: a.ebikes + b.ebikes,
        disabled: a.disabled + b.disabled,
        docks: a.docks + b.docks,
        times: a.times + b.times,
    }
}

/// All units joined in order into one.
pub open spec fn concat_units(us: Seq<UnitModel>) -> UnitModel
    decreases us.len(),
{
    if us.len() == 0 {
        empty_unit_model()
    } else {
        unit_add(concat_units(us.drop_last()), us.last())
    }
}

/// Append `u`'s rows to `acc`, column by column.
fn append_unit(acc: &mut ColumnUnit, u: ColumnUnit)
    ensures
        final(acc)@ =~= unit_add(old(acc)@, u@),
{
    let mut u = u;
    acc.station_numeric_id.append(&mut u.station_numeric_id);
    acc.bikes_available.append(&mut u.bikes_available);
    acc.ebikes_available.append(&mut u.ebikes_available);
    acc.bikes_disabled.append(&mut u.bikes_disabled);
    acc.docks_available.append(&mut u.docks_available);
    acc.time_ms.append(&mut u.time_ms);
}

/// Seal every station's buffers, one output unit per station, in identifier
/// order. Consumes the aggregator: once drained, nothing can be appended.
pub fn emit_per_station(agg: Aggregator) -> (r: Vec<OutputUnit>)
    requires
        agg.wf(),
    ensures
        r@.len() == agg@.series.len(),
        forall|i: int|
            0 <= i < r@.len() ==> {
                let u = #[trigger] r@[i];
                u.station == Some(agg@.series[i].id) && u.columns@ == seal_model(agg@.series[i])
                    && u.columns.wf()
            },
{
    let ghost m0 = agg@;
    let mut agg = agg;
    let mut r: Vec<OutputUnit> = Vec::new();
    let n: usize = agg.series.len();
    proof {
        assert forall|j: int| 0 <= j < n implies !(#[trigger] agg.series@[j]).sealed
            && agg.series@[j].wf() && agg.series@[j]@ == m0.series[j] by {
            assert(m0.series[j] == agg.series@[j]@);
            assert(series_model_wf(m0.series[j]));
        }
    }
    for i in 0..n
        invariant
            n == agg.series@.len(),
            m0.series.len() == n,
            r@.len() == i,
            forall|j: int|
                i <= j < n ==> !(#[trigger] agg.series@[j]).sealed && agg.series@[j].wf()
                    && agg.series@[j]@ == m0.series[j],
            forall|j: int|
                0 <= j < i ==> {
                    let u = #[trigger] r@[j];
                    u.station == Some(m0.series[j].id) && u.columns@ == seal_model(m0.series[j])
                        && u.columns.wf()
                },
    {
        let id: u32 = agg.series[i].numeric_id;
        let s: &mut crate::series::StationSeries = &mut agg.series[i];
        match s.seal() {
            Ok(u) => {
                r.push(OutputUnit { station: Some(id), columns: u });
            },
            Err(_) => {
                proof {
                    assert(false);
                }
            },
        }
    }
    r
}

/// Seal every station's buffers into one combined output unit: all stations'
/// rows in identifier order, told apart by the identifier column. Consumes
/// the aggregator.
pub fn emit_combined(agg: Aggregator) -> (r: ColumnUnit)
    requires
        agg.wf(),
    ensures
        r@ == concat_units(agg@.series.map_values(|s: SeriesModel| seal_model(s))),
        r.wf(),
{
    let ghost models = agg@.series.map_values(|s: SeriesModel| seal_model(s));
    let ghost m0 = agg@;
    let mut agg = agg;
    let mut acc = ColumnUnit::new_empty();
    let n: usize = agg.series.len();
    proof {
        assert(acc@ =~= concat_units(models.take(0)));
        assert forall|j: int| 0 <= j < n implies !(#[trigger] agg.series@[j]).sealed
            && agg.series@[j].wf() && agg.series@[j]@ == m0.series[j] by {
            assert(m0.series[j] == agg.series@[j]@);
            assert(series_model_wf(m0.series[j]));
        }
    }
    for i in 0..n
        invariant
            n == agg.series@.len(),
            m0.series.len() == n,
            models == m0.series.map_values(|s: SeriesModel| seal_model(s)),
            forall|j: int|
                i <= j < n ==> !(#[trigger] agg.series@[j]).sealed && agg.series@[j].wf()
                    && agg.series@[j]@ == m0.series[j],
            acc@ == concat_units(models.take(i as int)),
            unit_model_wf(acc@),
    {
        let s: &mut crate::series::StationSeries = &mut agg.series[i];
        match s.seal() {
            Ok(u) => {
                proof {
                    assert(models.take(i + 1).drop_last() =~= models.take(i as int));
                    assert(models.take(i + 1).last() == models[i as int]);
                }
                append_unit(&mut acc, u);
            },
            Err(_) => {
                proof {
                    assert(false);
                }
            },
        }
    }
    proof {
        assert(models.take(n as int) =~= models);
    }
    acc
}

/// The serialized JSON object document holding the given key-value members:
/// what the identifier-table serializer returns. With distinct string keys
/// the document is a function of the pairs alone.
pub uninterp spec fn json_object_of(pairs: Seq<(Seq<char>, u32)>) -> Seq<char>;

/// Relies on serde_json's `Map` (backed by an ordered map) and `to_string`:
/// one JSON object document with the given members. Serialization of a
/// string-keyed map of integers cannot fail, and the document depends on the
/// key-value pairs alone.
#[verifier::external_body]
fn pairs_to_json_object(pairs: &Vec<(String, u32)>) -> (r: String)
    ensures
        r@ == json_object_of(pairs@.map_values(|p: (String, u32)| (p.0@, p.1))),
{
    let mut object = serde_json::Map::new();
    for (k, v) in pairs {
        object.insert(k.clone(), serde_json::Value::from(*v));
    }
    serde_json::to_string(&serde_json::Value::Object(object)).expect(
        "a string-keyed map of integers always serializes",
    )
}

/// The persisted identifier table: one JSON object document mapping every
/// station key ever observed to its numeric identifier, written once at the
/// end of a run.
pub fn identifier_document(table: &IdentifierTable) -> (r: String)
    requires
        table.wf(),
    ensures
        r@ == json_object_of(
            Seq::new(table.keys().len(), |i: int| (table.keys()[i], (i + 1) as u32)),
        ),
{
    let mut pairs: Vec<(String, u32)> = Vec::new();
    let n: usize = table.names.len();
    for i in 0..n
        invariant
            n == table.names@.len(),
            table.wf(),
            pairs@.len() == i,
            forall|j: int|
                0 <= j < i ==> (#[trigger] pairs@[j]).0@ == table.keys()[j] && pairs@[j].1 == j + 1,
    {
        pairs.push((table.names[i].clone(), (i as u32) + 1));
    }
    proof {
        assert(pairs@.map_values(|p: (String, u32)| (p.0@, p.1)) =~= Seq::new(
            table.keys().len(),
            |i: int| (table.keys()[i], (i + 1) as u32),
        ));
    }
    pairs_to_json_object(&pairs)
}

/// Drain the aggregator under the chosen partition policy.
pub fn emit_units(agg: Aggregator, policy: &PartitionPolicy) -> (r: Vec<OutputUnit>)
    requires
        agg.wf(),
    ensures
        *policy == PartitionPolicy::PerStation ==> r@.len() == agg@.series.len() && forall|i: int|
            0 <= i < r@.len() ==> {
                let u = #[trigger] r@[i];
                u.station == Some(agg@.series[i].id) && u.columns@ == seal_model(agg@.series[i])
                    && u.columns.wf()
            },
        *policy == PartitionPolicy::SingleCombined ==> r@.len() == 1 && r@[0].station is None
            && r@[0].columns@ == concat_units(
            agg@.series.map_values(|s: SeriesModel| seal_model(s)),
        ) && r@[0].columns.wf(),
{
    match policy {
        PartitionPolicy::PerStation => emit_per_station(agg),
        PartitionPolicy::SingleCombined => {
            let combined = emit_combined(agg);
            let mut r: Vec<OutputUnit> = Vec::new();
            r.push(OutputUnit { station: None, columns: combined });
            r
        },
    }
}

} // verus!
