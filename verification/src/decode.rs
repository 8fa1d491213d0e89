use vstd::prelude::*;
use crate::station::{Counters, RecModel, SnapModel, Snapshot, StationRecord, MAX_OBSERVED_AT};

verus! {

/// Why one input file could not be decoded. A file that fails here is
/// skipped and reported; it never aborts the run.
#[derive(Clone, Copy, PartialEq, Eq, Structural, Debug)]
pub enum DecodeCause {
    /// The compressed stream is truncated or corrupt.
    CorruptStream,
    /// The decompressed bytes are not a JSON document.
    MalformedJson,
    /// The document carries no integer `last_updated` field.
    MissingTimestamp,
    /// The observation time cannot be represented in milliseconds.
    TimestampOutOfRange,
    /// The document carries no `data.stations` array.
    MissingStations,
    /// A station entry misses a required field or carries a wrong type.
    BadStationField,
    /// A station counter is negative or too large for a 32-bit column.
    CounterOutOfRange,
}

/// What the decompressor yields on a given compressed byte stream, if
/// anything: decompression of in-memory bytes is a function of the bytes
/// alone, and fails exactly on corrupt streams.
pub uninterp spec fn inflated(gz: Seq<u8>) -> Option<Seq<u8>>;

/// Relies on flate2's `read::GzDecoder` over an in-memory slice, read to the
/// end: yields the decompressed bytes, or fails on a corrupt stream.
#[verifier::external_body]
fn gunzip(gz: &Vec<u8>) -> (r: Result<Vec<u8>, ()>)
    ensures
        r is Ok <==> inflated(gz@) is Some,
        r matches Ok(out) ==> out@ == inflated(gz@)->Some_0,
{
    let mut decoder = flate2::read::GzDecoder::new(gz.as_slice());
    let mut out: Vec<u8> = Vec::new();
    match std::io::Read::read_to_end(&mut decoder, &mut out) {
        Ok(_) => Ok(out),
        Err(_) => Err(()),
    }
}

/// Whether a byte sequence is one well-formed JSON document: a function of
/// the bytes alone.
pub uninterp spec fn json_accepts(bytes: Seq<u8>) -> bool;

#[verifier::external_type_specification]
#[verifier::external_body]
pub struct ExJsonValue(serde_json::Value);

/// What the pipeline can read out of one parsed JSON value. Integer numbers
/// representable in a signed 64-bit value, strings, arrays and objects are
/// distinguished; everything the logic never consults — null, booleans,
/// numbers outside that range, floating-point numbers — collapses to
/// `Other`.
pub enum JsonModel {
    Int(i64),
    Text(Seq<char>),
    Arr(Seq<JsonModel>),
    Obj(Map<Seq<char>, JsonModel>),
    Other,
}

/// The model of what a `serde_json::Value` holds: the vocabulary in which
/// the accessor wrappers below state their results.
pub uninterp spec fn json_model(v: serde_json::Value) -> JsonModel;

/// The model of the document that a byte sequence parses to, where
/// `json_accepts` holds: a function of the bytes alone.
pub uninterp spec fn json_doc_of(bytes: Seq<u8>) -> JsonModel;

/// Relies on `serde_json::from_slice::<Value>`: parses one JSON document, or
/// fails exactly when the bytes are not one.
#[verifier::external_body]
fn parse_json(bytes: &Vec<u8>) -> (r: Result<serde_json::Value, ()>)
    ensures
        r is Ok <==> json_accepts(bytes@),
        r matches Ok(v) ==> json_model(v) == json_doc_of(bytes@),
{
    match serde_json::from_slice::<serde_json::Value>(bytes.as_slice()) {
        Ok(v) => Ok(v),
        Err(_) => Err(()),
    }
}

/// Relies on serde_json's `Value::get`: the value of an object's field, or
/// `None` when the value is no object or has no such field.
#[verifier::external_body]
fn value_get<'a>(v: &'a serde_json::Value, key: &str) -> (r: Option<&'a serde_json::Value>)
    ensures
        match json_model(*v) {
            JsonModel::Obj(fields) => {
                &&& r is Some <==> fields.contains_key(key@)
                &&& (r matches Some(f) ==> json_model(*f) == fields[key@])
            },
            _ => r is None,
        },
{
    v.get(key)
}

/// Relies on serde_json's `Value::as_i64`: the value as a signed 64-bit
/// integer, when it is an integer number that fits one.
#[verifier::external_body]
fn value_as_i64(v: &serde_json::Value) -> (r: Option<i64>)
    ensures
        r == (match json_model(*v) {
            JsonModel::Int(x) => Some(x),
            _ => None::<i64>,
        }),
{
    v.as_i64()
}

/// Relies on serde_json's `Value::as_array`: the value's elements, when it
/// is an array.
#[verifier::external_body]
fn value_as_array<'a>(v: &'a serde_json::Value) -> (r: Option<&'a Vec<serde_json::Value>>)
    ensures
        match json_model(*v) {
            JsonModel::Arr(elems) => (r matches Some(a) && a@.len() == elems.len() && forall|i: int|
                0 <= i < elems.len() ==> json_model(#[trigger] a@[i]) == elems[i]),
            _ => r is None,
        },
{
    v.as_array()
}

/// Relies on serde_json's `Value::as_str` (copied out as an owned string):
/// the value as a string, when it is one.
#[verifier::external_body]
fn value_as_string(v: &serde_json::Value) -> (r: Option<String>)
    ensures
        match json_model(*v) {
            JsonModel::Text(s) => (r matches Some(owned) && owned@ == s),
            _ => r is None,
        },
{
    match v.as_str() {
        Some(s) => Some(s.to_owned()),
        None => None,
    }
}

/// The value of an object's field, if the model is an object that has it.
pub open spec fn field_of(m: JsonModel, key: Seq<char>) -> Option<JsonModel> {
    match m {
        JsonModel::Obj(fields) => if fields.contains_key(key) {
            Some(fields[key])
        } else {
            None
        },
        _ => None,
    }
}

/// An integer field of an object, if present with an integer value.
pub open spec fn int_field(m: JsonModel, key: Seq<char>) -> Option<i64> {
    match field_of(m, key) {
        Some(JsonModel::Int(x)) => Some(x),
        _ => None,
    }
}

/// A string field of an object, if present with a string value.
pub open spec fn str_field(m: JsonModel, key: Seq<char>) -> Option<Seq<char>> {
    match field_of(m, key) {
        Some(JsonModel::Text(s)) => Some(s),
        _ => None,
    }
}

/// What reading one required counter field yields: the value as a 32-bit
/// column entry, or the exact cause — absent or non-integer is a bad field,
/// negative or oversized is a counter out of range.
pub open spec fn counter_spec(m: JsonModel, key: Seq<char>) -> Result<i32, DecodeCause> {
    match int_field(m, key) {
        None => Err(DecodeCause::BadStationField),
        Some(x) => if 0 <= x <= i32::MAX {
            Ok(x as i32)
        } else {
            Err(DecodeCause::CounterOutOfRange)
        },
    }
}

/// What decoding one station entry yields: its key, its four counters read
/// in schema order, and its optional status — or the first failure, in that
/// same order.
pub open spec fn station_spec(m: JsonModel) -> Result<RecModel, DecodeCause> {
    match str_field(m, "station_id"@) {
        None => Err(DecodeCause::BadStationField),
        Some(key) => match counter_spec(m, "num_bikes_available"@) {
            Err(e) => Err(e),
            Ok(bikes_raw) => match counter_spec(m, "num_ebikes_available"@) {
                Err(e) => Err(e),
                Ok(ebikes) => match counter_spec(m, "num_bikes_disabled"@) {
                    Err(e) => Err(e),
                    Ok(disabled) => match counter_spec(m, "num_docks_available"@) {
                        Err(e) => Err(e),
                        Ok(docks) => match field_of(m, "station_status"@) {
                            None => Ok(
                                RecModel {
                                    key,
                                    counters: Counters { bikes_raw, ebikes, disabled, docks },
                                    status: None,
                                },
                            ),
                            Some(JsonModel::Text(s)) => Ok(
                                RecModel {
                                    key,
                                    counters: Counters { bikes_raw, ebikes, disabled, docks },
                                    status: Some(s),
                                },
                            ),
                            Some(_) => Err(DecodeCause::BadStationField),
                        },
                    },
                },
            },
        },
    }
}

/// What decoding a whole station array yields: every entry decoded in
/// order, or the first entry's failure.
pub open spec fn stations_spec(elems: Seq<JsonModel>) -> Result<Seq<RecModel>, DecodeCause>
    decreases elems.len(),
{
    if elems.len() == 0 {
        Ok(Seq::empty())
    } else {
        match station_spec(elems[0]) {
            Err(e) => Err(e),
            Ok(r) => match stations_spec(elems.drop_first()) {
                Err(e) => Err(e),
                Ok(rest) => Ok(seq![r] + rest),
            },
        }
    }
}

/// Decoding one more entry extends the result, or surfaces that entry's
/// failure once everything before it decoded.
pub proof fn lemma_stations_spec_push(elems: Seq<JsonModel>, x: JsonModel)
    ensures
        stations_spec(elems.push(x)) == (match stations_spec(elems) {
            Err(e) => Err(e),
            Ok(pre) => match station_spec(x) {
                Err(e) => Err::<Seq<RecModel>, DecodeCause>(e),
                Ok(r) => Ok(pre.push(r)),
            },
        }),
    decreases elems.len(),
{
    if elems.len() == 0 {
        assert(elems.push(x).drop_first() =~= elems);
        assert(elems.push(x)[0] == x);
        assert(stations_spec(elems) == Ok::<Seq<RecModel>, DecodeCause>(Seq::empty()));
        if station_spec(x) is Ok {
            let r = station_spec(x)->Ok_0;
            assert(seq![r] + Seq::<RecModel>::empty() =~= Seq::<RecModel>::empty().push(r));
        }
    } else {
        assert(elems.push(x)[0] == elems[0]);
        assert(elems.push(x).drop_first() =~= elems.drop_first().push(x));
        lemma_stations_spec_push(elems.drop_first(), x);
        if station_spec(elems[0]) is Ok && stations_spec(elems.drop_first()) is Ok && station_spec(
            x,
        ) is Ok {
            let h = station_spec(elems[0])->Ok_0;
            let rest = stations_spec(elems.drop_first())->Ok_0;
            let r = station_spec(x)->Ok_0;
            assert(seq![h] + rest.push(r) =~= (seq![h] + rest).push(r));
        }
    }
}

/// A failure in a prefix is the whole array's failure.
pub proof fn lemma_stations_spec_extend_err(elems: Seq<JsonModel>, j: int)
    requires
        0 <= j <= elems.len(),
        stations_spec(elems.take(j)) is Err,
    ensures
        stations_spec(elems) == stations_spec(elems.take(j)),
    decreases elems.len() - j,
{
    if j == elems.len() {
        assert(elems.take(j) =~= elems);
    } else {
        lemma_stations_spec_push(elems.take(j), elems[j]);
        assert(elems.take(j + 1) =~= elems.take(j).push(elems[j]));
        lemma_stations_spec_extend_err(elems, j + 1);
    }
}

/// What decoding one parsed document yields: the observation time from
/// `last_updated`, then the `data.stations` array, then every entry —
/// or the first failure, with its exact cause.
pub open spec fn snapshot_spec(m: JsonModel) -> Result<SnapModel, DecodeCause> {
    match int_field(m, "last_updated"@) {
        None => Err(DecodeCause::MissingTimestamp),
        Some(ts) => if ts < -MAX_OBSERVED_AT || ts > MAX_OBSERVED_AT {
            Err(DecodeCause::TimestampOutOfRange)
        } else {
            match field_of(m, "data"@) {
                None => Err(DecodeCause::MissingStations),
                Some(d) => match field_of(d, "stations"@) {
                    None => Err(DecodeCause::MissingStations),
                    Some(JsonModel::Arr(elems)) => match stations_spec(elems) {
                        Err(e) => Err(e),
                        Ok(recs) => Ok(SnapModel { observed_at: ts, stations: recs }),
                    },
                    Some(_) => Err(DecodeCause::MissingStations),
                },
            }
        },
    }
}

/// What decoding one compressed input file yields, as a function of its
/// bytes: decompression, the parse, and the document's snapshot shape, with
/// every failure's exact cause.
pub open spec fn decode_spec(gz: Seq<u8>) -> Result<SnapModel, DecodeCause> {
    match inflated(gz) {
        None => Err(DecodeCause::CorruptStream),
        Some(bytes) => if !json_accepts(bytes) {
            Err(DecodeCause::MalformedJson)
        } else {
            snapshot_spec(json_doc_of(bytes))
        },
    }
}

/// Narrow one raw counter to a non-negative 32-bit column value: the feed
/// requires counters to be non-negative, and the columns store 32 bits.
pub fn check_counter(x: i64) -> (r: Result<i32, DecodeCause>)
    ensures
        r matches Ok(c) ==> c == x && 0 <= x <= i32::MAX,
        r is Err <==> !(0 <= x <= i32::MAX),
        r matches Err(e) ==> e == DecodeCause::CounterOutOfRange,
{
    if 0 <= x && x <= i32::MAX as i64 {
        Ok(x as i32)
    } else {
        Err(DecodeCause::CounterOutOfRange)
    }
}

/// Read one required counter field of a station entry.
fn get_counter(v: &serde_json::Value, key: &str) -> (r: Result<i32, DecodeCause>)
    ensures
        r == counter_spec(json_model(*v), key@),
{
    match value_get(v, key) {
        Some(field) => match value_as_i64(field) {
            Some(x) => check_counter(x),
            None => Err(DecodeCause::BadStationField),
        },
        None => Err(DecodeCause::BadStationField),
    }
}

/// Decode one station entry: its string key, the four required counters, and
/// the optional status flag — which is accepted regardless of its value;
/// filtering by status is a separate policy step.
fn station_from_value(v: &serde_json::Value) -> (r: Result<StationRecord, DecodeCause>)
    ensures
        match r {
            Ok(rec) => station_spec(json_model(*v)) == Ok::<RecModel, DecodeCause>(rec@) && rec.wf(),
            Err(e) => station_spec(json_model(*v)) == Err::<RecModel, DecodeCause>(e),
        },
{
    let station_id: String = match value_get(v, "station_id") {
        Some(field) => match value_as_string(field) {
            Some(s) => s,
            None => {
                return Err(DecodeCause::BadStationField);
            },
        },
        None => {
            return Err(DecodeCause::BadStationField);
        },
    };
    let bikes_raw: i32 = match get_counter(v, "num_bikes_available") {
        Ok(c) => c,
        Err(e) => {
            return Err(e);
        },
    };
    let ebikes: i32 = match get_counter(v, "num_ebikes_available") {
        Ok(c) => c,
        Err(e) => {
            return Err(e);
        },
    };
    let disabled: i32 = match get_counter(v, "num_bikes_disabled") {
        Ok(c) => c,
        Err(e) => {
            return Err(e);
        },
    };
    let docks: i32 = match get_counter(v, "num_docks_available") {
        Ok(c) => c,
        Err(e) => {
            return Err(e);
        },
    };
    let status: Option<String> = match value_get(v, "station_status") {
        Some(field) => match value_as_string(field) {
            Some(s) => Some(s),
            None => {
                return Err(DecodeCause::BadStationField);
            },
        },
        None => None,
    };
    Ok(
        StationRecord {
            station_id,
            counters: Counters { bikes_raw, ebikes, disabled, docks },
            status,
        },
    )
}

/// Decode one parsed JSON document into a snapshot: the observation time
/// from `last_updated` and every entry of `data.stations`. Any malformed
/// entry fails the whole document.
fn snapshot_from_value(v: &serde_json::Value) -> (r: Result<Snapshot, DecodeCause>)
    ensures
        match r {
            Ok(snap) => snapshot_spec(json_model(*v)) == Ok::<SnapModel, DecodeCause>(snap@) && snap.wf(),
            Err(e) => snapshot_spec(json_model(*v)) == Err::<SnapModel, DecodeCause>(e),
        },
{
    let ghost mdoc = json_model(*v);
    let observed_at: i64 = match value_get(v, "last_updated") {
        Some(field) => match value_as_i64(field) {
            Some(x) => x,
            None => {
                return Err(DecodeCause::MissingTimestamp);
            },
        },
        None => {
            return Err(DecodeCause::MissingTimestamp);
        },
    };
    if observed_at < -MAX_OBSERVED_AT || observed_at > MAX_OBSERVED_AT {
        return Err(DecodeCause::TimestampOutOfRange);
    }
    let data: &serde_json::Value = match value_get(v, "data") {
        Some(d) => d,
        None => {
            return Err(DecodeCause::MissingStations);
        },
    };
    let entries: &Vec<serde_json::Value> = match value_get(data, "stations") {
        Some(s) => match value_as_array(s) {
            Some(arr) => arr,
            None => {
                return Err(DecodeCause::MissingStations);
            },
        },
        None => {
            return Err(DecodeCause::MissingStations);
        },
    };
    let ghost elems = (match field_of(field_of(mdoc, "data"@)->Some_0, "stations"@)->Some_0 {
        JsonModel::Arr(e) => e,
        _ => Seq::empty(),
    });
    let mut stations: Vec<StationRecord> = Vec::new();
    let n: usize = entries.len();
    proof {
        assert(elems.take(0) =~= Seq::<JsonModel>::empty());
        assert(stations@.map_values(|rec: StationRecord| rec@) =~= Seq::<RecModel>::empty());
    }
    for i in 0..n
        invariant
            n == entries@.len(),
            n == elems.len(),
            mdoc == json_model(*v),
            int_field(mdoc, "last_updated"@) == Some(observed_at),
            -MAX_OBSERVED_AT <= observed_at <= MAX_OBSERVED_AT,
            field_of(mdoc, "data"@) is Some,
            field_of(field_of(mdoc, "data"@)->Some_0, "stations"@) == Some(JsonModel::Arr(elems)),
            forall|j: int| 0 <= j < n ==> json_model(#[trigger] entries@[j]) == elems[j],
            stations_spec(elems.take(i as int)) == Ok::<Seq<RecModel>, DecodeCause>(
                stations@.map_values(|rec: StationRecord| rec@),
            ),
            forall|j: int| 0 <= j < stations@.len() ==> (#[trigger] stations@[j]).wf(),
    {
        proof {
            lemma_stations_spec_push(elems.take(i as int), elems[i as int]);
            assert(elems.take(i + 1) =~= elems.take(i as int).push(elems[i as int]));
        }
        match station_from_value(&entries[i]) {
            Ok(rec) => {
                let ghost pre = stations@.map_values(|rec: StationRecord| rec@);
                stations.push(rec);
                proof {
                    assert(stations@.map_values(|rec: StationRecord| rec@) =~= pre.push(rec@));
                }
            },
            Err(e) => {
                proof {
                    lemma_stations_spec_extend_err(elems, i + 1);
                }
                return Err(e);
            },
        }
    }
    proof {
        assert(elems.take(n as int) =~= elems);
    }
    let snap = Snapshot { observed_at, stations };
    proof {
        assert(snap@ =~~= snapshot_spec(mdoc)->Ok_0);
    }
    Ok(snap)
}

/// Decode one compressed input file into a snapshot: decompress, parse the
/// JSON document, and extract the snapshot shape. The result — the decoded
/// snapshot, or the failure the caller skips the file for — is exactly
/// `decode_spec` of the file's bytes.
pub fn decode_snapshot(gz: &Vec<u8>) -> (r: Result<Snapshot, DecodeCause>)
    ensures
        match r {
            Ok(snap) => decode_spec(gz@) == Ok::<SnapModel, DecodeCause>(snap@) && snap.wf(),
            Err(e) => decode_spec(gz@) == Err::<SnapModel, DecodeCause>(e),
        },
{
    let bytes: Vec<u8> = match gunzip(gz) {
        Ok(b) => b,
        Err(_) => {
            return Err(DecodeCause::CorruptStream);
        },
    };
    let doc: serde_json::Value = match parse_json(&bytes) {
        Ok(v) => v,
        Err(_) => {
            return Err(DecodeCause::MalformedJson);
        },
    };
    snapshot_from_value(&doc)
}

} // verus!
