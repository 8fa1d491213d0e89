use collector::aggregate::Aggregator;
use collector::decode::{check_counter, decode_snapshot, DecodeCause};
use collector::emit::{emit_combined, emit_per_station, emit_units, PartitionPolicy};
use collector::pipeline::{run_pipeline, InputFile, SkipCause};
use collector::series::{SealError, StationSeries};
use collector::station::{derive_bikes_available, filter_stations, FilterPolicy};

use flate2::write::GzEncoder;
use flate2::Compression;
use std::io::Write;

fn gz_bytes(data: &[u8]) -> Vec<u8> {
    let mut encoder = GzEncoder::new(Vec::new(), Compression::default());
    encoder.write_all(data).unwrap();
    encoder.finish().unwrap()
}

fn station_entry(id: &str, bikes: i64, ebikes: i64, disabled: i64, docks: i64, status: Option<&str>) -> String {
    let status_part = match status {
        Some(s) => format!(",\"station_status\":\"{}\"", s),
        None => String::new(),
    };
    format!(
        "{{\"station_id\":\"{}\",\"num_bikes_available\":{},\"num_ebikes_available\":{},\"num_bikes_disabled\":{},\"num_docks_available\":{}{}}}",
        id, bikes, ebikes, disabled, docks, status_part
    )
}

fn snapshot_json(last_updated: i64, entries: &[String]) -> String {
    format!(
        "{{\"last_updated\":{},\"data\":{{\"stations\":[{}]}}}}",
        last_updated,
        entries.join(",")
    )
}

fn good_file(name: &str, last_updated: i64, entries: &[String]) -> InputFile {
    InputFile {
        name: name.to_string(),
        bytes: gz_bytes(snapshot_json(last_updated, entries).as_bytes()),
    }
}

#[test]
fn identifiers_assigned_in_first_seen_order() {
    let mut agg = Aggregator::new();
    let c = collector::station::Counters { bikes_raw: 1, ebikes: 0, disabled: 0, docks: 1 };
    agg.record(&"alpha".to_string(), 100, &c);
    agg.record(&"beta".to_string(), 100, &c);
    agg.record(&"alpha".to_string(), 200, &c);
    assert_eq!(agg.table.names, vec!["alpha".to_string(), "beta".to_string()]);
    assert_eq!(agg.table.lookup(&"alpha".to_string()), Some(1));
    assert_eq!(agg.table.lookup(&"beta".to_string()), Some(2));
    assert_eq!(agg.table.lookup(&"gamma".to_string()), None);
    assert_eq!(agg.series[0].numeric_id, 1);
    assert_eq!(agg.series[1].numeric_id, 2);
    assert_eq!(agg.series[0].times_ms.len(), 2);
    assert_eq!(agg.series[1].times_ms.len(), 1);
}

#[test]
fn identifier_stable_across_files() {
    let e1 = vec![station_entry("alpha", 5, 1, 0, 2, None)];
    let e2 = vec![
        station_entry("beta", 3, 0, 0, 9, None),
        station_entry("alpha", 6, 2, 0, 1, None),
    ];
    let files = vec![good_file("one.json.gz", 1000, &e1), good_file("two.json.gz", 2000, &e2)];
    let (agg, summary) = run_pipeline(&files, &FilterPolicy::KeepAll);
    assert_eq!(summary.processed, 2);
    assert_eq!(summary.skipped.len(), 0);
    assert_eq!(agg.table.names, vec!["alpha".to_string(), "beta".to_string()]);
    let units = emit_per_station(agg);
    assert_eq!(units.len(), 2);
    assert_eq!(units[0].station, Some(1));
    assert_eq!(units[0].columns.station_numeric_id, vec![1, 1]);
    assert_eq!(units[1].station, Some(2));
    assert_eq!(units[1].columns.station_numeric_id, vec![2]);
}

#[test]
fn row_alignment_after_many_records() {
    let mut agg = Aggregator::new();
    for i in 0..37i64 {
        let c = collector::station::Counters {
            bikes_raw: (i % 7) as i32,
            ebikes: 0,
            disabled: 1,
            docks: 3,
        };
        let name = format!("station-{}", i % 5);
        agg.record(&name, 1000 + i, &c);
    }
    for s in &agg.series {
        let n = s.times_ms.len();
        assert_eq!(s.bikes_available.len(), n);
        assert_eq!(s.ebikes_available.len(), n);
        assert_eq!(s.bikes_disabled.len(), n);
        assert_eq!(s.docks_available.len(), n);
    }
}

#[test]
fn derivation_raw_minus_ebikes() {
    assert_eq!(derive_bikes_available(10, 3), 7);
    let entries = vec![station_entry("alpha", 10, 3, 1, 5, None)];
    let files = vec![good_file("one.json.gz", 1700000000, &entries)];
    let (agg, _) = run_pipeline(&files, &FilterPolicy::KeepAll);
    let units = emit_per_station(agg);
    assert_eq!(units[0].columns.bikes_available, vec![7]);
    assert_eq!(units[0].columns.ebikes_available, vec![3]);
    assert_eq!(units[0].columns.bikes_disabled, vec![1]);
    assert_eq!(units[0].columns.docks_available, vec![5]);
    assert_eq!(units[0].columns.time_ms, vec![1700000000000]);
}

#[test]
fn negative_derivation_passes_through() {
    // E-bikes exceeding the raw count is a data-quality signal, kept as-is.
    let entries = vec![station_entry("alpha", 2, 5, 0, 0, None)];
    let files = vec![good_file("one.json.gz", 1000, &entries)];
    let (agg, _) = run_pipeline(&files, &FilterPolicy::KeepAll);
    let units = emit_per_station(agg);
    assert_eq!(units[0].columns.bikes_available, vec![-3]);
}

#[test]
fn skip_on_malformed_keeps_the_run_alive() {
    let entries = vec![station_entry("alpha", 10, 3, 1, 5, None)];
    let good = good_file("good.json.gz", 1700000000, &entries);
    let bad = InputFile {
        name: "bad.json.gz".to_string(),
        bytes: gz_bytes(b"{\"last_updated\":1700000000,\"data\":{}}"),
    };
    let files = vec![good, bad];
    let (agg, summary) = run_pipeline(&files, &FilterPolicy::KeepAll);
    assert_eq!(summary.processed, 1);
    assert_eq!(summary.skipped.len(), 1);
    assert_eq!(summary.skipped[0].name, "bad.json.gz");
    assert_eq!(summary.skipped[0].cause, SkipCause::Decode(DecodeCause::MissingStations));
    let combined = emit_combined(agg);
    assert_eq!(combined.time_ms, vec![1700000000000]);
    assert_eq!(combined.station_numeric_id, vec![1]);
}

#[test]
fn filter_policy_active_only() {
    let json = snapshot_json(
        1000,
        &[
            station_entry("alpha", 4, 1, 0, 2, Some("active")),
            station_entry("beta", 6, 2, 0, 3, Some("closed")),
        ],
    );
    let snap = decode_snapshot(&gz_bytes(json.as_bytes())).unwrap();
    let active = filter_stations(
        &snap.stations,
        &FilterPolicy::ActiveOnly { sentinel: "active".to_string() },
    );
    assert_eq!(active.len(), 1);
    assert_eq!(active[0].station_id, "alpha");
    let all = filter_stations(&snap.stations, &FilterPolicy::KeepAll);
    assert_eq!(all.len(), 2);
}

#[test]
fn filter_policy_drops_missing_status() {
    let json = snapshot_json(1000, &[station_entry("alpha", 4, 1, 0, 2, None)]);
    let snap = decode_snapshot(&gz_bytes(json.as_bytes())).unwrap();
    let active = filter_stations(
        &snap.stations,
        &FilterPolicy::ActiveOnly { sentinel: "active".to_string() },
    );
    assert_eq!(active.len(), 0);
    let all = filter_stations(&snap.stations, &FilterPolicy::KeepAll);
    assert_eq!(all.len(), 1);
}

#[test]
fn filter_policy_applies_during_a_run() {
    let entries = vec![
        station_entry("alpha", 4, 1, 0, 2, Some("active")),
        station_entry("beta", 6, 2, 0, 3, Some("closed")),
    ];
    let files = vec![good_file("one.json.gz", 1000, &entries)];
    let policy = FilterPolicy::ActiveOnly { sentinel: "active".to_string() };
    let (agg, summary) = run_pipeline(&files, &policy);
    assert_eq!(summary.processed, 1);
    assert_eq!(agg.table.names, vec!["alpha".to_string()]);
}

#[test]
fn sealing_twice_is_refused() {
    let mut s = StationSeries::new(1);
    s.append_row(1000, 7, 3, 1, 5);
    let first = s.seal();
    assert!(first.is_ok());
    let unit = first.unwrap();
    assert_eq!(unit.time_ms, vec![1000]);
    assert_eq!(unit.station_numeric_id, vec![1]);
    let second = s.seal();
    assert_eq!(second.unwrap_err(), SealError::AlreadySealed);
    // The buffers the first seal drained stay empty.
    assert_eq!(s.times_ms.len(), 0);
}

#[test]
fn corrupt_stream_is_reported() {
    let r = decode_snapshot(&vec![0x1f, 0x8b, 0x00, 0x01, 0x02]);
    assert_eq!(r.unwrap_err(), DecodeCause::CorruptStream);
}

#[test]
fn malformed_json_is_reported() {
    let r = decode_snapshot(&gz_bytes(b"this is not json"));
    assert_eq!(r.unwrap_err(), DecodeCause::MalformedJson);
}

#[test]
fn missing_timestamp_is_reported() {
    let r = decode_snapshot(&gz_bytes(b"{\"data\":{\"stations\":[]}}"));
    assert_eq!(r.unwrap_err(), DecodeCause::MissingTimestamp);
}

#[test]
fn timestamp_out_of_range_is_reported() {
    let json = snapshot_json(9_300_000_000_000_000, &[]);
    let r = decode_snapshot(&gz_bytes(json.as_bytes()));
    assert_eq!(r.unwrap_err(), DecodeCause::TimestampOutOfRange);
}

#[test]
fn missing_station_field_is_reported() {
    let json = snapshot_json(
        1000,
        &["{\"num_bikes_available\":1,\"num_ebikes_available\":0,\"num_bikes_disabled\":0,\"num_docks_available\":0}".to_string()],
    );
    let r = decode_snapshot(&gz_bytes(json.as_bytes()));
    assert_eq!(r.unwrap_err(), DecodeCause::BadStationField);
}

#[test]
fn negative_counter_is_reported() {
    let json = snapshot_json(1000, &[station_entry("alpha", -1, 0, 0, 0, None)]);
    let r = decode_snapshot(&gz_bytes(json.as_bytes()));
    assert_eq!(r.unwrap_err(), DecodeCause::CounterOutOfRange);
}

#[test]
fn oversized_counter_is_reported() {
    let json = snapshot_json(1000, &[station_entry("alpha", 2_147_483_648, 0, 0, 0, None)]);
    let r = decode_snapshot(&gz_bytes(json.as_bytes()));
    assert_eq!(r.unwrap_err(), DecodeCause::CounterOutOfRange);
}

#[test]
fn check_counter_bounds() {
    assert_eq!(check_counter(0), Ok(0));
    assert_eq!(check_counter(2_147_483_647), Ok(2_147_483_647));
    assert_eq!(check_counter(-1), Err(DecodeCause::CounterOutOfRange));
    assert_eq!(check_counter(2_147_483_648), Err(DecodeCause::CounterOutOfRange));
}

#[test]
fn duplicate_timestamps_append_duplicate_rows() {
    let entries = vec![station_entry("alpha", 5, 1, 0, 2, None)];
    let files = vec![good_file("one.json.gz", 1000, &entries), good_file("two.json.gz", 1000, &entries)];
    let (agg, _) = run_pipeline(&files, &FilterPolicy::KeepAll);
    let units = emit_per_station(agg);
    assert_eq!(units[0].columns.time_ms, vec![1000000, 1000000]);
}

#[test]
fn combined_partition_concatenates_in_identifier_order() {
    let entries = vec![
        station_entry("alpha", 5, 1, 0, 2, None),
        station_entry("beta", 9, 4, 0, 3, None),
    ];
    let files = vec![good_file("one.json.gz", 1000, &entries)];
    let (agg, _) = run_pipeline(&files, &FilterPolicy::KeepAll);
    let units = emit_units(agg, &PartitionPolicy::SingleCombined);
    assert_eq!(units.len(), 1);
    assert_eq!(units[0].station, None);
    assert_eq!(units[0].columns.station_numeric_id, vec![1, 2]);
    assert_eq!(units[0].columns.bikes_available, vec![4, 5]);
}

#[test]
fn skips_are_reported_in_file_order_with_their_causes() {
    let entries = vec![station_entry("alpha", 10, 3, 1, 5, None)];
    let corrupt = InputFile { name: "first.json.gz".to_string(), bytes: vec![0x1f, 0x8b, 0x08] };
    let good = good_file("second.json.gz", 1000, &entries);
    let not_json = InputFile { name: "third.json.gz".to_string(), bytes: gz_bytes(b"nope") };
    let files = vec![corrupt, good, not_json];
    let (agg, summary) = run_pipeline(&files, &FilterPolicy::KeepAll);
    assert_eq!(summary.processed, 1);
    assert_eq!(summary.skipped.len(), 2);
    assert_eq!(summary.skipped[0].name, "first.json.gz");
    assert_eq!(summary.skipped[0].cause, SkipCause::Decode(DecodeCause::CorruptStream));
    assert_eq!(summary.skipped[1].name, "third.json.gz");
    assert_eq!(summary.skipped[1].cause, SkipCause::Decode(DecodeCause::MalformedJson));
    assert_eq!(agg.table.names, vec!["alpha".to_string()]);
}

#[test]
fn identifier_document_lists_every_station() {
    let mut agg = Aggregator::new();
    let c = collector::station::Counters { bikes_raw: 1, ebikes: 0, disabled: 0, docks: 1 };
    agg.record(&"alpha".to_string(), 100, &c);
    agg.record(&"beta".to_string(), 100, &c);
    agg.record(&"alpha".to_string(), 200, &c);
    let document = collector::emit::identifier_document(&agg.table);
    assert_eq!(document, "{\"alpha\":1,\"beta\":2}");
}

#[test]
fn empty_run_produces_no_rows() {
    let files: Vec<InputFile> = Vec::new();
    let (agg, summary) = run_pipeline(&files, &FilterPolicy::KeepAll);
    assert_eq!(summary.processed, 0);
    assert_eq!(summary.skipped.len(), 0);
    let combined = emit_combined(agg);
    assert_eq!(combined.time_ms.len(), 0);
}
