use collector::aggregate::Aggregator;
use collector::emit::{emit_combined, schema, ColumnType};
use collector::series::ColumnUnit;
use collector::station::Counters;

use arrow::datatypes::{DataType, Field, Schema, TimeUnit};
use arrow_array::{Array, ArrayRef, Int32Array, RecordBatch, TimestampMillisecondArray,
    UInt32Array};
use parquet::arrow::arrow_reader::ParquetRecordBatchReaderBuilder;
use parquet::arrow::ArrowWriter;
use parquet::file::properties::{WriterProperties, WriterVersion};
use std::sync::Arc;

fn column_data_type(ty: &ColumnType) -> DataType {
    match ty {
        ColumnType::UInt32 => DataType::UInt32,
        ColumnType::Int32 => DataType::Int32,
        ColumnType::TimestampMillis => DataType::Timestamp(TimeUnit::Millisecond, None),
    }
}

fn arrow_schema() -> Schema {
    let fields: Vec<Field> = schema()
        .iter()
        .map(|decl| Field::new(decl.name.clone(), column_data_type(&decl.ty), decl.nullable))
        .collect();
    Schema::new(fields)
}

fn unit_to_parquet_bytes(unit: &ColumnUnit) -> Vec<u8> {
    let schema_ref = Arc::new(arrow_schema());
    let arrays: Vec<ArrayRef> = vec![
        Arc::new(UInt32Array::from(unit.station_numeric_id.clone())),
        Arc::new(Int32Array::from(unit.bikes_available.clone())),
        Arc::new(Int32Array::from(unit.ebikes_available.clone())),
        Arc::new(Int32Array::from(unit.bikes_disabled.clone())),
        Arc::new(Int32Array::from(unit.docks_available.clone())),
        Arc::new(TimestampMillisecondArray::from(unit.time_ms.clone())),
    ];
    let batch = RecordBatch::try_new(schema_ref.clone(), arrays).unwrap();
    let props = WriterProperties::builder()
        .set_compression(parquet::basic::Compression::SNAPPY)
        .set_writer_version(WriterVersion::PARQUET_2_0)
        .build();
    let mut buf: Vec<u8> = Vec::new();
    let mut writer = ArrowWriter::try_new(&mut buf, schema_ref, Some(props)).unwrap();
    writer.write(&batch).unwrap();
    writer.close().unwrap();
    buf
}

#[test]
fn schema_declares_the_six_columns() {
    let s = schema();
    let names: Vec<&str> = s.iter().map(|d| d.name.as_str()).collect();
    assert_eq!(
        names,
        vec![
            "station_numeric_id",
            "bikes_available",
            "ebikes_available",
            "bikes_disabled",
            "docks_available",
            "time"
        ]
    );
    assert!(s.iter().all(|d| !d.nullable));
    assert_eq!(s[0].ty, ColumnType::UInt32);
    assert_eq!(s[5].ty, ColumnType::TimestampMillis);
    for d in &s[1..5] {
        assert_eq!(d.ty, ColumnType::Int32);
    }
}

#[test]
fn round_trip_preserves_rows_names_and_types() {
    let mut agg = Aggregator::new();
    for i in 0..5i64 {
        agg.record(
            &"alpha".to_string(),
            1_700_000_000 + 60 * i,
            &Counters { bikes_raw: 10 + i as i32, ebikes: 3, disabled: 1, docks: 5 },
        );
        agg.record(
            &"beta".to_string(),
            1_700_000_000 + 60 * i,
            &Counters { bikes_raw: 2, ebikes: 1, disabled: 0, docks: 8 },
        );
    }
    let unit = emit_combined(agg);
    let rows = unit.time_ms.len();
    assert_eq!(rows, 10);

    let buf = unit_to_parquet_bytes(&unit);
    let builder = ParquetRecordBatchReaderBuilder::try_new(bytes::Bytes::from(buf)).unwrap();
    let read_schema = builder.schema().clone();
    let reader = builder.build().unwrap();
    let batches: Vec<RecordBatch> = reader.map(|b| b.unwrap()).collect();
    let read_rows: usize = batches.iter().map(|b| b.num_rows()).sum();
    assert_eq!(read_rows, rows);

    let declared = schema();
    assert_eq!(read_schema.fields().len(), declared.len());
    for (field, decl) in read_schema.fields().iter().zip(declared.iter()) {
        assert_eq!(field.name(), &decl.name);
        assert_eq!(field.data_type(), &column_data_type(&decl.ty));
        assert!(!field.is_nullable());
    }
}

#[test]
fn round_trip_preserves_the_filtered_station_rows() {
    let mut agg = Aggregator::new();
    agg.record(&"alpha".to_string(), 1_000, &Counters { bikes_raw: 10, ebikes: 3, disabled: 0, docks: 4 });
    let unit = emit_combined(agg);
    let buf = unit_to_parquet_bytes(&unit);
    let builder = ParquetRecordBatchReaderBuilder::try_new(bytes::Bytes::from(buf)).unwrap();
    let reader = builder.build().unwrap();
    let batches: Vec<RecordBatch> = reader.map(|b| b.unwrap()).collect();
    assert_eq!(batches.len(), 1);
    let col = batches[0]
        .column(1)
        .as_any()
        .downcast_ref::<Int32Array>()
        .unwrap();
    assert_eq!(col.value(0), 7);
    let times = batches[0]
        .column(5)
        .as_any()
        .downcast_ref::<TimestampMillisecondArray>()
        .unwrap();
    assert_eq!(times.value(0), 1_000_000);
}
