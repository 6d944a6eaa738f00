use pegasus::errors::WriteError;
use pegasus::marshal::Marshal;
use pegasus::field::Field;
use pegasus::field::FieldType;
use pegasus::row::Row;
use pegasus::row::RowBuilder;
use pegasus::segment::SegmentWriter;
use pegasus::segment::WriterState;

fn int32_row(a: i32, b: i32) -> Row {
    RowBuilder::new(2)
        .add_field(Field::new(FieldType::Int32(a)))
        .add_field(Field::new(FieldType::Int32(b)))
        .build()
        .unwrap()
}

fn segment_bytes(bufs: Vec<Vec<u8>>) -> Vec<u8> {
    let mut all: Vec<u8> = Vec::new();
    for buf in bufs {
        all.extend_from_slice(&buf);
    }
    all
}

#[test]
fn create_segment() {
    let mut rows: Vec<Row> = Vec::new();
    for index in 1..4 {
        rows.push(int32_row(12 + index, 100 + index));
    }
    let mut writer = SegmentWriter::new(rows);
    let result = writer.write_rows();
    assert!(result.is_ok());
}

#[test]
fn three_rows_encode_to_24_little_endian_bytes() {
    let rows = vec![int32_row(13, 101), int32_row(14, 102), int32_row(15, 103)];
    let mut writer = SegmentWriter::new(rows);
    let bufs = writer.write_rows().unwrap();
    assert_eq!(bufs.len(), 3);
    let expected: Vec<u8> = vec![
        13, 0, 0, 0, 101, 0, 0, 0, //
        14, 0, 0, 0, 102, 0, 0, 0, //
        15, 0, 0, 0, 103, 0, 0, 0,
    ];
    assert_eq!(segment_bytes(bufs), expected);
}

#[test]
fn segment_length_is_total_row_size() {
    let rows = vec![
        int32_row(1, 2),
        RowBuilder::new(1)
            .add_field(Field::new(FieldType::Int64(3)))
            .build()
            .unwrap(),
    ];
    let total: usize = rows.iter().map(|r| r.size()).sum();
    let mut writer = SegmentWriter::new(rows);
    let bufs = writer.write_rows().unwrap();
    assert_eq!(segment_bytes(bufs).len(), total);
    assert_eq!(total, 16);
}

#[test]
fn zero_rows_make_a_zero_length_segment() {
    let mut writer = SegmentWriter::new(Vec::new());
    let bufs = writer.write_rows().unwrap();
    assert_eq!(bufs.len(), 0);
    assert_eq!(segment_bytes(bufs), Vec::<u8>::new());
}

#[test]
fn second_write_fails_with_already_consumed() {
    let rows = vec![int32_row(13, 101)];
    let mut writer = SegmentWriter::new(rows);
    assert!(writer.write_rows().is_ok());
    assert_eq!(writer.write_rows(), Err(WriteError::AlreadyConsumed));
    // and again: consumed is final
    assert_eq!(writer.write_rows(), Err(WriteError::AlreadyConsumed));
}

#[test]
fn writer_state_moves_from_ready_to_consumed() {
    let mut writer = SegmentWriter::new(vec![int32_row(1, 2)]);
    assert_eq!(writer.current_state(), WriterState::Ready);
    let _ = writer.write_rows();
    assert_eq!(writer.current_state(), WriterState::Consumed);
}
