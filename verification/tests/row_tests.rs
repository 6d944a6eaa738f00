use pegasus::errors::BuildError;
use pegasus::errors::MarshalError;
use pegasus::field::Field;
use pegasus::field::FieldType;
use pegasus::marshal::Marshal;
use pegasus::row::Row;
use pegasus::row::RowBuilder;

fn int32_row(a: i32, b: i32) -> Row {
    RowBuilder::new(2)
        .add_field(Field::new(FieldType::Int32(a)))
        .add_field(Field::new(FieldType::Int32(b)))
        .build()
        .unwrap()
}

#[test]
fn field_widths_are_fixed_per_variant() {
    assert_eq!(FieldType::Int32(0).encoded_width(), 4);
    assert_eq!(FieldType::Int32(i32::MIN).encoded_width(), 4);
    assert_eq!(FieldType::Int64(0).encoded_width(), 8);
    assert_eq!(FieldType::Int64(i64::MAX).encoded_width(), 8);
    assert_eq!(Field::new(FieldType::Int32(7)).size(), 4);
    assert_eq!(Field::new(FieldType::Int64(7)).size(), 8);
}

#[test]
fn field_encoding_is_little_endian() {
    assert_eq!(Field::new(FieldType::Int32(13)).encoded_bytes(), vec![13, 0, 0, 0]);
    assert_eq!(
        Field::new(FieldType::Int32(-2)).encoded_bytes(),
        vec![0xfe, 0xff, 0xff, 0xff]
    );
    assert_eq!(
        Field::new(FieldType::Int32(0x0102_0304)).encoded_bytes(),
        vec![0x04, 0x03, 0x02, 0x01]
    );
    assert_eq!(
        Field::new(FieldType::Int64(1)).encoded_bytes(),
        vec![1, 0, 0, 0, 0, 0, 0, 0]
    );
    assert_eq!(
        Field::new(FieldType::Int64(-1)).encoded_bytes(),
        vec![0xff; 8]
    );
}

#[test]
fn field_serialize_fills_prefix_only() {
    let field = Field::new(FieldType::Int32(13));
    let mut dest = vec![0xaa_u8; 6];
    assert_eq!(field.serialize(&mut dest), Ok(()));
    assert_eq!(dest, vec![13, 0, 0, 0, 0xaa, 0xaa]);
}

#[test]
fn build_with_exact_arity_succeeds() {
    let row = RowBuilder::new(3)
        .add_field(Field::new(FieldType::Int32(1)))
        .add_field(Field::new(FieldType::Int64(2)))
        .add_field(Field::new(FieldType::Int32(3)))
        .build()
        .unwrap();
    // the row's size is the sum of its fields' encoded widths: 4 + 8 + 4
    assert_eq!(row.size(), 16);
}

#[test]
fn build_of_empty_row_succeeds() {
    let row = RowBuilder::new(0).build().unwrap();
    assert_eq!(row.size(), 0);
    let mut dest: Vec<u8> = Vec::new();
    assert_eq!(row.serialize(&mut dest), Ok(()));
    assert_eq!(dest, Vec::<u8>::new());
}

#[test]
fn build_with_too_few_fields_fails() {
    let result = RowBuilder::new(3)
        .add_field(Field::new(FieldType::Int32(12)))
        .add_field(Field::new(FieldType::Int32(100)))
        .build();
    assert_eq!(
        result.err(),
        Some(BuildError::ArityMismatch { expected: 3, actual: 2 })
    );
}

#[test]
fn build_with_too_many_fields_fails() {
    // add_field itself never checks arity: overflow is detected at build
    let result = RowBuilder::new(1)
        .add_field(Field::new(FieldType::Int32(1)))
        .add_field(Field::new(FieldType::Int32(2)))
        .build();
    assert_eq!(
        result.err(),
        Some(BuildError::ArityMismatch { expected: 1, actual: 2 })
    );
}

#[test]
fn row_serialize_concatenates_fields_in_order() {
    let row = RowBuilder::new(2)
        .add_field(Field::new(FieldType::Int32(13)))
        .add_field(Field::new(FieldType::Int64(0x0102)))
        .build()
        .unwrap();
    let mut dest = vec![0u8; 12];
    assert_eq!(row.serialize(&mut dest), Ok(()));
    assert_eq!(dest, vec![13, 0, 0, 0, 0x02, 0x01, 0, 0, 0, 0, 0, 0]);
}

#[test]
fn serialize_into_short_buffer_fails_without_writing() {
    let row = int32_row(13, 101);
    assert_eq!(row.size(), 8);
    let mut dest = vec![0u8; 4];
    assert_eq!(
        row.serialize(&mut dest),
        Err(MarshalError::BufferTooSmall { needed: 8, available: 4 })
    );
    assert_eq!(dest, vec![0, 0, 0, 0]);
}
