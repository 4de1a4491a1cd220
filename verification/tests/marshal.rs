use pybindgen::buffer::{RustBuffer, RustBufferStream};
use pybindgen::codec::{Packed, PackedLayout, Record, RecordLayout};
use pybindgen::error::OutOfBounds;
use pybindgen::marshal::{
    lift_from_optional, lift_optional, lower_optional, Layout, Lowered, Value, TAG_ABSENT,
    TAG_PRESENT,
};
use pybindgen::type_mapper::DeclType;

fn double(value: f64) -> Packed {
    Packed::Double(value.to_bits())
}

fn point(x: f64, y: f64) -> Record {
    Record { fields: vec![double(x), double(y)] }
}

fn point_layout() -> RecordLayout {
    RecordLayout { fields: vec![PackedLayout::Double, PackedLayout::Double] }
}

fn round_trip(layout: &Layout, value: Value) -> Value {
    assert!(layout.admits(&value));
    let lowered = value.lower().unwrap();
    assert!(lowered.fits(layout));
    assert_eq!(lowered.declaration(), layout.declaration());
    layout.lift(lowered).unwrap()
}

#[test]
fn the_tags_are_zero_and_one() {
    assert_eq!(TAG_ABSENT, 0x00);
    assert_eq!(TAG_PRESENT, 0x01);
}

#[test]
fn an_absent_optional_double_is_one_zero_byte() {
    let rbuf = lower_optional(&None).unwrap();
    assert_eq!(rbuf.len(), 1);
    assert_eq!(rbuf.into_bytes(), vec![0x00]);
}

#[test]
fn an_absent_optional_double_is_read_without_consuming_more() {
    let bytes = vec![0x00, 0x40, 0x08, 0, 0, 0, 0, 0, 0];
    let mut stream = RustBufferStream::new(RustBuffer::from_bytes(bytes));
    assert_eq!(lift_from_optional(&PackedLayout::Double, &mut stream), Ok(None));
    assert_eq!(stream.offset(), 1);
    assert_eq!(lift_optional(&PackedLayout::Double, RustBuffer::from_bytes(vec![0x00])), Ok(None));
}

#[test]
fn a_present_optional_double_is_the_tag_and_eight_bytes() {
    let rbuf = lower_optional(&Some(double(3.0))).unwrap();
    assert_eq!(rbuf.len(), 9);
    assert_eq!(rbuf.into_bytes(), vec![0x01, 0x40, 0x08, 0, 0, 0, 0, 0, 0]);
}

#[test]
fn a_present_optional_double_is_read_back() {
    let rbuf = lower_optional(&Some(double(3.0))).unwrap();
    assert_eq!(lift_optional(&PackedLayout::Double, rbuf), Ok(Some(double(3.0))));
    let mut stream = RustBufferStream::new(lower_optional(&Some(double(3.0))).unwrap());
    assert_eq!(lift_from_optional(&PackedLayout::Double, &mut stream), Ok(Some(double(3.0))));
    assert_eq!(stream.offset(), 9);
}

#[test]
fn any_tag_but_zero_means_present() {
    for tag in [0x01u8, 0x02, 0x7f, 0x80, 0xff] {
        let mut bytes = vec![tag];
        bytes.extend_from_slice(&3.0f64.to_be_bytes());
        assert_eq!(
            lift_optional(&PackedLayout::Double, RustBuffer::from_bytes(bytes)),
            Ok(Some(double(3.0)))
        );
    }
}

#[test]
fn an_optional_that_ends_early_is_out_of_bounds() {
    assert_eq!(lift_optional(&PackedLayout::Double, RustBuffer::allocate(0)), Err(OutOfBounds));
    assert_eq!(
        lift_optional(&PackedLayout::Double, RustBuffer::from_bytes(vec![1, 0, 0, 0])),
        Err(OutOfBounds)
    );
    assert_eq!(
        lift_optional(&PackedLayout::Double, RustBuffer::from_bytes(vec![1, 0, 0, 0, 0, 0, 0, 0])),
        Err(OutOfBounds)
    );
}

#[test]
fn an_optional_record_round_trips() {
    let inner = PackedLayout::Record(point_layout());
    let rbuf = lower_optional(&Some(Packed::Record(point(1.5, 2.5)))).unwrap();
    assert_eq!(rbuf.len(), 17);
    assert_eq!(lift_optional(&inner, rbuf), Ok(Some(Packed::Record(point(1.5, 2.5)))));
    assert_eq!(lift_optional(&inner, lower_optional(&None).unwrap()), Ok(None));
}

#[test]
fn scalars_cross_unchanged() {
    assert_eq!(Value::U32(7).lower(), Some(Lowered::U32(7)));
    assert_eq!(Value::U64(u64::MAX).lower(), Some(Lowered::U64(u64::MAX)));
    assert_eq!(
        Value::Float(1.5f32.to_bits()).lower(),
        Some(Lowered::Float(1.5f32.to_bits()))
    );
    assert_eq!(
        Value::Double(1.5f64.to_bits()).lower(),
        Some(Lowered::Double(1.5f64.to_bits()))
    );
}

#[test]
fn a_boolean_crosses_as_a_byte() {
    assert_eq!(Value::Boolean(true).lower(), Some(Lowered::Byte(1)));
    assert_eq!(Value::Boolean(false).lower(), Some(Lowered::Byte(0)));
    assert_eq!(Layout::Boolean.lift(Lowered::Byte(0)), Ok(Value::Boolean(false)));
    assert_eq!(Layout::Boolean.lift(Lowered::Byte(1)), Ok(Value::Boolean(true)));
    assert_eq!(Layout::Boolean.lift(Lowered::Byte(0xff)), Ok(Value::Boolean(true)));
}

#[test]
fn an_enum_crosses_as_its_ordinal() {
    assert_eq!(Value::Enum(2).lower(), Some(Lowered::U32(2)));
    assert_eq!(Layout::Enum(3).lift(Lowered::U32(2)), Ok(Value::Enum(2)));
}

#[test]
fn a_record_crosses_in_a_buffer_of_its_size() {
    let lowered = Value::Record(point(1.5, 2.5)).lower().unwrap();
    match lowered {
        Lowered::Buffer(rbuf) => {
            assert_eq!(rbuf.len(), 16);
            let mut expected = 1.5f64.to_be_bytes().to_vec();
            expected.extend_from_slice(&2.5f64.to_be_bytes());
            assert_eq!(rbuf.into_bytes(), expected);
        }
        other => panic!("a record must cross in a buffer, not as {:?}", other),
    }
}

#[test]
fn an_optional_crosses_in_a_buffer_of_its_size() {
    assert_eq!(
        Value::Optional(None).lower(),
        Some(Lowered::Buffer(RustBuffer::from_bytes(vec![0])))
    );
    assert_eq!(
        Value::Optional(Some(double(3.0))).lower(),
        Some(Lowered::Buffer(RustBuffer::from_bytes(vec![1, 0x40, 0x08, 0, 0, 0, 0, 0, 0])))
    );
}

#[test]
fn lifting_inverts_lowering_for_every_kind() {
    assert_eq!(round_trip(&Layout::U32, Value::U32(0)), Value::U32(0));
    assert_eq!(round_trip(&Layout::U32, Value::U32(u32::MAX)), Value::U32(u32::MAX));
    assert_eq!(round_trip(&Layout::U64, Value::U64(1 << 40)), Value::U64(1 << 40));
    assert_eq!(
        round_trip(&Layout::Float, Value::Float(0.1f32.to_bits())),
        Value::Float(0.1f32.to_bits())
    );
    assert_eq!(
        round_trip(&Layout::Double, Value::Double(f64::NAN.to_bits())),
        Value::Double(f64::NAN.to_bits())
    );
    assert_eq!(round_trip(&Layout::Boolean, Value::Boolean(true)), Value::Boolean(true));
    assert_eq!(round_trip(&Layout::Boolean, Value::Boolean(false)), Value::Boolean(false));
    assert_eq!(round_trip(&Layout::Enum(3), Value::Enum(1)), Value::Enum(1));
    assert_eq!(round_trip(&Layout::Enum(3), Value::Enum(3)), Value::Enum(3));
    assert_eq!(
        round_trip(&Layout::Record(point_layout()), Value::Record(point(1.5, 2.5))),
        Value::Record(point(1.5, 2.5))
    );
    assert_eq!(
        round_trip(&Layout::Optional(PackedLayout::Double), Value::Optional(None)),
        Value::Optional(None)
    );
    assert_eq!(
        round_trip(&Layout::Optional(PackedLayout::Double), Value::Optional(Some(double(3.0)))),
        Value::Optional(Some(double(3.0)))
    );
    assert_eq!(
        round_trip(
            &Layout::Optional(PackedLayout::Record(point_layout())),
            Value::Optional(Some(Packed::Record(point(-1.0, 1.0))))
        ),
        Value::Optional(Some(Packed::Record(point(-1.0, 1.0))))
    );
}

#[test]
fn lifting_a_short_buffer_is_out_of_bounds() {
    let short = Lowered::Buffer(RustBuffer::allocate(15));
    let layout = Layout::Record(point_layout());
    assert!(short.fits(&layout));
    assert_eq!(layout.lift(short), Err(OutOfBounds));
    let empty = Lowered::Buffer(RustBuffer::allocate(0));
    let optional = Layout::Optional(PackedLayout::Double);
    assert!(empty.fits(&optional));
    assert_eq!(optional.lift(empty), Err(OutOfBounds));
}

#[test]
fn a_layout_is_carried_by_its_declaration_type() {
    assert_eq!(Layout::U32.declaration(), DeclType::UInt32);
    assert_eq!(Layout::U64.declaration(), DeclType::UInt64);
    assert_eq!(Layout::Float.declaration(), DeclType::Float);
    assert_eq!(Layout::Double.declaration(), DeclType::Double);
    assert_eq!(Layout::Boolean.declaration(), DeclType::Byte);
    assert_eq!(Layout::Enum(2).declaration(), DeclType::UInt32);
    assert_eq!(Layout::Record(point_layout()).declaration(), DeclType::RustBuffer);
    assert_eq!(Layout::Optional(PackedLayout::Double).declaration(), DeclType::RustBuffer);
}

#[test]
fn a_lowered_value_fits_only_the_layouts_of_its_declaration() {
    assert!(Lowered::U32(5).fits(&Layout::U32));
    assert!(!Lowered::U32(5).fits(&Layout::U64));
    assert!(!Lowered::U64(5).fits(&Layout::U32));
    assert!(!Lowered::Double(5).fits(&Layout::Float));
    assert!(Lowered::Byte(1).fits(&Layout::Boolean));
    assert!(!Lowered::Byte(1).fits(&Layout::U32));
    assert!(Lowered::Buffer(RustBuffer::allocate(0)).fits(&Layout::Record(point_layout())));
    assert!(!Lowered::Buffer(RustBuffer::allocate(0)).fits(&Layout::Double));
    assert!(!Lowered::U64(1).fits(&Layout::Optional(PackedLayout::Double)));
}

#[test]
fn ordinal_zero_fits_no_enum() {
    assert!(!Lowered::U32(0).fits(&Layout::Enum(3)));
    assert!(Lowered::U32(1).fits(&Layout::Enum(3)));
    assert!(Lowered::U32(3).fits(&Layout::Enum(3)));
    assert!(!Lowered::U32(4).fits(&Layout::Enum(3)));
    assert!(!Lowered::U32(1).fits(&Layout::Enum(0)));
    assert!(!Layout::Enum(3).admits(&Value::Enum(0)));
    assert!(Layout::Enum(3).admits(&Value::Enum(3)));
    assert!(!Layout::Enum(3).admits(&Value::Enum(4)));
}

#[test]
fn a_layout_admits_only_values_of_its_kind() {
    assert!(Layout::U32.admits(&Value::U32(1)));
    assert!(!Layout::U32.admits(&Value::U64(1)));
    assert!(!Layout::Double.admits(&Value::Float(1)));
    assert!(!Layout::Boolean.admits(&Value::U32(1)));
    assert!(Layout::Record(point_layout()).admits(&Value::Record(point(1.0, 2.0))));
    assert!(!Layout::Record(point_layout()).admits(&Value::Record(Record { fields: vec![] })));
    assert!(Layout::Optional(PackedLayout::Double).admits(&Value::Optional(None)));
    assert!(Layout::Optional(PackedLayout::Double).admits(&Value::Optional(Some(double(1.0)))));
    assert!(!Layout::Optional(PackedLayout::Double)
        .admits(&Value::Optional(Some(Packed::Record(point(1.0, 2.0))))));
    assert!(!Layout::Optional(PackedLayout::Double).admits(&Value::Double(1)));
}

#[test]
fn bytes_behind_a_lifted_value_are_not_looked_at() {
    let mut bytes = 1.5f64.to_be_bytes().to_vec();
    bytes.extend_from_slice(&2.5f64.to_be_bytes());
    bytes.extend_from_slice(&[1, 2, 3]);
    let layout = Layout::Record(point_layout());
    assert_eq!(
        layout.lift(Lowered::Buffer(RustBuffer::from_bytes(bytes))),
        Ok(Value::Record(point(1.5, 2.5)))
    );
}
