//! Lowering and lifting: how a value of each supported kind crosses the
//! boundary, and how it comes back.
//!
//! A scalar crosses as it is, a boolean as a byte, an enumeration as its
//! ordinal. A record crosses in a buffer of exactly its size. An optional
//! crosses in a buffer that starts with a tag byte, zero for an absent value,
//! and goes on with the value when it is present. Lifting is the exact
//! inverse of lowering.

use crate::buffer::{RustBuffer, RustBufferStream};
use crate::codec::{
    all_conform, joint_decoding, joint_encoding, lemma_decoding_consumes_size,
    lemma_decoding_inverts_encoding, lemma_joint_decoding_inverts_encoding, lemma_size_is_exact,
    lemma_total_size_is_exact, total_size, Packed, PackedLayout, PackedLayoutModel, PackedModel,
    Record, RecordLayout,
};
use crate::error::OutOfBounds;
use crate::type_mapper::DeclType;
use vstd::prelude::*;

verus! {

/// The tag byte that stands in front of an absent optional.
pub const TAG_ABSENT: u8 = 0;

/// The tag byte that is written in front of a present optional. Any byte but
/// [`TAG_ABSENT`] is read as "present".
pub const TAG_PRESENT: u8 = 1;

/// The model of an optional value stored in a buffer.
pub open spec fn optional_model(value: Option<Packed>) -> Option<PackedModel> {
    match value {
        Some(inner) => Some(inner@),
        None => None,
    }
}

/// The number of bytes that an optional takes: the tag, and the value when present.
pub open spec fn optional_size(value: Option<PackedModel>) -> nat {
    match value {
        Some(inner) => 1 + inner.size(),
        None => 1,
    }
}

/// The bytes of an optional: the tag, and the value when present.
pub open spec fn optional_encoding(value: Option<PackedModel>) -> Seq<u8> {
    match value {
        Some(inner) => seq![TAG_PRESENT] + inner.encoding(),
        None => seq![TAG_ABSENT],
    }
}

/// The optional of inner layout `layout` that `bytes` starts with, and the
/// bytes that follow it; `None` when `bytes` ends too early.
pub open spec fn optional_decoding(layout: PackedLayoutModel, bytes: Seq<u8>) -> Option<
    (Option<PackedModel>, Seq<u8>),
> {
    if bytes.len() == 0 {
        None
    } else if bytes[0] == TAG_ABSENT {
        Some((None, bytes.skip(1)))
    } else {
        match layout.decoding(bytes.skip(1)) {
            Some((inner, rest)) => Some((Some(inner), rest)),
            None => None,
        }
    }
}

/// Decoding inverts encoding for optionals: an absent value is one zero byte
/// and is read back without touching what follows; a present value is read
/// back from the bytes behind its tag.
pub proof fn lemma_optional_decoding_inverts_encoding(
    value: Option<PackedModel>,
    layout: PackedLayoutModel,
    rest: Seq<u8>,
)
    requires
        value matches Some(inner) ==> inner.conforms(layout),
    ensures
        optional_encoding(value).len() == optional_size(value),
        optional_decoding(layout, optional_encoding(value) + rest) == Some((value, rest)),
{
    let bytes = optional_encoding(value) + rest;
    match value {
        Some(inner) => {
            lemma_size_is_exact(inner);
            lemma_decoding_inverts_encoding(inner, layout, rest);
            assert(bytes.skip(1) =~= inner.encoding() + rest);
        },
        None => {
            assert(bytes.skip(1) =~= rest);
        },
    }
}

/// Reads an optional whose inner layout is `layout` at the cursor of `stream`
/// and moves the cursor past it. The buffer is not changed.
///
/// Fails exactly when the buffer ends before the tag, or before the end of
/// the value that the tag announces.
pub fn lift_from_optional(layout: &PackedLayout, stream: &mut RustBufferStream) -> (r: Result<
    Option<Packed>,
    OutOfBounds,
>)
    ensures
        final(stream).bytes() == old(stream).bytes(),
        final(stream).position() >= old(stream).position(),
        match r {
            Ok(value) => optional_decoding(
                layout@,
                old(stream).bytes().skip(old(stream).position() as int),
            ) == Some(
                (optional_model(value), old(stream).bytes().skip(final(stream).position() as int)),
            ),
            Err(_) => optional_decoding(
                layout@,
                old(stream).bytes().skip(old(stream).position() as int),
            ) is None,
        },
{
    let ghost bytes = stream.bytes();
    let ghost start = stream.position() as int;
    proof {
        use_type_invariant(&*stream);
    }
    match stream.get_byte() {
        Ok(tag) => {
            proof {
                assert(bytes.skip(start)[0] == tag);
                assert(bytes.skip(start).skip(1) =~= bytes.skip(start + 1));
                lemma_decoding_consumes_size(layout@, bytes.skip(start + 1));
            }
            if tag == TAG_ABSENT {
                Ok(None)
            } else {
                match layout.lift_from(stream) {
                    Ok(inner) => Ok(Some(inner)),
                    Err(e) => Err(e),
                }
            }
        },
        Err(e) => Err(e),
    }
}

/// Lifts an optional whose inner layout is `layout` from the start of `rbuf`.
pub fn lift_optional(layout: &PackedLayout, rbuf: RustBuffer) -> (r: Result<
    Option<Packed>,
    OutOfBounds,
>)
    ensures
        match r {
            Ok(value) => optional_decoding(layout@, rbuf@) matches Some((inner, _))
                && inner == optional_model(value),
            Err(_) => optional_decoding(layout@, rbuf@) is None,
        },
{
    let mut stream = RustBufferStream::new(rbuf);
    proof {
        assert(rbuf@.skip(0) =~= rbuf@);
    }
    lift_from_optional(layout, &mut stream)
}

/// Lowers an optional into a buffer of its own, of exactly its size.
///
/// Gives `None` when the size does not fit a `usize`.
pub fn lower_optional(value: &Option<Packed>) -> (r: Option<RustBuffer>)
    ensures
        match r {
            Some(rbuf) => rbuf@ == optional_encoding(optional_model(*value)),
            None => optional_size(optional_model(*value)) > usize::MAX,
        },
{
    match value {
        None => {
            let mut stream = RustBufferStream::new(RustBuffer::allocate(1));
            match stream.put_byte(TAG_ABSENT) {
                Ok(()) => {
                    proof {
                        assert(stream.bytes() =~= seq![TAG_ABSENT]);
                    }
                    Some(stream.into_buffer())
                },
                Err(_) => None,
            }
        },
        Some(inner) => {
            let size = match inner.lowers_into_size() {
                Some(size) => size,
                None => {
                    return None;
                },
            };
            let total = match size.checked_add(1) {
                Some(total) => total,
                None => {
                    return None;
                },
            };
            let mut stream = RustBufferStream::new(RustBuffer::allocate(total));
            let ghost zeros = stream.bytes();
            proof {
                lemma_size_is_exact(inner@);
            }
            match stream.put_byte(TAG_PRESENT) {
                Ok(()) => {},
                Err(_) => {
                    return None;
                },
            }
            match inner.lower_into(&mut stream) {
                Ok(()) => {
                    proof {
                        assert(stream.bytes() =~= seq![TAG_PRESENT] + inner@.encoding());
                    }
                    Some(stream.into_buffer())
                },
                Err(_) => None,
            }
        },
    }
}

/// A value of one of the kinds that can be lowered and lifted. The two
/// floating-point kinds are held as their bit patterns, an enumeration as the
/// ordinal of its variant.
#[derive(Debug, PartialEq, Eq)]
pub enum Value {
    U32(u32),
    U64(u64),
    Float(u32),
    Double(u64),
    Boolean(bool),
    Enum(u32),
    Record(Record),
    Optional(Option<Packed>),
}

/// The mathematical model of a [`Value`].
pub enum ValueModel {
    U32(u32),
    U64(u64),
    Float(u32),
    Double(u64),
    Boolean(bool),
    Enum(u32),
    Record(Seq<PackedModel>),
    Optional(Option<PackedModel>),
}

/// The shape of a value of one of the kinds that can be lowered and lifted.
/// An enumeration is described by the number of its variants.
#[derive(Debug, PartialEq, Eq)]
pub enum Layout {
    U32,
    U64,
    Float,
    Double,
    Boolean,
    Enum(u32),
    Record(RecordLayout),
    Optional(PackedLayout),
}

/// The mathematical model of a [`Layout`].
pub enum LayoutModel {
    U32,
    U64,
    Float,
    Double,
    Boolean,
    Enum(u32),
    Record(Seq<PackedLayoutModel>),
    Optional(PackedLayoutModel),
}

/// What is handed to, or comes back from, a native entry point: a machine
/// scalar or a buffer.
#[derive(Debug, PartialEq, Eq)]
pub enum Lowered {
    U32(u32),
    U64(u64),
    Float(u32),
    Double(u64),
    Byte(u8),
    Buffer(RustBuffer),
}

/// The mathematical model of a [`Lowered`] value.
pub enum LoweredModel {
    U32(u32),
    U64(u64),
    Float(u32),
    Double(u64),
    Byte(u8),
    Buffer(Seq<u8>),
}

impl View for Value {
    type V = ValueModel;

    open spec fn view(&self) -> ValueModel {
        match self {
            Value::U32(x) => ValueModel::U32(*x),
            Value::U64(x) => ValueModel::U64(*x),
            Value::Float(bits) => ValueModel::Float(*bits),
            Value::Double(bits) => ValueModel::Double(*bits),
            Value::Boolean(b) => ValueModel::Boolean(*b),
            Value::Enum(ordinal) => ValueModel::Enum(*ordinal),
            Value::Record(record) => ValueModel::Record(record@),
            Value::Optional(inner) => ValueModel::Optional(optional_model(*inner)),
        }
    }
}

impl View for Layout {
    type V = LayoutModel;

    open spec fn view(&self) -> LayoutModel {
        match self {
            Layout::U32 => LayoutModel::U32,
            Layout::U64 => LayoutModel::U64,
            Layout::Float => LayoutModel::Float,
            Layout::Double => LayoutModel::Double,
            Layout::Boolean => LayoutModel::Boolean,
            Layout::Enum(variants) => LayoutModel::Enum(*variants),
            Layout::Record(layout) => LayoutModel::Record(layout@),
            Layout::Optional(inner) => LayoutModel::Optional(inner@),
        }
    }
}

impl View for Lowered {
    type V = LoweredModel;

    open spec fn view(&self) -> LoweredModel {
        match self {
            Lowered::U32(x) => LoweredModel::U32(*x),
            Lowered::U64(x) => LoweredModel::U64(*x),
            Lowered::Float(bits) => LoweredModel::Float(*bits),
            Lowered::Double(bits) => LoweredModel::Double(*bits),
            Lowered::Byte(b) => LoweredModel::Byte(*b),
            Lowered::Buffer(rbuf) => LoweredModel::Buffer(rbuf@),
        }
    }
}

impl LayoutModel {
    /// The native declaration type that carries a value of this layout.
    pub open spec fn declaration(self) -> DeclType {
        match self {
            LayoutModel::U32 => DeclType::UInt32,
            LayoutModel::U64 => DeclType::UInt64,
            LayoutModel::Float => DeclType::Float,
            LayoutModel::Double => DeclType::Double,
            LayoutModel::Boolean => DeclType::Byte,
            LayoutModel::Enum(_) => DeclType::UInt32,
            LayoutModel::Record(_) => DeclType::RustBuffer,
            LayoutModel::Optional(_) => DeclType::RustBuffer,
        }
    }

    /// The value that lifting gives for `lowered`; `None` when the buffer
    /// that carries it ends too early.
    pub open spec fn lifted(self, lowered: LoweredModel) -> Option<ValueModel> {
        match (self, lowered) {
            (LayoutModel::U32, LoweredModel::U32(x)) => Some(ValueModel::U32(x)),
            (LayoutModel::U64, LoweredModel::U64(x)) => Some(ValueModel::U64(x)),
            (LayoutModel::Float, LoweredModel::Float(bits)) => Some(ValueModel::Float(bits)),
            (LayoutModel::Double, LoweredModel::Double(bits)) => Some(ValueModel::Double(bits)),
            (LayoutModel::Boolean, LoweredModel::Byte(b)) => Some(ValueModel::Boolean(b != 0)),
            (LayoutModel::Enum(_), LoweredModel::U32(ordinal)) => Some(ValueModel::Enum(ordinal)),
            (LayoutModel::Record(shapes), LoweredModel::Buffer(bytes)) => match joint_decoding(
                shapes,
                bytes,
            ) {
                Some((fields, _)) => Some(ValueModel::Record(fields)),
                None => None,
            },
            (LayoutModel::Optional(inner), LoweredModel::Buffer(bytes)) => match optional_decoding(
                inner,
                bytes,
            ) {
                Some((value, _)) => Some(ValueModel::Optional(value)),
                None => None,
            },
            _ => None,
        }
    }
}

impl ValueModel {
    /// Whether this value has the shape that `layout` describes. The ordinal
    /// of an enumeration counts from one.
    pub open spec fn conforms(self, layout: LayoutModel) -> bool {
        match (self, layout) {
            (ValueModel::U32(_), LayoutModel::U32) => true,
            (ValueModel::U64(_), LayoutModel::U64) => true,
            (ValueModel::Float(_), LayoutModel::Float) => true,
            (ValueModel::Double(_), LayoutModel::Double) => true,
            (ValueModel::Boolean(_), LayoutModel::Boolean) => true,
            (ValueModel::Enum(ordinal), LayoutModel::Enum(variants)) => 1 <= ordinal <= variants,
            (ValueModel::Record(fields), LayoutModel::Record(shapes)) => all_conform(
                fields,
                shapes,
            ),
            (ValueModel::Optional(None), LayoutModel::Optional(_)) => true,
            (ValueModel::Optional(Some(inner)), LayoutModel::Optional(shape)) => inner.conforms(
                shape,
            ),
            _ => false,
        }
    }

    /// What lowering gives for this value.
    pub open spec fn lowered(self) -> LoweredModel {
        match self {
            ValueModel::U32(x) => LoweredModel::U32(x),
            ValueModel::U64(x) => LoweredModel::U64(x),
            ValueModel::Float(bits) => LoweredModel::Float(bits),
            ValueModel::Double(bits) => LoweredModel::Double(bits),
            ValueModel::Boolean(b) => LoweredModel::Byte(if b { 1 } else { 0 }),
            ValueModel::Enum(ordinal) => LoweredModel::U32(ordinal),
            ValueModel::Record(fields) => LoweredModel::Buffer(joint_encoding(fields)),
            ValueModel::Optional(inner) => LoweredModel::Buffer(optional_encoding(inner)),
        }
    }

    /// The length of the buffer that lowering needs for this value; zero for
    /// a value that crosses as a scalar.
    pub open spec fn buffer_size(self) -> nat {
        match self {
            ValueModel::Record(fields) => total_size(fields),
            ValueModel::Optional(inner) => optional_size(inner),
            _ => 0,
        }
    }
}

impl LoweredModel {
    /// The native declaration type of this value.
    pub open spec fn declaration(self) -> DeclType {
        match self {
            LoweredModel::U32(_) => DeclType::UInt32,
            LoweredModel::U64(_) => DeclType::UInt64,
            LoweredModel::Float(_) => DeclType::Float,
            LoweredModel::Double(_) => DeclType::Double,
            LoweredModel::Byte(_) => DeclType::Byte,
            LoweredModel::Buffer(_) => DeclType::RustBuffer,
        }
    }

    /// Whether this value can have come across the boundary for `layout`: it
    /// has the declaration type of the layout, and where the layout is an
    /// enumeration it is the ordinal of one of its variants.
    pub open spec fn fits(self, layout: LayoutModel) -> bool {
        &&& self.declaration() == layout.declaration()
        &&& layout matches LayoutModel::Enum(variants) ==> 1 <= self->U32_0 <= variants
    }
}

/// Lifting is the exact inverse of lowering: for every supported kind and
/// every value of it, what lowering gives is carried by the declaration type
/// of the kind, and lifting it gives the value back.
pub proof fn lemma_lift_inverts_lower(value: ValueModel, layout: LayoutModel)
    requires
        value.conforms(layout),
    ensures
        value.lowered().fits(layout),
        layout.lifted(value.lowered()) == Some(value),
{
    match (value, layout) {
        (ValueModel::Record(fields), LayoutModel::Record(shapes)) => {
            lemma_joint_decoding_inverts_encoding(fields, shapes, Seq::empty());
            assert(joint_encoding(fields) + Seq::<u8>::empty() =~= joint_encoding(fields));
        },
        (ValueModel::Optional(inner), LayoutModel::Optional(shape)) => {
            lemma_optional_decoding_inverts_encoding(inner, shape, Seq::empty());
            assert(optional_encoding(inner) + Seq::<u8>::empty() =~= optional_encoding(inner));
        },
        _ => {},
    }
}

/// The buffer that lowering allocates is exactly as long as the size pass says.
pub proof fn lemma_lowered_buffer_is_exact(value: ValueModel)
    ensures
        value.lowered() matches LoweredModel::Buffer(bytes) ==> bytes.len() == value.buffer_size(),
{
    match value {
        ValueModel::Record(fields) => {
            lemma_total_size_is_exact(fields);
        },
        ValueModel::Optional(Some(inner)) => {
            lemma_size_is_exact(inner);
        },
        _ => {},
    }
}

impl Value {
    /// Lowers this value: a scalar as it is, a boolean as one or zero, an
    /// enumeration as its ordinal, a record or an optional into a buffer of
    /// exactly its size.
    ///
    /// Gives `None` when the value needs a buffer whose size does not fit a `usize`.
    pub fn lower(&self) -> (r: Option<Lowered>)
        ensures
            match r {
                Some(lowered) => lowered@ == self@.lowered(),
                None => self@.buffer_size() > usize::MAX,
            },
    {
        match self {
            Value::U32(x) => Some(Lowered::U32(*x)),
            Value::U64(x) => Some(Lowered::U64(*x)),
            Value::Float(bits) => Some(Lowered::Float(*bits)),
            Value::Double(bits) => Some(Lowered::Double(*bits)),
            Value::Boolean(b) => Some(Lowered::Byte(if *b { 1 } else { 0 })),
            Value::Enum(ordinal) => Some(Lowered::U32(*ordinal)),
            Value::Record(record) => match record.lower() {
                Some(rbuf) => Some(Lowered::Buffer(rbuf)),
                None => None,
            },
            Value::Optional(inner) => match lower_optional(inner) {
                Some(rbuf) => Some(Lowered::Buffer(rbuf)),
                None => None,
            },
        }
    }
}

impl Lowered {
    /// The native declaration type of this value.
    pub fn declaration(&self) -> (r: DeclType)
        ensures
            r == self@.declaration(),
    {
        match self {
            Lowered::U32(_) => DeclType::UInt32,
            Lowered::U64(_) => DeclType::UInt64,
            Lowered::Float(_) => DeclType::Float,
            Lowered::Double(_) => DeclType::Double,
            Lowered::Byte(_) => DeclType::Byte,
            Lowered::Buffer(_) => DeclType::RustBuffer,
        }
    }

    /// Decides whether this value can have come across the boundary for `layout`.
    pub fn fits(&self, layout: &Layout) -> (r: bool)
        ensures
            r == self@.fits(layout@),
    {
        match (layout, self) {
            (Layout::U32, Lowered::U32(_)) => true,
            (Layout::U64, Lowered::U64(_)) => true,
            (Layout::Float, Lowered::Float(_)) => true,
            (Layout::Double, Lowered::Double(_)) => true,
            (Layout::Boolean, Lowered::Byte(_)) => true,
            (Layout::Enum(variants), Lowered::U32(ordinal)) => 1 <= *ordinal && *ordinal
                <= *variants,
            (Layout::Record(_), Lowered::Buffer(_)) => true,
            (Layout::Optional(_), Lowered::Buffer(_)) => true,
            _ => false,
        }
    }
}

impl Layout {
    /// The native declaration type that carries a value of this layout.
    pub fn declaration(&self) -> (r: DeclType)
        ensures
            r == self@.declaration(),
    {
        match self {
            Layout::U32 => DeclType::UInt32,
            Layout::U64 => DeclType::UInt64,
            Layout::Float => DeclType::Float,
            Layout::Double => DeclType::Double,
            Layout::Boolean => DeclType::Byte,
            Layout::Enum(_) => DeclType::UInt32,
            Layout::Record(_) => DeclType::RustBuffer,
            Layout::Optional(_) => DeclType::RustBuffer,
        }
    }

    /// Decides whether `value` has the shape that this layout describes.
    pub fn admits(&self, value: &Value) -> (r: bool)
        ensures
            r == value@.conforms(self@),
    {
        match (self, value) {
            (Layout::U32, Value::U32(_)) => true,
            (Layout::U64, Value::U64(_)) => true,
            (Layout::Float, Value::Float(_)) => true,
            (Layout::Double, Value::Double(_)) => true,
            (Layout::Boolean, Value::Boolean(_)) => true,
            (Layout::Enum(variants), Value::Enum(ordinal)) => 1 <= *ordinal && *ordinal
                <= *variants,
            (Layout::Record(layout), Value::Record(record)) => layout.admits(record),
            (Layout::Optional(_), Value::Optional(None)) => true,
            (Layout::Optional(shape), Value::Optional(Some(inner))) => shape.admits(inner),
            _ => false,
        }
    }

    /// Lifts `lowered` back into a value of this layout.
    ///
    /// Fails exactly when `lowered` is a buffer that ends before the value does.
    pub fn lift(&self, lowered: Lowered) -> (r: Result<Value, OutOfBounds>)
        requires
            lowered@.fits(self@),
        ensures
            match r {
                Ok(value) => self@.lifted(lowered@) == Some(value@),
                Err(_) => self@.lifted(lowered@) is None,
            },
    {
        match (self, lowered) {
            (Layout::U32, Lowered::U32(x)) => Ok(Value::U32(x)),
            (Layout::U64, Lowered::U64(x)) => Ok(Value::U64(x)),
            (Layout::Float, Lowered::Float(bits)) => Ok(Value::Float(bits)),
            (Layout::Double, Lowered::Double(bits)) => Ok(Value::Double(bits)),
            (Layout::Boolean, Lowered::Byte(b)) => Ok(Value::Boolean(b != 0)),
            (Layout::Enum(_), Lowered::U32(ordinal)) => Ok(Value::Enum(ordinal)),
            (Layout::Record(layout), Lowered::Buffer(rbuf)) => {
                match layout.lift(rbuf) {
                    Ok(record) => Ok(Value::Record(record)),
                    Err(e) => Err(e),
                }
            },
            (Layout::Optional(inner), Lowered::Buffer(rbuf)) => match lift_optional(inner, rbuf) {
                Ok(value) => Ok(Value::Optional(value)),
                Err(e) => Err(e),
            },
            _ => unreached(),
        }
    }
}

} // verus!
