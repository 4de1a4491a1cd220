//! The buffer codec: how values that do not fit a machine scalar are laid out
//! in a buffer, and how they are read back.
//!
//! A double is eight big-endian bytes. A record is its fields one after the
//! other in declared order, with no framing and no padding. Writing a record
//! takes two passes: the first computes the exact size of the buffer, the
//! second fills it. Reading takes one, since every field consumes exactly its
//! own bytes.

use crate::buffer::{
    be_bytes, be_value, lemma_be_bytes_of_value, lemma_be_value_of_bytes, overwritten, RustBuffer,
    RustBufferStream, DOUBLE_SIZE,
};
use crate::error::OutOfBounds;
use vstd::prelude::*;

verus! {

/// A record value: its fields in declared order.
#[derive(Debug, PartialEq, Eq)]
pub struct Record {
    pub fields: Vec<Packed>,
}

/// A value as it is stored inside a buffer. A double is held as its bit pattern.
#[derive(Debug, PartialEq, Eq)]
pub enum Packed {
    Double(u64),
    Record(Record),
}

/// The mathematical model of a [`Packed`] value. A record is modelled by the
/// sequence of its fields.
pub enum PackedModel {
    Double(u64),
    Record(Seq<PackedModel>),
}

/// The shape of a record: the layouts of its fields in declared order.
#[derive(Debug, PartialEq, Eq)]
pub struct RecordLayout {
    pub fields: Vec<PackedLayout>,
}

/// The shape of a value stored inside a buffer.
#[derive(Debug, PartialEq, Eq)]
pub enum PackedLayout {
    Double,
    Record(RecordLayout),
}

/// The mathematical model of a [`PackedLayout`].
pub enum PackedLayoutModel {
    Double,
    Record(Seq<PackedLayoutModel>),
}

impl Packed {
    /// The model of this value.
    pub open spec fn model(&self) -> PackedModel
        decreases self,
    {
        match self {
            Packed::Double(bits) => PackedModel::Double(*bits),
            Packed::Record(record) => PackedModel::Record(
                Seq::new(
                    record.fields@.len(),
                    |i: int|
                        if 0 <= i < record.fields@.len() {
                            record.fields@[i].model()
                        } else {
                            arbitrary()
                        },
                ),
            ),
        }
    }
}

impl View for Packed {
    type V = PackedModel;

    open spec fn view(&self) -> PackedModel {
        self.model()
    }
}

impl View for Record {
    type V = Seq<PackedModel>;

    open spec fn view(&self) -> Seq<PackedModel> {
        Seq::new(self.fields@.len(), |i: int| self.fields@[i]@)
    }
}

impl PackedLayout {
    /// The model of this layout.
    pub open spec fn model(&self) -> PackedLayoutModel
        decreases self,
    {
        match self {
            PackedLayout::Double => PackedLayoutModel::Double,
            PackedLayout::Record(record) => PackedLayoutModel::Record(
                Seq::new(
                    record.fields@.len(),
                    |i: int|
                        if 0 <= i < record.fields@.len() {
                            record.fields@[i].model()
                        } else {
                            arbitrary()
                        },
                ),
            ),
        }
    }
}

impl View for PackedLayout {
    type V = PackedLayoutModel;

    open spec fn view(&self) -> PackedLayoutModel {
        self.model()
    }
}

impl View for RecordLayout {
    type V = Seq<PackedLayoutModel>;

    open spec fn view(&self) -> Seq<PackedLayoutModel> {
        Seq::new(self.fields@.len(), |i: int| self.fields@[i]@)
    }
}

/// A record stored in a buffer is modelled by the model of the record.
pub proof fn lemma_record_model(record: Record)
    ensures
        Packed::Record(record)@ == PackedModel::Record(record@),
{
    assert(Packed::Record(record)@->Record_0 =~= record@);
}

/// A record layout inside a buffer is modelled by the model of the record layout.
pub proof fn lemma_record_layout_model(layout: RecordLayout)
    ensures
        PackedLayout::Record(layout)@ == PackedLayoutModel::Record(layout@),
{
    assert(PackedLayout::Record(layout)@->Record_0 =~= layout@);
}

impl PackedModel {
    /// The number of bytes that the size pass predicts for this value.
    pub open spec fn size(self) -> nat
        decreases self,
    {
        match self {
            PackedModel::Double(_) => 8,
            PackedModel::Record(fields) => total_size(fields),
        }
    }

    /// The bytes that the write pass produces for this value.
    pub open spec fn encoding(self) -> Seq<u8>
        decreases self,
    {
        match self {
            PackedModel::Double(bits) => be_bytes(bits),
            PackedModel::Record(fields) => joint_encoding(fields),
        }
    }

    /// Whether this value has the shape that `layout` describes.
    pub open spec fn conforms(self, layout: PackedLayoutModel) -> bool
        decreases self,
    {
        match (self, layout) {
            (PackedModel::Double(_), PackedLayoutModel::Double) => true,
            (PackedModel::Record(fields), PackedLayoutModel::Record(shapes)) => {
                &&& fields.len() == shapes.len()
                &&& forall|i: int|
                    0 <= i < fields.len() ==> (#[trigger] fields[i]).conforms(shapes[i])
            },
            _ => false,
        }
    }
}

/// Whether each of `fields` has the shape that `shapes` gives it.
pub open spec fn all_conform(fields: Seq<PackedModel>, shapes: Seq<PackedLayoutModel>) -> bool {
    PackedModel::Record(fields).conforms(PackedLayoutModel::Record(shapes))
}

/// The sizes of `fields`, added up.
pub open spec fn total_size(fields: Seq<PackedModel>) -> nat
    decreases fields,
{
    if fields.len() == 0 {
        0
    } else {
        total_size(fields.drop_last()) + fields.last().size()
    }
}

/// The encodings of `fields`, one after the other.
pub open spec fn joint_encoding(fields: Seq<PackedModel>) -> Seq<u8>
    decreases fields,
{
    if fields.len() == 0 {
        Seq::empty()
    } else {
        joint_encoding(fields.drop_last()) + fields.last().encoding()
    }
}

impl PackedLayoutModel {
    /// The number of bytes that every value of this layout takes.
    pub open spec fn size(self) -> nat
        decreases self,
    {
        match self {
            PackedLayoutModel::Double => 8,
            PackedLayoutModel::Record(shapes) => total_layout_size(shapes),
        }
    }

    /// The value of this layout that `bytes` starts with, and the bytes that
    /// follow it; `None` when `bytes` ends too early.
    pub open spec fn decoding(self, bytes: Seq<u8>) -> Option<(PackedModel, Seq<u8>)>
        decreases self,
    {
        match self {
            PackedLayoutModel::Double => if bytes.len() >= 8 {
                Some((PackedModel::Double(be_value(bytes.subrange(0, 8))), bytes.skip(8)))
            } else {
                None
            },
            PackedLayoutModel::Record(shapes) => match joint_decoding(shapes, bytes) {
                Some((fields, rest)) => Some((PackedModel::Record(fields), rest)),
                None => None,
            },
        }
    }
}

/// The sizes of `shapes`, added up.
pub open spec fn total_layout_size(shapes: Seq<PackedLayoutModel>) -> nat
    decreases shapes,
{
    if shapes.len() == 0 {
        0
    } else {
        total_layout_size(shapes.drop_last()) + shapes.last().size()
    }
}

/// The values of `shapes` that `bytes` starts with, read one after the other,
/// and the bytes that follow them.
pub open spec fn joint_decoding(shapes: Seq<PackedLayoutModel>, bytes: Seq<u8>) -> Option<
    (Seq<PackedModel>, Seq<u8>),
>
    decreases shapes,
{
    if shapes.len() == 0 {
        Some((Seq::empty(), bytes))
    } else {
        match joint_decoding(shapes.drop_last(), bytes) {
            Some((fields, rest)) => match shapes.last().decoding(rest) {
                Some((field, after)) => Some((fields.push(field), after)),
                None => None,
            },
            None => None,
        }
    }
}

/// The size pass is exact: it predicts the number of bytes that the write
/// pass produces, at every depth of nesting.
pub proof fn lemma_size_is_exact(value: PackedModel)
    ensures
        value.encoding().len() == value.size(),
    decreases value,
{
    match value {
        PackedModel::Double(bits) => {},
        PackedModel::Record(fields) => {
            lemma_total_size_is_exact(fields);
        },
    }
}

/// The size pass is exact for the fields of a record.
pub proof fn lemma_total_size_is_exact(fields: Seq<PackedModel>)
    ensures
        joint_encoding(fields).len() == total_size(fields),
    decreases fields,
{
    if fields.len() > 0 {
        lemma_total_size_is_exact(fields.drop_last());
        lemma_size_is_exact(fields.last());
    }
}

/// A value takes the number of bytes that its layout announces.
pub proof fn lemma_size_follows_layout(value: PackedModel, layout: PackedLayoutModel)
    requires
        value.conforms(layout),
    ensures
        value.size() == layout.size(),
    decreases value,
{
    match (value, layout) {
        (PackedModel::Record(fields), PackedLayoutModel::Record(shapes)) => {
            lemma_total_size_follows_layout(fields, shapes);
        },
        _ => {},
    }
}

/// The fields of a record take the number of bytes that their layouts announce.
pub proof fn lemma_total_size_follows_layout(
    fields: Seq<PackedModel>,
    shapes: Seq<PackedLayoutModel>,
)
    requires
        all_conform(fields, shapes),
    ensures
        total_size(fields) == total_layout_size(shapes),
    decreases fields,
{
    if fields.len() > 0 {
        assert(all_conform(fields.drop_last(), shapes.drop_last())) by {
            assert forall|i: int| 0 <= i < fields.drop_last().len() implies (
            #[trigger] fields.drop_last()[i]).conforms(shapes.drop_last()[i]) by {
                assert(fields[i].conforms(shapes[i]));
            }
        }
        lemma_total_size_follows_layout(fields.drop_last(), shapes.drop_last());
        assert(fields.last().conforms(shapes.last()));
        lemma_size_follows_layout(fields.last(), shapes.last());
    }
}

/// Decoding inverts encoding: what was written for a value is read back as
/// that value, and exactly the bytes that were written are consumed.
pub proof fn lemma_decoding_inverts_encoding(
    value: PackedModel,
    layout: PackedLayoutModel,
    rest: Seq<u8>,
)
    requires
        value.conforms(layout),
    ensures
        layout.decoding(value.encoding() + rest) == Some((value, rest)),
    decreases value,
{
    match (value, layout) {
        (PackedModel::Double(bits), PackedLayoutModel::Double) => {
            let bytes = be_bytes(bits) + rest;
            lemma_be_value_of_bytes(bits);
            assert(bytes.subrange(0, 8) =~= be_bytes(bits));
            assert(bytes.skip(8) =~= rest);
        },
        (PackedModel::Record(fields), PackedLayoutModel::Record(shapes)) => {
            lemma_joint_decoding_inverts_encoding(fields, shapes, rest);
        },
        _ => {},
    }
}

/// Decoding inverts encoding for the fields of a record.
pub proof fn lemma_joint_decoding_inverts_encoding(
    fields: Seq<PackedModel>,
    shapes: Seq<PackedLayoutModel>,
    rest: Seq<u8>,
)
    requires
        all_conform(fields, shapes),
    ensures
        joint_decoding(shapes, joint_encoding(fields) + rest) == Some((fields, rest)),
    decreases fields,
{
    if fields.len() == 0 {
        assert(joint_encoding(fields) + rest =~= rest);
        assert(fields =~= Seq::<PackedModel>::empty());
    } else {
        let front = fields.drop_last();
        let tail = fields.last().encoding() + rest;
        assert(joint_encoding(fields) + rest =~= joint_encoding(front) + tail);
        assert(all_conform(front, shapes.drop_last())) by {
            assert forall|i: int| 0 <= i < front.len() implies (#[trigger] front[i]).conforms(
                shapes.drop_last()[i],
            ) by {
                assert(fields[i].conforms(shapes[i]));
            }
        }
        lemma_joint_decoding_inverts_encoding(front, shapes.drop_last(), tail);
        assert(fields.last().conforms(shapes.last()));
        lemma_decoding_inverts_encoding(fields.last(), shapes.last(), rest);
        assert(front.push(fields.last()) =~= fields);
    }
}

/// Decoding needs exactly the bytes that the layout announces: it succeeds
/// when that many are there, consumes that many, and gives a value of the layout.
pub proof fn lemma_decoding_consumes_size(layout: PackedLayoutModel, bytes: Seq<u8>)
    ensures
        match layout.decoding(bytes) {
            Some((value, rest)) => {
                &&& layout.size() <= bytes.len()
                &&& value.conforms(layout)
                &&& rest == bytes.skip(layout.size() as int)
            },
            None => bytes.len() < layout.size(),
        },
    decreases layout,
{
    match layout {
        PackedLayoutModel::Double => {},
        PackedLayoutModel::Record(shapes) => {
            lemma_joint_decoding_consumes_size(shapes, bytes);
        },
    }
}

/// Decoding the fields of a record needs exactly the bytes that their layouts announce.
pub proof fn lemma_joint_decoding_consumes_size(shapes: Seq<PackedLayoutModel>, bytes: Seq<u8>)
    ensures
        match joint_decoding(shapes, bytes) {
            Some((fields, rest)) => {
                &&& total_layout_size(shapes) <= bytes.len()
                &&& all_conform(fields, shapes)
                &&& rest == bytes.skip(total_layout_size(shapes) as int)
            },
            None => bytes.len() < total_layout_size(shapes),
        },
    decreases shapes,
{
    if shapes.len() == 0 {
        assert(bytes.skip(0) =~= bytes);
    } else {
        let front = shapes.drop_last();
        lemma_joint_decoding_consumes_size(front, bytes);
        match joint_decoding(front, bytes) {
            Some((fields, rest)) => {
                lemma_decoding_consumes_size(shapes.last(), rest);
                match shapes.last().decoding(rest) {
                    Some((field, after)) => {
                        assert(after =~= bytes.skip(total_layout_size(shapes) as int));
                        let all = fields.push(field);
                        assert forall|i: int| 0 <= i < all.len() implies (
                        #[trigger] all[i]).conforms(shapes[i]) by {
                            if i < fields.len() {
                                assert(all[i] == fields[i]);
                                assert(fields[i].conforms(front[i]));
                            }
                        }
                    },
                    None => {},
                }
            },
            None => {},
        }
    }
}

/// Encoding inverts decoding: writing the value that was read from some
/// bytes gives back the bytes that were consumed.
pub proof fn lemma_encoding_inverts_decoding(layout: PackedLayoutModel, bytes: Seq<u8>)
    requires
        layout.decoding(bytes) is Some,
    ensures
        layout.decoding(bytes)->Some_0.0.encoding() + layout.decoding(bytes)->Some_0.1 == bytes,
    decreases layout,
{
    match layout {
        PackedLayoutModel::Double => {
            lemma_be_bytes_of_value(bytes.subrange(0, 8));
            assert(bytes.subrange(0, 8) + bytes.skip(8) =~= bytes);
        },
        PackedLayoutModel::Record(shapes) => {
            lemma_joint_encoding_inverts_decoding(shapes, bytes);
        },
    }
}

/// Encoding inverts decoding for the fields of a record.
pub proof fn lemma_joint_encoding_inverts_decoding(shapes: Seq<PackedLayoutModel>, bytes: Seq<u8>)
    requires
        joint_decoding(shapes, bytes) is Some,
    ensures
        joint_encoding(joint_decoding(shapes, bytes)->Some_0.0) + joint_decoding(
            shapes,
            bytes,
        )->Some_0.1 == bytes,
    decreases shapes,
{
    if shapes.len() == 0 {
        assert(Seq::<u8>::empty() + bytes =~= bytes);
    } else {
        let (front, rest) = joint_decoding(shapes.drop_last(), bytes)->Some_0;
        let (last, after) = shapes.last().decoding(rest)->Some_0;
        lemma_joint_encoding_inverts_decoding(shapes.drop_last(), bytes);
        lemma_encoding_inverts_decoding(shapes.last(), rest);
        let fields = front.push(last);
        assert(fields.drop_last() =~= front);
        assert(joint_encoding(fields) + after =~= joint_encoding(front) + (last.encoding()
            + after));
    }
}

/// The first fields of a record take no more bytes than all of them.
proof fn lemma_total_size_grows(fields: Seq<PackedModel>, count: int)
    requires
        0 <= count <= fields.len(),
    ensures
        total_size(fields.take(count)) <= total_size(fields),
    decreases fields,
{
    if count == fields.len() {
        assert(fields.take(count) =~= fields);
    } else {
        assert(fields.drop_last().take(count) =~= fields.take(count));
        lemma_total_size_grows(fields.drop_last(), count);
    }
}

/// One more field adds its own size and its own bytes.
proof fn lemma_next_field(fields: Seq<PackedModel>, count: int)
    requires
        0 <= count < fields.len(),
    ensures
        total_size(fields.take(count + 1)) == total_size(fields.take(count)) + fields[count].size(),
        joint_encoding(fields.take(count + 1)) == joint_encoding(fields.take(count))
            + fields[count].encoding(),
{
    assert(fields.take(count + 1).drop_last() =~= fields.take(count));
    assert(fields.take(count + 1).last() == fields[count]);
}

/// One more layout reads one more field behind those already read.
proof fn lemma_next_layout(shapes: Seq<PackedLayoutModel>, count: int, bytes: Seq<u8>)
    requires
        0 <= count < shapes.len(),
    ensures
        joint_decoding(shapes.take(count + 1), bytes) == match joint_decoding(
            shapes.take(count),
            bytes,
        ) {
            Some((fields, rest)) => match shapes[count].decoding(rest) {
                Some((field, after)) => Some((fields.push(field), after)),
                None => None,
            },
            None => None,
        },
        total_layout_size(shapes.take(count + 1)) == total_layout_size(shapes.take(count))
            + shapes[count].size(),
{
    assert(shapes.take(count + 1).drop_last() =~= shapes.take(count));
    assert(shapes.take(count + 1).last() == shapes[count]);
}

/// The first layouts of a record announce no more bytes than all of them.
proof fn lemma_total_layout_size_grows(shapes: Seq<PackedLayoutModel>, count: int)
    requires
        0 <= count <= shapes.len(),
    ensures
        total_layout_size(shapes.take(count)) <= total_layout_size(shapes),
    decreases shapes,
{
    if count == shapes.len() {
        assert(shapes.take(count) =~= shapes);
    } else {
        assert(shapes.drop_last().take(count) =~= shapes.take(count));
        lemma_total_layout_size_grows(shapes.drop_last(), count);
    }
}

/// Writing one stretch directly behind another is writing the two as one.
proof fn lemma_overwritten_twice(bytes: Seq<u8>, at: int, first: Seq<u8>, second: Seq<u8>)
    requires
        0 <= at,
        at + first.len() + second.len() <= bytes.len(),
    ensures
        overwritten(overwritten(bytes, at, first), at + first.len(), second) == overwritten(
            bytes,
            at,
            first + second,
        ),
{
    assert(overwritten(overwritten(bytes, at, first), at + first.len(), second) =~= overwritten(
        bytes,
        at,
        first + second,
    ));
}

impl Packed {
    /// The size pass: the exact number of bytes that [`Packed::lower_into`]
    /// writes for this value, or `None` when that number does not fit a `usize`.
    pub fn lowers_into_size(&self) -> (r: Option<usize>)
        ensures
            match r {
                Some(n) => n == self@.size(),
                None => self@.size() > usize::MAX,
            },
        decreases self, 0nat,
    {
        match self {
            Packed::Double(_) => Some(DOUBLE_SIZE),
            Packed::Record(record) => {
                proof {
                    lemma_record_model(*record);
                }
                record.lowers_into_size()
            },
        }
    }

    /// The write pass: writes this value at the cursor of `stream` and moves
    /// the cursor past it.
    ///
    /// Succeeds exactly when the buffer has room for the whole value. When it
    /// fails, writing has stopped at the first double that did not fit: the
    /// cursor stands in front of it, and nothing before the old cursor or
    /// behind the new one has changed.
    pub fn lower_into(&self, stream: &mut RustBufferStream) -> (r: Result<(), OutOfBounds>)
        ensures
            final(stream).bytes().len() == old(stream).bytes().len(),
            final(stream).position() >= old(stream).position(),
            final(stream).bytes().take(old(stream).position() as int) == old(stream).bytes().take(
                old(stream).position() as int,
            ),
            r is Ok <==> old(stream).has_room(self@.size()),
            r is Ok ==> final(stream).bytes() == overwritten(
                old(stream).bytes(),
                old(stream).position() as int,
                self@.encoding(),
            ),
            r is Ok ==> final(stream).position() == old(stream).position() + self@.size(),
            r is Err ==> final(stream).bytes().skip(final(stream).position() as int) == old(
                stream,
            ).bytes().skip(final(stream).position() as int),
            r is Err ==> !final(stream).has_room(8),
        decreases self, 0nat,
    {
        proof {
            use_type_invariant(&*stream);
            lemma_size_is_exact(self@);
        }
        match self {
            Packed::Double(bits) => {
                let r = stream.put_double(*bits);
                proof {
                    let at = old(stream).position() as int;
                    assert(stream.bytes().take(at) =~= old(stream).bytes().take(at));
                }
                r
            },
            Packed::Record(record) => {
                proof {
                    lemma_record_model(*record);
                }
                record.lower_into(stream)
            },
        }
    }
}

impl Record {
    /// The size pass: the exact number of bytes that [`Record::lower_into`]
    /// writes for this record, or `None` when that number does not fit a `usize`.
    pub fn lowers_into_size(&self) -> (r: Option<usize>)
        ensures
            match r {
                Some(n) => n == total_size(self@),
                None => total_size(self@) > usize::MAX,
            },
        decreases self, 1nat,
    {
        let mut total: usize = 0;
        let mut i: usize = 0;
        while i < self.fields.len()
            invariant
                i <= self.fields.len(),
                total == total_size(self@.take(i as int)),
            decreases self.fields.len() - i,
        {
            proof {
                lemma_next_field(self@, i as int);
                lemma_total_size_grows(self@, i + 1);
            }
            let size = match self.fields[i].lowers_into_size() {
                Some(size) => size,
                None => {
                    return None;
                },
            };
            total = match total.checked_add(size) {
                Some(sum) => sum,
                None => {
                    return None;
                },
            };
            i += 1;
        }
        proof {
            assert(self@.take(i as int) =~= self@);
        }
        Some(total)
    }

    /// The write pass: writes the fields of this record, in declared order,
    /// at the cursor of `stream` and moves the cursor past them.
    ///
    /// Succeeds exactly when the buffer has room for the whole record. When it
    /// fails, writing has stopped at the first double that did not fit: the
    /// cursor stands in front of it, and nothing before the old cursor or
    /// behind the new one has changed.
    pub fn lower_into(&self, stream: &mut RustBufferStream) -> (r: Result<(), OutOfBounds>)
        ensures
            final(stream).bytes().len() == old(stream).bytes().len(),
            final(stream).position() >= old(stream).position(),
            final(stream).bytes().take(old(stream).position() as int) == old(stream).bytes().take(
                old(stream).position() as int,
            ),
            r is Ok <==> old(stream).has_room(total_size(self@)),
            r is Ok ==> final(stream).bytes() == overwritten(
                old(stream).bytes(),
                old(stream).position() as int,
                joint_encoding(self@),
            ),
            r is Ok ==> final(stream).position() == old(stream).position() + total_size(self@),
            r is Err ==> final(stream).bytes().skip(final(stream).position() as int) == old(
                stream,
            ).bytes().skip(final(stream).position() as int),
            r is Err ==> !final(stream).has_room(8),
        decreases self, 1nat,
    {
        proof {
            use_type_invariant(&*stream);
        }
        let ghost start = stream.position() as int;
        let mut i: usize = 0;
        proof {
            assert(stream.bytes() =~= overwritten(
                old(stream).bytes(),
                start,
                joint_encoding(self@.take(0)),
            ));
        }
        while i < self.fields.len()
            invariant
                i <= self.fields.len(),
                start == old(stream).position(),
                stream.bytes().len() == old(stream).bytes().len(),
                start + total_size(self@.take(i as int)) <= stream.bytes().len(),
                stream.position() == start + total_size(self@.take(i as int)),
                stream.bytes() == overwritten(
                    old(stream).bytes(),
                    start,
                    joint_encoding(self@.take(i as int)),
                ),
            decreases self.fields.len() - i,
        {
            proof {
                lemma_next_field(self@, i as int);
                lemma_total_size_grows(self@, i + 1);
                lemma_total_size_is_exact(self@.take(i as int));
                lemma_size_is_exact(self@[i as int]);
            }
            let ghost before = stream.bytes();
            let ghost here = stream.position() as int;
            match self.fields[i].lower_into(stream) {
                Ok(()) => {
                    proof {
                        lemma_overwritten_twice(
                            old(stream).bytes(),
                            start,
                            joint_encoding(self@.take(i as int)),
                            self@[i as int].encoding(),
                        );
                    }
                },
                Err(e) => {
                    proof {
                        assert(stream.bytes().take(start) =~= stream.bytes().take(here).take(
                            start,
                        ));
                        assert(before.take(start) =~= before.take(here).take(start));
                        assert(before.take(start) =~= old(stream).bytes().take(start));
                        use_type_invariant(&*stream);
                        let end = stream.position() as int;
                        assert(before.len() == old(stream).bytes().len());
                        assert(joint_encoding(self@.take(i as int)).len() == here - start);
                        assert forall|k: int| end <= k < before.len() implies before[k] == old(
                            stream,
                        ).bytes()[k] by {}
                        assert(before.skip(end) =~= old(stream).bytes().skip(end));
                    }
                    return Err(e);
                },
            }
            i += 1;
        }
        proof {
            assert(self@.take(i as int) =~= self@);
            lemma_total_size_is_exact(self@);
            assert(stream.bytes().take(start) =~= old(stream).bytes().take(start));
        }
        Ok(())
    }

    /// Lowers this record into a buffer of its own: the size pass, one
    /// allocation of exactly that size, and the write pass.
    ///
    /// Gives `None` when the size does not fit a `usize`.
    pub fn lower(&self) -> (r: Option<RustBuffer>)
        ensures
            match r {
                Some(rbuf) => rbuf@ == joint_encoding(self@),
                None => total_size(self@) > usize::MAX,
            },
    {
        let size = match self.lowers_into_size() {
            Some(size) => size,
            None => {
                return None;
            },
        };
        let mut stream = RustBufferStream::new(RustBuffer::allocate(size));
        let ghost zeros = stream.bytes();
        proof {
            lemma_total_size_is_exact(self@);
            assert(overwritten(zeros, 0, joint_encoding(self@)) =~= joint_encoding(self@));
        }
        match self.lower_into(&mut stream) {
            Ok(()) => Some(stream.into_buffer()),
            Err(_) => None,
        }
    }
}

impl PackedLayout {
    /// Reads a value of this layout at the cursor of `stream` and moves the
    /// cursor past it. The buffer is not changed.
    ///
    /// Succeeds exactly when the buffer holds as many bytes behind the cursor
    /// as the layout announces. When it fails the cursor stands in front of
    /// the first double that did not fit.
    pub fn lift_from(&self, stream: &mut RustBufferStream) -> (r: Result<Packed, OutOfBounds>)
        ensures
            final(stream).bytes() == old(stream).bytes(),
            final(stream).position() >= old(stream).position(),
            r is Ok <==> old(stream).has_room(self@.size()),
            match r {
                Ok(value) => {
                    &&& self@.decoding(old(stream).bytes().skip(old(stream).position() as int))
                        == Some(
                        (value@, old(stream).bytes().skip(final(stream).position() as int)),
                    )
                    &&& final(stream).position() == old(stream).position() + self@.size()
                },
                Err(_) => !final(stream).has_room(8),
            },
        decreases self, 0nat,
    {
        proof {
            use_type_invariant(&*stream);
        }
        let ghost bytes = stream.bytes();
        let ghost start = stream.position() as int;
        match self {
            PackedLayout::Double => {
                match stream.get_double() {
                    Ok(bits) => {
                        proof {
                            assert(bytes.skip(start).subrange(0, 8) =~= bytes.subrange(
                                start,
                                start + 8,
                            ));
                            assert(bytes.skip(start).skip(8) =~= bytes.skip(start + 8));
                        }
                        Ok(Packed::Double(bits))
                    },
                    Err(e) => Err(e),
                }
            },
            PackedLayout::Record(layout) => {
                proof {
                    lemma_record_layout_model(*layout);
                }
                match layout.lift_from(stream) {
                    Ok(record) => {
                        proof {
                            lemma_record_model(record);
                        }
                        Ok(Packed::Record(record))
                    },
                    Err(e) => Err(e),
                }
            },
        }
    }
}

impl RecordLayout {
    /// Reads the fields of a record of this layout, in declared order, at the
    /// cursor of `stream` and moves the cursor past them. The buffer is not
    /// changed.
    ///
    /// Succeeds exactly when the buffer holds as many bytes behind the cursor
    /// as the layout announces. When it fails the cursor stands in front of
    /// the first double that did not fit.
    pub fn lift_from(&self, stream: &mut RustBufferStream) -> (r: Result<Record, OutOfBounds>)
        ensures
            final(stream).bytes() == old(stream).bytes(),
            final(stream).position() >= old(stream).position(),
            r is Ok <==> old(stream).has_room(total_layout_size(self@)),
            match r {
                Ok(record) => {
                    &&& joint_decoding(
                        self@,
                        old(stream).bytes().skip(old(stream).position() as int),
                    ) == Some((record@, old(stream).bytes().skip(final(stream).position() as int)))
                    &&& final(stream).position() == old(stream).position() + total_layout_size(
                        self@,
                    )
                },
                Err(_) => !final(stream).has_room(8),
            },
        decreases self, 1nat,
    {
        proof {
            use_type_invariant(&*stream);
        }
        let ghost bytes = stream.bytes();
        let ghost start = stream.position() as int;
        let mut record = Record { fields: Vec::new() };
        let mut i: usize = 0;
        proof {
            assert(record@ =~= Seq::<PackedModel>::empty());
            assert(bytes.skip(start) =~= bytes.skip(start + 0));
        }
        while i < self.fields.len()
            invariant
                i <= self.fields.len(),
                bytes == old(stream).bytes(),
                start == old(stream).position(),
                stream.bytes() == bytes,
                stream.position() == start + total_layout_size(self@.take(i as int)),
                stream.position() <= bytes.len(),
                joint_decoding(self@.take(i as int), bytes.skip(start)) == Some(
                    (record@, bytes.skip(stream.position() as int)),
                ),
            decreases self.fields.len() - i,
        {
            proof {
                lemma_next_layout(self@, i as int, bytes.skip(start));
                lemma_total_layout_size_grows(self@, i + 1);
            }
            let ghost read = record@;
            match self.fields[i].lift_from(stream) {
                Ok(field) => {
                    record.fields.push(field);
                    proof {
                        assert(record@ =~= read.push(field@));
                    }
                },
                Err(e) => {
                    return Err(e);
                },
            }
            i += 1;
        }
        proof {
            assert(self@.take(i as int) =~= self@);
        }
        Ok(record)
    }

    /// Lifts a record of this layout from the start of `rbuf`.
    ///
    /// Succeeds exactly when the buffer is as long as the layout announces,
    /// or longer; bytes behind the record are not looked at.
    pub fn lift(&self, rbuf: RustBuffer) -> (r: Result<Record, OutOfBounds>)
        ensures
            match r {
                Ok(record) => joint_decoding(self@, rbuf@) == Some(
                    (record@, rbuf@.skip(total_layout_size(self@) as int)),
                ),
                Err(_) => rbuf@.len() < total_layout_size(self@) && joint_decoding(
                    self@,
                    rbuf@,
                ) is None,
            },
    {
        let mut stream = RustBufferStream::new(rbuf);
        proof {
            assert(rbuf@.skip(0) =~= rbuf@);
            lemma_joint_decoding_consumes_size(self@, rbuf@);
        }
        self.lift_from(&mut stream)
    }
}

impl PackedLayout {
    /// Decides whether `value` has the shape that this layout describes.
    pub fn admits(&self, value: &Packed) -> (r: bool)
        ensures
            r == value@.conforms(self@),
        decreases value, 0nat,
    {
        match (self, value) {
            (PackedLayout::Double, Packed::Double(_)) => true,
            (PackedLayout::Record(layout), Packed::Record(record)) => {
                proof {
                    lemma_record_layout_model(*layout);
                    lemma_record_model(*record);
                }
                layout.admits(record)
            },
            _ => false,
        }
    }
}

impl RecordLayout {
    /// Decides whether the fields of `record` are as many as this layout has
    /// and each has the shape that the layout gives it.
    pub fn admits(&self, record: &Record) -> (r: bool)
        ensures
            r == all_conform(record@, self@),
        decreases record, 1nat,
    {
        if self.fields.len() != record.fields.len() {
            return false;
        }
        let mut i: usize = 0;
        while i < self.fields.len()
            invariant
                i <= self.fields.len(),
                self.fields.len() == record.fields.len(),
                forall|j: int| 0 <= j < i ==> (#[trigger] record@[j]).conforms(self@[j]),
            decreases self.fields.len() - i,
        {
            if !self.fields[i].admits(&record.fields[i]) {
                proof {
                    assert(!record@[i as int].conforms(self@[i as int]));
                }
                return false;
            }
            i += 1;
        }
        true
    }
}

} // verus!
