//! Tag structures described by data: a layout says how large a record is
//! and which fields stand at which offsets, and records are read by
//! following the layout.
use crate::common::endian::{u16_at, u32_at, u64_at};
use crate::common::errors::{eof, Error, ReadFailure, Result, TagError};
use crate::common::extensions::{fixed_string, ByteReader};
use crate::module::file::ModuleFileEntry;
use crate::tag::loader::{first_index, roots_block, roots_resource, TagFile, TagFileView};
use crate::tag::types::common_types::{
    AnyTag, FieldARGBColor, FieldAngle, FieldAngleBounds, FieldByteBlockFlags, FieldByteInteger,
    FieldCharBlockIndex, FieldCharInteger, FieldCustomCharBlockIndex, FieldCustomLongBlockIndex,
    FieldCustomShortBlockIndex, FieldData, FieldDwordInteger, FieldInt64Integer,
    FieldLongBlockFlags, FieldLongBlockIndex, FieldLongInteger, FieldLongString, FieldPoint2D,
    FieldQwordInteger, FieldRGBColor, FieldReal, FieldRealAHSVColor, FieldRealARGBColor,
    FieldRealBounds, FieldRealEularAngles3D, FieldRealEulerAngles2D, FieldRealFraction,
    FieldRealFractionBounds, FieldRealHSVColor, FieldRealPlane2D, FieldRealPlane3D,
    FieldRealPoint2D, FieldRealPoint3D, FieldRealQuaternion, FieldRealRGBColor, FieldRealVector2D,
    FieldRealVector3D, FieldRectangle2D, FieldReference, FieldShortBlockIndex, FieldShortBounds,
    FieldShortInteger, FieldString, FieldStringId, FieldWordBlockFlags, FieldWordInteger,
};
use vstd::prelude::*;

verus! {

/// The kind of a field: what it holds and how many bytes it takes.
#[derive(Debug)]
pub enum FieldKind {
    /// A string of 32 bytes.
    String,
    /// A string of 256 bytes.
    LongString,
    /// A string id, 4 bytes.
    StringId,
    /// A signed integer of 1 byte.
    CharInteger,
    /// A signed integer of 2 bytes.
    ShortInteger,
    /// A signed integer of 4 bytes.
    LongInteger,
    /// A signed integer of 8 bytes.
    Int64Integer,
    /// An angle, 4 bytes.
    Angle,
    /// An enum of eight bits.
    CharEnum,
    /// An enum of sixteen bits.
    ShortEnum,
    /// An enum of 32 bits.
    LongEnum,
    /// Flags of 32 bits.
    LongFlags,
    /// Flags of sixteen bits.
    WordFlags,
    /// Flags of eight bits.
    ByteFlags,
    /// A point in 2D, 4 bytes.
    Point2D,
    /// A rectangle in 2D, 4 bytes.
    Rectangle2D,
    /// A color, 4 bytes.
    RGBColor,
    /// A color with alpha, 4 bytes.
    ARGBColor,
    /// A real number, 4 bytes.
    Real,
    /// A real fraction, 4 bytes.
    RealFraction,
    /// A real point in 2D, 8 bytes.
    RealPoint2D,
    /// A real point in 3D, 12 bytes.
    RealPoint3D,
    /// A real vector in 2D, 8 bytes.
    RealVector2D,
    /// A real vector in 3D, 12 bytes.
    RealVector3D,
    /// A quaternion, 16 bytes.
    RealQuaternion,
    /// Euler angles in 2D, 8 bytes.
    RealEulerAngles2D,
    /// Euler angles in 3D, 12 bytes.
    RealEularAngles3D,
    /// A plane in 2D, 12 bytes.
    RealPlane2D,
    /// A plane in 3D, 16 bytes.
    RealPlane3D,
    /// A real color, 12 bytes.
    RealRGBColor,
    /// A real color with alpha, 16 bytes.
    RealARGBColor,
    /// A real HSV color, 4 bytes.
    RealHSVColor,
    /// A real AHSV color, 4 bytes.
    RealAHSVColor,
    /// Bounds of two shorts, 4 bytes.
    ShortBounds,
    /// Bounds of two angles, 8 bytes.
    AngleBounds,
    /// Bounds of two real numbers, 8 bytes.
    RealBounds,
    /// Bounds of two real fractions, 8 bytes.
    RealFractionBounds,
    /// Long block flags, 4 bytes.
    LongBlockFlags,
    /// Word block flags, 4 bytes.
    WordBlockFlags,
    /// Byte block flags, 4 bytes.
    ByteBlockFlags,
    /// A char block index, 1 byte.
    CharBlockIndex,
    /// A custom char block index, 1 byte.
    CustomCharBlockIndex,
    /// A short block index, 2 bytes.
    ShortBlockIndex,
    /// A custom short block index, 2 bytes.
    CustomShortBlockIndex,
    /// A long block index, 4 bytes.
    LongBlockIndex,
    /// A custom long block index, 4 bytes.
    CustomLongBlockIndex,
    /// Bytes that are passed over, as many as the number says.
    Pad(u8),
    /// An unsigned integer of 1 byte.
    ByteInteger,
    /// An unsigned integer of 2 bytes.
    WordInteger,
    /// An unsigned integer of 4 bytes.
    DwordInteger,
    /// An unsigned integer of 8 bytes.
    QwordInteger,
    /// Records that follow one another inside the record, as many as the
    /// number says, each with the layout given.
    Array(Layout, u64),
    /// Records that lie in a datablock of their own, each with the layout
    /// given; the head takes 20 bytes.
    Block(Layout),
    /// A reference to another tag, 28 bytes.
    Reference,
    /// Bytes that lie in a datablock of their own; the head takes 24 bytes.
    Data,
    /// A resource with the layout given that lies in a datablock of its
    /// own; the head takes 16 bytes.
    TagResource(Layout),
    /// The id and handle of the tag itself, 16 bytes.
    AnyTag,
}

/// One field of a layout.
#[derive(Debug)]
pub struct FieldDecl {
    /// The name of the field.
    pub name: String,
    /// Where the field starts, counted from the start of the record.
    pub offset: u64,
    /// What the field holds.
    pub kind: FieldKind,
}

/// The layout of a tag structure: the size of a record and its fields in
/// the order in which they are read. Bytes of the record that no field
/// covers are passed over.
#[derive(Debug)]
pub struct Layout {
    /// The size of a record in bytes.
    pub size: u64,
    /// The fields of a record.
    pub fields: Vec<FieldDecl>,
}

/// The head of a block field and the records of the block.
#[derive(Debug)]
pub struct RecordBlock {
    /// Where the field stands in the tag data.
    pub field_offset: u64,
    /// A pointer at runtime.
    pub type_info: u64,
    /// A pointer at runtime.
    pub unknown: u64,
    /// The number of elements.
    pub size: u32,
    /// The elements, once they are loaded.
    pub elements: Vec<Record>,
}

/// The head of a resource field and the resource.
#[derive(Debug)]
pub struct RecordResource {
    /// A pointer at runtime.
    pub block: u64,
    /// Handle of the resource at runtime.
    pub handle: u32,
    /// Index of the resource.
    pub resource_index: u32,
    /// The resource, once it is loaded; a record without values before.
    pub data: Record,
}

/// What a field holds.
#[derive(Debug)]
pub enum FieldValue {
    String(FieldString),
    LongString(FieldLongString),
    StringId(FieldStringId),
    CharInteger(FieldCharInteger),
    ShortInteger(FieldShortInteger),
    LongInteger(FieldLongInteger),
    Int64Integer(FieldInt64Integer),
    Angle(FieldAngle),
    /// An enum of eight bits, as the number that is stored.
    CharEnum(u8),
    /// An enum of sixteen bits, as the number that is stored.
    ShortEnum(u16),
    /// An enum of 32 bits, as the number that is stored.
    LongEnum(u32),
    /// Flags of 32 bits, as the bits that are stored.
    LongFlags(u32),
    /// Flags of sixteen bits, as the bits that are stored.
    WordFlags(u16),
    /// Flags of eight bits, as the bits that are stored.
    ByteFlags(u8),
    Point2D(FieldPoint2D),
    Rectangle2D(FieldRectangle2D),
    RGBColor(FieldRGBColor),
    ARGBColor(FieldARGBColor),
    Real(FieldReal),
    RealFraction(FieldRealFraction),
    RealPoint2D(FieldRealPoint2D),
    RealPoint3D(FieldRealPoint3D),
    RealVector2D(FieldRealVector2D),
    RealVector3D(FieldRealVector3D),
    RealQuaternion(FieldRealQuaternion),
    RealEulerAngles2D(FieldRealEulerAngles2D),
    RealEularAngles3D(FieldRealEularAngles3D),
    RealPlane2D(FieldRealPlane2D),
    RealPlane3D(FieldRealPlane3D),
    RealRGBColor(FieldRealRGBColor),
    RealARGBColor(FieldRealARGBColor),
    RealHSVColor(FieldRealHSVColor),
    RealAHSVColor(FieldRealAHSVColor),
    ShortBounds(FieldShortBounds),
    AngleBounds(FieldAngleBounds),
    RealBounds(FieldRealBounds),
    RealFractionBounds(FieldRealFractionBounds),
    LongBlockFlags(FieldLongBlockFlags),
    WordBlockFlags(FieldWordBlockFlags),
    ByteBlockFlags(FieldByteBlockFlags),
    CharBlockIndex(FieldCharBlockIndex),
    CustomCharBlockIndex(FieldCustomCharBlockIndex),
    ShortBlockIndex(FieldShortBlockIndex),
    CustomShortBlockIndex(FieldCustomShortBlockIndex),
    LongBlockIndex(FieldLongBlockIndex),
    CustomLongBlockIndex(FieldCustomLongBlockIndex),
    Pad,
    ByteInteger(FieldByteInteger),
    WordInteger(FieldWordInteger),
    DwordInteger(FieldDwordInteger),
    QwordInteger(FieldQwordInteger),
    Array(Vec<Record>),
    Block(RecordBlock),
    Reference(FieldReference),
    Data(FieldData),
    TagResource(RecordResource),
    AnyTag(AnyTag),
}

/// A record read by a layout: the values of the layout's fields, in the
/// order of the fields.
#[derive(Debug)]
pub struct Record {
    /// The values of the fields.
    pub values: Vec<FieldValue>,
}

impl FieldKind {
    /// The number of bytes that a field of a kind of fixed size takes in
    /// the record: for a block, data or a resource those of its head. The
    /// kinds without a fixed size are paddings and arrays.
    pub open spec fn width(&self) -> int {
        match self {
            FieldKind::String => 32,
            FieldKind::LongString => 256,
            FieldKind::Reference => 28,
            FieldKind::Block(_) => 20,
            FieldKind::TagResource(_) => 16,
            FieldKind::Pad(_) => 0,
            FieldKind::Array(_, _) => 0,
            FieldKind::StringId => 4,
            FieldKind::CharInteger => 1,
            FieldKind::ShortInteger => 2,
            FieldKind::LongInteger => 4,
            FieldKind::Int64Integer => 8,
            FieldKind::Angle => 4,
            FieldKind::Point2D => 4,
            FieldKind::Rectangle2D => 4,
            FieldKind::RGBColor => 4,
            FieldKind::ARGBColor => 4,
            FieldKind::Real => 4,
            FieldKind::RealFraction => 4,
            FieldKind::RealPoint2D => 8,
            FieldKind::RealPoint3D => 12,
            FieldKind::RealVector2D => 8,
            FieldKind::RealVector3D => 12,
            FieldKind::RealQuaternion => 16,
            FieldKind::RealEulerAngles2D => 8,
            FieldKind::RealEularAngles3D => 12,
            FieldKind::RealPlane2D => 12,
            FieldKind::RealPlane3D => 16,
            FieldKind::RealRGBColor => 12,
            FieldKind::RealARGBColor => 16,
            FieldKind::RealHSVColor => 4,
            FieldKind::RealAHSVColor => 4,
            FieldKind::ShortBounds => 4,
            FieldKind::AngleBounds => 8,
            FieldKind::RealBounds => 8,
            FieldKind::RealFractionBounds => 8,
            FieldKind::LongBlockFlags => 4,
            FieldKind::WordBlockFlags => 4,
            FieldKind::ByteBlockFlags => 4,
            FieldKind::CharBlockIndex => 1,
            FieldKind::CustomCharBlockIndex => 1,
            FieldKind::ShortBlockIndex => 2,
            FieldKind::CustomShortBlockIndex => 2,
            FieldKind::LongBlockIndex => 4,
            FieldKind::CustomLongBlockIndex => 4,
            FieldKind::ByteInteger => 1,
            FieldKind::WordInteger => 2,
            FieldKind::DwordInteger => 4,
            FieldKind::QwordInteger => 8,
            FieldKind::AnyTag => 16,
            FieldKind::Data => 24,
            FieldKind::CharEnum => 1,
            FieldKind::ShortEnum => 2,
            FieldKind::LongEnum => 4,
            FieldKind::LongFlags => 4,
            FieldKind::WordFlags => 2,
            FieldKind::ByteFlags => 1,
        }
    }

    /// How reading a field of this kind at `pos` ends. A string fails
    /// where its bytes are not UTF-8, a padding where it leaves the range
    /// of positions, an array with the first of its records that fails;
    /// every other kind fails only where its bytes are not all there.
    pub open spec fn read_outcome(&self, bytes: Seq<u8>, pos: int) -> Result<()>
        decreases self, 0nat, 0nat,
    {
        match self {
            FieldKind::Pad(length) => if pos + *length <= u64::MAX {
                Ok(())
            } else {
                Err(Error::ReadError(ReadFailure::InvalidSeek))
            },
            FieldKind::Array(layout, count) => layout.run_outcome(bytes, pos, *count as nat),
            FieldKind::String | FieldKind::LongString => if pos + self.width() > bytes.len() {
                Err(eof())
            } else {
                match fixed_string(bytes.subrange(pos, pos + self.width())) {
                    Ok(_) => Ok(()),
                    Err(e) => Err(e),
                }
            },
            FieldKind::Reference => FieldReference::read_outcome(bytes, pos),
            _ => if pos + self.width() > bytes.len() {
                Err(eof())
            } else {
                Ok(())
            },
        }
    }
}

impl Layout {
    /// How reading the first `upto` fields of a record at `pos` ends: with
    /// the first error met, if any. A field whose place leaves the range
    /// of positions cannot be sought.
    pub open spec fn fields_outcome(&self, bytes: Seq<u8>, pos: int, upto: nat) -> Result<()>
        decreases self, 0nat, upto,
    {
        if upto == 0 || upto > self.fields@.len() {
            Ok(())
        } else {
            match self.fields_outcome(bytes, pos, (upto - 1) as nat) {
                Err(e) => Err(e),
                Ok(_) => if pos + self.fields@[upto - 1].offset > u64::MAX {
                    Err(Error::ReadError(ReadFailure::InvalidSeek))
                } else {
                    self.fields@[upto - 1].kind.read_outcome(
                        bytes,
                        pos + self.fields@[upto - 1].offset,
                    )
                },
            }
        }
    }

    /// How reading a record at `pos` ends: as reading its fields ends, and
    /// with an error where the end of the record leaves the range of
    /// positions.
    pub open spec fn read_outcome(&self, bytes: Seq<u8>, pos: int) -> Result<()>
        decreases self, 1nat, 0nat,
    {
        match self.fields_outcome(bytes, pos, self.fields@.len()) {
            Err(e) => Err(e),
            Ok(_) => if pos + self.size > u64::MAX {
                Err(Error::ReadError(ReadFailure::InvalidSeek))
            } else {
                Ok(())
            },
        }
    }

    /// How reading `count` records one after another from `pos` ends.
    pub open spec fn run_outcome(&self, bytes: Seq<u8>, pos: int, count: nat) -> Result<()>
        decreases self, 2nat, count,
    {
        if count == 0 {
            Ok(())
        } else {
            match self.run_outcome(bytes, pos, (count - 1) as nat) {
                Err(e) => Err(e),
                Ok(_) => self.read_outcome(bytes, pos + (count - 1) * self.size),
            }
        }
    }
}

impl RecordBlock {
    /// Whether the head of `self` holds what the twenty bytes at `pos`
    /// store.
    pub open spec fn decoded_from(&self, bytes: Seq<u8>, pos: int) -> bool {
        &&& self.field_offset == pos
        &&& self.type_info == u64_at(bytes, pos)
        &&& self.unknown == u64_at(bytes, pos + 8)
        &&& self.size == u32_at(bytes, pos + 16)
    }

    /// Whether `self` and `other` have the same head.
    pub open spec fn same_head(&self, other: &Self) -> bool {
        &&& self.field_offset == other.field_offset
        &&& self.type_info == other.type_info
        &&& self.unknown == other.unknown
        &&& self.size == other.size
    }
}

impl RecordResource {
    /// Whether the head of `self` holds what the sixteen bytes at `pos`
    /// store.
    pub open spec fn decoded_from(&self, bytes: Seq<u8>, pos: int) -> bool {
        &&& self.block == u64_at(bytes, pos)
        &&& self.handle == u32_at(bytes, pos + 8)
        &&& self.resource_index == u32_at(bytes, pos + 12)
    }

    /// Whether `self` and `other` have the same head.
    pub open spec fn same_head(&self, other: &Self) -> bool {
        &&& self.block == other.block
        &&& self.handle == other.handle
        &&& self.resource_index == other.resource_index
    }
}

impl FieldValue {
    /// Whether `self` is a value of the kind `kind` and holds what the
    /// bytes at `pos` store, as far as reading fills it: of a block, data
    /// or a resource that is the head, of an array the records.
    pub open spec fn decoded_from(&self, kind: &FieldKind, bytes: Seq<u8>, pos: int) -> bool
        decreases kind, 0nat,
    {
        match (kind, self) {
            (FieldKind::String, FieldValue::String(v)) => v.decoded_from(bytes, pos),
            (FieldKind::LongString, FieldValue::LongString(v)) => v.decoded_from(bytes, pos),
            (FieldKind::Reference, FieldValue::Reference(v)) => v.decoded_from(bytes, pos),
            (FieldKind::Pad(_), FieldValue::Pad) => true,
            (FieldKind::Block(_), FieldValue::Block(v)) => v.decoded_from(bytes, pos),
            (FieldKind::TagResource(_), FieldValue::TagResource(v)) => v.decoded_from(bytes, pos),
            (FieldKind::Array(layout, count), FieldValue::Array(records)) => {
                &&& records@.len() == count
                &&& forall|i: int|
                    0 <= i < records@.len() ==> (#[trigger] records@[i]).decoded_from(
                        layout,
                        bytes,
                        pos + i * layout.size,
                    )
            },
            (FieldKind::StringId, FieldValue::StringId(v)) => v.decoded_from(bytes, pos),
            (FieldKind::CharInteger, FieldValue::CharInteger(v)) => v.decoded_from(bytes, pos),
            (FieldKind::ShortInteger, FieldValue::ShortInteger(v)) => v.decoded_from(bytes, pos),
            (FieldKind::LongInteger, FieldValue::LongInteger(v)) => v.decoded_from(bytes, pos),
            (FieldKind::Int64Integer, FieldValue::Int64Integer(v)) => v.decoded_from(bytes, pos),
            (FieldKind::Angle, FieldValue::Angle(v)) => v.decoded_from(bytes, pos),
            (FieldKind::Point2D, FieldValue::Point2D(v)) => v.decoded_from(bytes, pos),
            (FieldKind::Rectangle2D, FieldValue::Rectangle2D(v)) => v.decoded_from(bytes, pos),
            (FieldKind::RGBColor, FieldValue::RGBColor(v)) => v.decoded_from(bytes, pos),
            (FieldKind::ARGBColor, FieldValue::ARGBColor(v)) => v.decoded_from(bytes, pos),
            (FieldKind::Real, FieldValue::Real(v)) => v.decoded_from(bytes, pos),
            (FieldKind::RealFraction, FieldValue::RealFraction(v)) => v.decoded_from(bytes, pos),
            (FieldKind::RealPoint2D, FieldValue::RealPoint2D(v)) => v.decoded_from(bytes, pos),
            (FieldKind::RealPoint3D, FieldValue::RealPoint3D(v)) => v.decoded_from(bytes, pos),
            (FieldKind::RealVector2D, FieldValue::RealVector2D(v)) => v.decoded_from(bytes, pos),
            (FieldKind::RealVector3D, FieldValue::RealVector3D(v)) => v.decoded_from(bytes, pos),
            (FieldKind::RealQuaternion, FieldValue::RealQuaternion(v)) => v.decoded_from(bytes, pos),
            (FieldKind::RealEulerAngles2D, FieldValue::RealEulerAngles2D(v)) => v.decoded_from(bytes, pos),
            (FieldKind::RealEularAngles3D, FieldValue::RealEularAngles3D(v)) => v.decoded_from(bytes, pos),
            (FieldKind::RealPlane2D, FieldValue::RealPlane2D(v)) => v.decoded_from(bytes, pos),
            (FieldKind::RealPlane3D, FieldValue::RealPlane3D(v)) => v.decoded_from(bytes, pos),
            (FieldKind::RealRGBColor, FieldValue::RealRGBColor(v)) => v.decoded_from(bytes, pos),
            (FieldKind::RealARGBColor, FieldValue::RealARGBColor(v)) => v.decoded_from(bytes, pos),
            (FieldKind::RealHSVColor, FieldValue::RealHSVColor(v)) => v.decoded_from(bytes, pos),
            (FieldKind::RealAHSVColor, FieldValue::RealAHSVColor(v)) => v.decoded_from(bytes, pos),
            (FieldKind::ShortBounds, FieldValue::ShortBounds(v)) => v.decoded_from(bytes, pos),
            (FieldKind::AngleBounds, FieldValue::AngleBounds(v)) => v.decoded_from(bytes, pos),
            (FieldKind::RealBounds, FieldValue::RealBounds(v)) => v.decoded_from(bytes, pos),
            (FieldKind::RealFractionBounds, FieldValue::RealFractionBounds(v)) => v.decoded_from(bytes, pos),
            (FieldKind::LongBlockFlags, FieldValue::LongBlockFlags(v)) => v.decoded_from(bytes, pos),
            (FieldKind::WordBlockFlags, FieldValue::WordBlockFlags(v)) => v.decoded_from(bytes, pos),
            (FieldKind::ByteBlockFlags, FieldValue::ByteBlockFlags(v)) => v.decoded_from(bytes, pos),
            (FieldKind::CharBlockIndex, FieldValue::CharBlockIndex(v)) => v.decoded_from(bytes, pos),
            (FieldKind::CustomCharBlockIndex, FieldValue::CustomCharBlockIndex(v)) => v.decoded_from(bytes, pos),
            (FieldKind::ShortBlockIndex, FieldValue::ShortBlockIndex(v)) => v.decoded_from(bytes, pos),
            (FieldKind::CustomShortBlockIndex, FieldValue::CustomShortBlockIndex(v)) => v.decoded_from(bytes, pos),
            (FieldKind::LongBlockIndex, FieldValue::LongBlockIndex(v)) => v.decoded_from(bytes, pos),
            (FieldKind::CustomLongBlockIndex, FieldValue::CustomLongBlockIndex(v)) => v.decoded_from(bytes, pos),
            (FieldKind::ByteInteger, FieldValue::ByteInteger(v)) => v.decoded_from(bytes, pos),
            (FieldKind::WordInteger, FieldValue::WordInteger(v)) => v.decoded_from(bytes, pos),
            (FieldKind::DwordInteger, FieldValue::DwordInteger(v)) => v.decoded_from(bytes, pos),
            (FieldKind::QwordInteger, FieldValue::QwordInteger(v)) => v.decoded_from(bytes, pos),
            (FieldKind::AnyTag, FieldValue::AnyTag(v)) => v.decoded_from(bytes, pos),
            (FieldKind::Data, FieldValue::Data(v)) => v.decoded_from(bytes, pos),
            (FieldKind::CharEnum, FieldValue::CharEnum(v)) => *v == bytes[pos],
            (FieldKind::ShortEnum, FieldValue::ShortEnum(v)) => *v == u16_at(bytes, pos),
            (FieldKind::LongEnum, FieldValue::LongEnum(v)) => *v == u32_at(bytes, pos),
            (FieldKind::LongFlags, FieldValue::LongFlags(v)) => *v == u32_at(bytes, pos),
            (FieldKind::WordFlags, FieldValue::WordFlags(v)) => *v == u16_at(bytes, pos),
            (FieldKind::ByteFlags, FieldValue::ByteFlags(v)) => *v == bytes[pos],
            _ => false,
        }
    }
}

impl FieldValue {
    /// Whether nothing has been loaded into `self` yet: a block has no
    /// elements, data no bytes and a resource no values.
    pub open spec fn is_unloaded(&self) -> bool {
        match self {
            FieldValue::Block(block) => block.elements@.len() == 0,
            FieldValue::Data(data) => data.data@.len() == 0,
            FieldValue::TagResource(resource) => resource.data.values@.len() == 0,
            _ => true,
        }
    }
}

impl Record {
    /// Whether `self` holds a value for each field of `layout`, and each
    /// value holds what the bytes at the field's place in the record at
    /// `pos` store.
    pub open spec fn decoded_from(&self, layout: &Layout, bytes: Seq<u8>, pos: int) -> bool
        decreases layout, 1nat,
    {
        &&& self.values@.len() == layout.fields@.len()
        &&& forall|k: int|
            0 <= k < layout.fields@.len() ==> (#[trigger] self.values@[k]).decoded_from(
                &layout.fields@[k].kind,
                bytes,
                pos + layout.fields@[k].offset,
            )
    }
}

/// Fields that fail after `shorter` of them fail with the same error
/// however many more are read.
pub proof fn lemma_fields_fail_later(
    layout: &Layout,
    bytes: Seq<u8>,
    pos: int,
    shorter: nat,
    longer: nat,
)
    requires
        shorter <= longer <= layout.fields@.len(),
        layout.fields_outcome(bytes, pos, shorter) is Err,
    ensures
        layout.fields_outcome(bytes, pos, longer) == layout.fields_outcome(bytes, pos, shorter),
    decreases longer,
{
    if shorter < longer {
        lemma_fields_fail_later(layout, bytes, pos, shorter, (longer - 1) as nat);
    }
}

/// Records that fail after `shorter` of them fail with the same error
/// however many more are read.
pub proof fn lemma_records_fail_later(
    layout: &Layout,
    bytes: Seq<u8>,
    pos: int,
    shorter: nat,
    longer: nat,
)
    requires
        shorter <= longer,
        layout.run_outcome(bytes, pos, shorter) is Err,
    ensures
        layout.run_outcome(bytes, pos, longer) == layout.run_outcome(bytes, pos, shorter),
    decreases longer,
{
    if shorter < longer {
        lemma_records_fail_later(layout, bytes, pos, shorter, (longer - 1) as nat);
    }
}

impl RecordBlock {
    /// Reads the head of a block field at the reader's position: twenty
    /// bytes. The block has no elements yet.
    pub fn read(reader: &mut ByteReader) -> (r: Result<RecordBlock>)
        ensures
            final(reader).bytes() == old(reader).bytes(),
            match r {
                Ok(block) => old(reader).has(20) && block.decoded_from(
                    old(reader).bytes(),
                    old(reader).pos() as int,
                ) && block.elements@.len() == 0 && final(reader).pos() == old(reader).pos() + 20,
                Err(e) => !old(reader).has(20) && e == eof(),
            },
    {
        let field_offset: u64 = reader.stream_position();
        let type_info: u64 = reader.read_u64()?;
        let unknown: u64 = reader.read_u64()?;
        let size: u32 = reader.read_u32()?;
        Ok(RecordBlock { field_offset, type_info, unknown, size, elements: Vec::new() })
    }
}

impl RecordResource {
    /// Reads the head of a resource field at the reader's position:
    /// sixteen bytes. The resource is not loaded yet.
    pub fn read(reader: &mut ByteReader) -> (r: Result<RecordResource>)
        ensures
            final(reader).bytes() == old(reader).bytes(),
            match r {
                Ok(resource) => old(reader).has(16) && resource.decoded_from(
                    old(reader).bytes(),
                    old(reader).pos() as int,
                ) && resource.data.values@.len() == 0 && final(reader).pos() == old(reader).pos()
                    + 16,
                Err(e) => !old(reader).has(16) && e == eof(),
            },
    {
        let block: u64 = reader.read_u64()?;
        let handle: u32 = reader.read_u32()?;
        let resource_index: u32 = reader.read_u32()?;
        Ok(RecordResource { block, handle, resource_index, data: Record { values: Vec::new() } })
    }
}

impl FieldKind {
    /// Reads a field of this kind at the reader's position, as
    /// [`Self::read_outcome`] says.
    pub fn read(&self, reader: &mut ByteReader) -> (r: Result<FieldValue>)
        ensures
            final(reader).bytes() == old(reader).bytes(),
            match self.read_outcome(old(reader).bytes(), old(reader).pos() as int) {
                Ok(_) => r is Ok && r->Ok_0.decoded_from(
                    self,
                    old(reader).bytes(),
                    old(reader).pos() as int,
                ) && r->Ok_0.is_unloaded() && r->Ok_0.is_fresh(self),
                Err(e) => r == Err::<FieldValue, Error>(e),
            },
        decreases self, 0nat, 0nat,
    {
        match self {
            FieldKind::Array(layout, count) => {
                let records: Vec<Record> = layout.read_run(reader, *count)?;
                Ok(FieldValue::Array(records))
            },
            FieldKind::Pad(length) => {
                reader.seek_relative(*length as i64)?;
                Ok(FieldValue::Pad)
            },
            FieldKind::Block(_) => {
                let block: RecordBlock = RecordBlock::read(reader)?;
                Ok(FieldValue::Block(block))
            },
            FieldKind::TagResource(_) => {
                let resource: RecordResource = RecordResource::read(reader)?;
                Ok(FieldValue::TagResource(resource))
            },
            FieldKind::String => {
                let mut v: FieldString = FieldString::default();
                v.read(reader)?;
                Ok(FieldValue::String(v))
            },
            FieldKind::LongString => {
                let mut v: FieldLongString = FieldLongString::default();
                v.read(reader)?;
                Ok(FieldValue::LongString(v))
            },
            FieldKind::Reference => {
                let mut v: FieldReference = FieldReference::default();
                v.read(reader)?;
                Ok(FieldValue::Reference(v))
            },
            FieldKind::CharEnum => Ok(FieldValue::CharEnum(reader.read_u8()?)),
            FieldKind::ShortEnum => Ok(FieldValue::ShortEnum(reader.read_u16()?)),
            FieldKind::LongEnum => Ok(FieldValue::LongEnum(reader.read_u32()?)),
            FieldKind::LongFlags => Ok(FieldValue::LongFlags(reader.read_u32()?)),
            FieldKind::WordFlags => Ok(FieldValue::WordFlags(reader.read_u16()?)),
            FieldKind::ByteFlags => Ok(FieldValue::ByteFlags(reader.read_u8()?)),
            kind => kind.read_typed(reader),
        }
    }

    /// Whether the kind is one of those that [`Self::read_typed`] reads:
    /// the kinds of fixed size whose value is a field type of its own.
    pub open spec fn is_typed(&self) -> bool {
        match self {
            FieldKind::StringId
            | FieldKind::CharInteger
            | FieldKind::ShortInteger
            | FieldKind::LongInteger
            | FieldKind::Int64Integer
            | FieldKind::Angle
            | FieldKind::Point2D
            | FieldKind::Rectangle2D
            | FieldKind::RGBColor
            | FieldKind::ARGBColor
            | FieldKind::Real
            | FieldKind::RealFraction
            | FieldKind::RealPoint2D
            | FieldKind::RealPoint3D
            | FieldKind::RealVector2D
            | FieldKind::RealVector3D
            | FieldKind::RealQuaternion
            | FieldKind::RealEulerAngles2D
            | FieldKind::RealEularAngles3D
            | FieldKind::RealPlane2D
            | FieldKind::RealPlane3D
            | FieldKind::RealRGBColor
            | FieldKind::RealARGBColor
            | FieldKind::RealHSVColor
            | FieldKind::RealAHSVColor
            | FieldKind::ShortBounds
            | FieldKind::AngleBounds
            | FieldKind::RealBounds
            | FieldKind::RealFractionBounds
            | FieldKind::LongBlockFlags
            | FieldKind::WordBlockFlags
            | FieldKind::ByteBlockFlags
            | FieldKind::CharBlockIndex
            | FieldKind::CustomCharBlockIndex
            | FieldKind::ShortBlockIndex
            | FieldKind::CustomShortBlockIndex
            | FieldKind::LongBlockIndex
            | FieldKind::CustomLongBlockIndex
            | FieldKind::ByteInteger
            | FieldKind::WordInteger
            | FieldKind::DwordInteger
            | FieldKind::QwordInteger
            | FieldKind::AnyTag
            | FieldKind::Data => true,
            _ => false,
        }
    }

    /// Reads a field of a kind of fixed size whose value is a field type
    /// of its own.
    fn read_typed(&self, reader: &mut ByteReader) -> (r: Result<FieldValue>)
        requires
            self.is_typed(),
        ensures
            final(reader).bytes() == old(reader).bytes(),
            match r {
                Ok(value) => old(reader).has(self.width()) && value.decoded_from(
                    self,
                    old(reader).bytes(),
                    old(reader).pos() as int,
                ) && value.is_unloaded() && value.is_fresh(self),
                Err(e) => !old(reader).has(self.width()) && e == eof(),
            },
    {
        match self {
            FieldKind::StringId => {
                let mut v: FieldStringId = FieldStringId::default();
                v.read(reader)?;
                Ok(FieldValue::StringId(v))
            },
            FieldKind::CharInteger => {
                let mut v: FieldCharInteger = FieldCharInteger::default();
                v.read(reader)?;
                Ok(FieldValue::CharInteger(v))
            },
            FieldKind::ShortInteger => {
                let mut v: FieldShortInteger = FieldShortInteger::default();
                v.read(reader)?;
                Ok(FieldValue::ShortInteger(v))
            },
            FieldKind::LongInteger => {
                let mut v: FieldLongInteger = FieldLongInteger::default();
                v.read(reader)?;
                Ok(FieldValue::LongInteger(v))
            },
            FieldKind::Int64Integer => {
                let mut v: FieldInt64Integer = FieldInt64Integer::default();
                v.read(reader)?;
                Ok(FieldValue::Int64Integer(v))
            },
            FieldKind::Angle => {
                let mut v: FieldAngle = FieldAngle::default();
                v.read(reader)?;
                Ok(FieldValue::Angle(v))
            },
            FieldKind::Point2D => {
                let mut v: FieldPoint2D = FieldPoint2D::default();
                v.read(reader)?;
                Ok(FieldValue::Point2D(v))
            },
            FieldKind::Rectangle2D => {
                let mut v: FieldRectangle2D = FieldRectangle2D::default();
                v.read(reader)?;
                Ok(FieldValue::Rectangle2D(v))
            },
            FieldKind::RGBColor => {
                let mut v: FieldRGBColor = FieldRGBColor::default();
                v.read(reader)?;
                Ok(FieldValue::RGBColor(v))
            },
            FieldKind::ARGBColor => {
                let mut v: FieldARGBColor = FieldARGBColor::default();
                v.read(reader)?;
                Ok(FieldValue::ARGBColor(v))
            },
            FieldKind::Real => {
                let mut v: FieldReal = FieldReal::default();
                v.read(reader)?;
                Ok(FieldValue::Real(v))
            },
            FieldKind::RealFraction => {
                let mut v: FieldRealFraction = FieldRealFraction::default();
                v.read(reader)?;
                Ok(FieldValue::RealFraction(v))
            },
            FieldKind::RealPoint2D => {
                let mut v: FieldRealPoint2D = FieldRealPoint2D::default();
                v.read(reader)?;
                Ok(FieldValue::RealPoint2D(v))
            },
            FieldKind::RealPoint3D => {
                let mut v: FieldRealPoint3D = FieldRealPoint3D::default();
                v.read(reader)?;
                Ok(FieldValue::RealPoint3D(v))
            },
            FieldKind::RealVector2D => {
                let mut v: FieldRealVector2D = FieldRealVector2D::default();
                v.read(reader)?;
                Ok(FieldValue::RealVector2D(v))
            },
            FieldKind::RealVector3D => {
                let mut v: FieldRealVector3D = FieldRealVector3D::default();
                v.read(reader)?;
                Ok(FieldValue::RealVector3D(v))
            },
            FieldKind::RealQuaternion => {
                let mut v: FieldRealQuaternion = FieldRealQuaternion::default();
                v.read(reader)?;
                Ok(FieldValue::RealQuaternion(v))
            },
            FieldKind::RealEulerAngles2D => {
                let mut v: FieldRealEulerAngles2D = FieldRealEulerAngles2D::default();
                v.read(reader)?;
                Ok(FieldValue::RealEulerAngles2D(v))
            },
            FieldKind::RealEularAngles3D => {
                let mut v: FieldRealEularAngles3D = FieldRealEularAngles3D::default();
                v.read(reader)?;
                Ok(FieldValue::RealEularAngles3D(v))
            },
            FieldKind::RealPlane2D => {
                let mut v: FieldRealPlane2D = FieldRealPlane2D::default();
                v.read(reader)?;
                Ok(FieldValue::RealPlane2D(v))
            },
            FieldKind::RealPlane3D => {
                let mut v: FieldRealPlane3D = FieldRealPlane3D::default();
                v.read(reader)?;
                Ok(FieldValue::RealPlane3D(v))
            },
            FieldKind::RealRGBColor => {
                let mut v: FieldRealRGBColor = FieldRealRGBColor::default();
                v.read(reader)?;
                Ok(FieldValue::RealRGBColor(v))
            },
            FieldKind::RealARGBColor => {
                let mut v: FieldRealARGBColor = FieldRealARGBColor::default();
                v.read(reader)?;
                Ok(FieldValue::RealARGBColor(v))
            },
            FieldKind::RealHSVColor => {
                let mut v: FieldRealHSVColor = FieldRealHSVColor::default();
                v.read(reader)?;
                Ok(FieldValue::RealHSVColor(v))
            },
            FieldKind::RealAHSVColor => {
                let mut v: FieldRealAHSVColor = FieldRealAHSVColor::default();
                v.read(reader)?;
                Ok(FieldValue::RealAHSVColor(v))
            },
            FieldKind::ShortBounds => {
                let mut v: FieldShortBounds = FieldShortBounds::default();
                v.read(reader)?;
                Ok(FieldValue::ShortBounds(v))
            },
            FieldKind::AngleBounds => {
                let mut v: FieldAngleBounds = FieldAngleBounds::default();
                v.read(reader)?;
                Ok(FieldValue::AngleBounds(v))
            },
            FieldKind::RealBounds => {
                let mut v: FieldRealBounds = FieldRealBounds::default();
                v.read(reader)?;
                Ok(FieldValue::RealBounds(v))
            },
            FieldKind::RealFractionBounds => {
                let mut v: FieldRealFractionBounds = FieldRealFractionBounds::default();
                v.read(reader)?;
                Ok(FieldValue::RealFractionBounds(v))
            },
            FieldKind::LongBlockFlags => {
                let mut v: FieldLongBlockFlags = FieldLongBlockFlags::default();
                v.read(reader)?;
                Ok(FieldValue::LongBlockFlags(v))
            },
            FieldKind::WordBlockFlags => {
                let mut v: FieldWordBlockFlags = FieldWordBlockFlags::default();
                v.read(reader)?;
                Ok(FieldValue::WordBlockFlags(v))
            },
            FieldKind::ByteBlockFlags => {
                let mut v: FieldByteBlockFlags = FieldByteBlockFlags::default();
                v.read(reader)?;
                Ok(FieldValue::ByteBlockFlags(v))
            },
            FieldKind::CharBlockIndex => {
                let mut v: FieldCharBlockIndex = FieldCharBlockIndex::default();
                v.read(reader)?;
                Ok(FieldValue::CharBlockIndex(v))
            },
            FieldKind::CustomCharBlockIndex => {
                let mut v: FieldCustomCharBlockIndex = FieldCustomCharBlockIndex::default();
                v.read(reader)?;
                Ok(FieldValue::CustomCharBlockIndex(v))
            },
            FieldKind::ShortBlockIndex => {
                let mut v: FieldShortBlockIndex = FieldShortBlockIndex::default();
                v.read(reader)?;
                Ok(FieldValue::ShortBlockIndex(v))
            },
            FieldKind::CustomShortBlockIndex => {
                let mut v: FieldCustomShortBlockIndex = FieldCustomShortBlockIndex::default();
                v.read(reader)?;
                Ok(FieldValue::CustomShortBlockIndex(v))
            },
            FieldKind::LongBlockIndex => {
                let mut v: FieldLongBlockIndex = FieldLongBlockIndex::default();
                v.read(reader)?;
                Ok(FieldValue::LongBlockIndex(v))
            },
            FieldKind::CustomLongBlockIndex => {
                let mut v: FieldCustomLongBlockIndex = FieldCustomLongBlockIndex::default();
                v.read(reader)?;
                Ok(FieldValue::CustomLongBlockIndex(v))
            },
            FieldKind::ByteInteger => {
                let mut v: FieldByteInteger = FieldByteInteger::default();
                v.read(reader)?;
                Ok(FieldValue::ByteInteger(v))
            },
            FieldKind::WordInteger => {
                let mut v: FieldWordInteger = FieldWordInteger::default();
                v.read(reader)?;
                Ok(FieldValue::WordInteger(v))
            },
            FieldKind::DwordInteger => {
                let mut v: FieldDwordInteger = FieldDwordInteger::default();
                v.read(reader)?;
                Ok(FieldValue::DwordInteger(v))
            },
            FieldKind::QwordInteger => {
                let mut v: FieldQwordInteger = FieldQwordInteger::default();
                v.read(reader)?;
                Ok(FieldValue::QwordInteger(v))
            },
            FieldKind::AnyTag => {
                let mut v: AnyTag = AnyTag::default();
                v.read(reader)?;
                Ok(FieldValue::AnyTag(v))
            },
            FieldKind::Data => {
                let mut v: FieldData = FieldData::default();
                v.read(reader)?;
                Ok(FieldValue::Data(v))
            },
            _ => Ok(FieldValue::Pad),
        }
    }
}

impl Layout {
    /// Returns the size of a record in bytes.
    pub fn size(&self) -> (r: u64)
        ensures
            r == self.size,
    {
        self.size
    }

    /// Reads a record at the reader's position, as [`Self::read_outcome`]
    /// says: each field at its offset, in the order of the layout. The
    /// reader is left behind the record, at the record's size from its
    /// start, whatever the fields cover.
    pub fn read(&self, reader: &mut ByteReader) -> (r: Result<Record>)
        ensures
            final(reader).bytes() == old(reader).bytes(),
            match self.read_outcome(old(reader).bytes(), old(reader).pos() as int) {
                Ok(_) => r is Ok && r->Ok_0.decoded_from(
                    self,
                    old(reader).bytes(),
                    old(reader).pos() as int,
                ) && final(reader).pos() == old(reader).pos() + self.size && r->Ok_0.is_fresh(self)
                    && forall|k: int|
                    0 <= k < r->Ok_0.values@.len() ==> (#[trigger] r->Ok_0.values@[k]).is_unloaded(),
                Err(e) => r == Err::<Record, Error>(e),
            },
        decreases self, 1nat, 0nat,
    {
        let ghost bytes = reader.bytes();
        let ghost pos = reader.pos() as int;
        let main_offset: u64 = reader.stream_position();
        let count: usize = self.fields.len();
        let mut values: Vec<FieldValue> = Vec::new();
        let mut k: usize = 0;
        while k < count
            invariant
                k <= count,
                count == self.fields@.len(),
                bytes == old(reader).bytes(),
                pos == old(reader).pos(),
                main_offset == pos,
                reader.bytes() == bytes,
                self.fields_outcome(bytes, pos, k as nat) is Ok,
                values@.len() == k,
                forall|j: int|
                    0 <= j < k ==> (#[trigger] values@[j]).decoded_from(
                        &self.fields@[j].kind,
                        bytes,
                        pos + self.fields@[j].offset,
                    ),
                forall|j: int| 0 <= j < k ==> (#[trigger] values@[j]).is_unloaded(),
                forall|j: int|
                    0 <= j < k ==> (#[trigger] values@[j]).is_fresh(&self.fields@[j].kind),
            decreases count - k,
        {
            let field: &FieldDecl = &self.fields[k];
            proof {
                if self.fields_outcome(bytes, pos, (k + 1) as nat) is Err {
                    lemma_fields_fail_later(self, bytes, pos, (k + 1) as nat, count as nat);
                }
            }
            if field.offset > u64::MAX - main_offset {
                return Err(Error::ReadError(ReadFailure::InvalidSeek));
            }
            reader.seek(main_offset + field.offset);
            let value: FieldValue = field.kind.read(reader)?;
            values.push(value);
            k = k + 1;
        }
        if self.size > u64::MAX - main_offset {
            return Err(Error::ReadError(ReadFailure::InvalidSeek));
        }
        reader.seek(main_offset + self.size);
        Ok(Record { values })
    }

    /// Reads `count` records one after another at the reader's position,
    /// as [`Self::run_outcome`] says.
    pub fn read_run(&self, reader: &mut ByteReader, count: u64) -> (r: Result<Vec<Record>>)
        ensures
            final(reader).bytes() == old(reader).bytes(),
            match self.run_outcome(old(reader).bytes(), old(reader).pos() as int, count as nat) {
                Ok(_) => {
                    &&& r is Ok
                    &&& r->Ok_0@.len() == count
                    &&& final(reader).pos() == old(reader).pos() + count * self.size
                    &&& forall|i: int|
                        0 <= i < count ==> (#[trigger] r->Ok_0@[i]).decoded_from(
                            self,
                            old(reader).bytes(),
                            old(reader).pos() + i * self.size,
                        ) && r->Ok_0@[i].is_fresh(self)
                },
                Err(e) => r == Err::<Vec<Record>, Error>(e),
            },
        decreases self, 2nat, count,
    {
        let ghost bytes = reader.bytes();
        let ghost pos = reader.pos() as int;
        let mut records: Vec<Record> = Vec::new();
        let mut done: u64 = 0;
        while done < count
            invariant
                done <= count,
                bytes == old(reader).bytes(),
                pos == old(reader).pos(),
                reader.bytes() == bytes,
                reader.pos() == pos + done * self.size,
                self.run_outcome(bytes, pos, done as nat) is Ok,
                records@.len() == done,
                forall|i: int|
                    0 <= i < done ==> (#[trigger] records@[i]).decoded_from(
                        self,
                        bytes,
                        pos + i * self.size,
                    ) && records@[i].is_fresh(self),
            decreases count - done,
        {
            proof {
                if self.run_outcome(bytes, pos, (done + 1) as nat) is Err {
                    lemma_records_fail_later(self, bytes, pos, (done + 1) as nat, count as nat);
                }
                assert((done + 1) * self.size == done * self.size + self.size)
                    by (nonlinear_arith);
            }
            let record: Record = self.read(reader)?;
            records.push(record);
            done = done + 1;
        }
        Ok(records)
    }
}

/// The outcome `r` with nothing kept of it but whether it is an error, and
/// which.
pub open spec fn settled(r: Result<()>) -> Result<()> {
    match r {
        Ok(_) => Ok(()),
        Err(e) => Err(e),
    }
}

impl Layout {
    /// How loading a block of `size` records with this layout ends, whose
    /// field stands at `place` in the datablock `current_block`: as reading
    /// the records from the target datablock ends, and then as loading the
    /// records ends, one after another. An empty block ends well, and so
    /// does one that nothing roots.
    pub open spec fn block_outcome(
        &self,
        size: u32,
        bytes: Seq<u8>,
        tag: TagFileView,
        current_block: i32,
        place: int,
    ) -> Result<()>
        decreases self, 4nat, 0nat,
    {
        if size == 0 || place > u64::MAX || tag.block_target(current_block, place as u64)
            is None {
            Ok(())
        } else {
            let target = tag.block_target(current_block, place as u64)->Some_0;
            let at = tag.payload_position(target);
            match self.run_outcome(bytes, at, size as nat) {
                Err(e) => Err(e),
                Ok(_) => settled(self.elements_outcome(bytes, tag, at, target as i32, size as nat)),
            }
        }
    }

    /// How loading a resource with this layout ends, whose field stands at
    /// `place`: with the error of a negative target, as reading the record
    /// of the resource ends, and then as loading that record ends. A
    /// resource that no struct definition stands for ends well.
    pub open spec fn resource_outcome(&self, bytes: Seq<u8>, tag: TagFileView, place: int) -> Result<
        (),
    >
        decreases self, 4nat, 0nat,
    {
        if place > u64::MAX {
            Ok(())
        } else {
            let root = first_index(tag.struct_definitions, roots_resource(place as u64), 0);
            match tag.resource_position(place as u64) {
                Err(e) => Err(e),
                Ok(None) => Ok(()),
                Ok(Some(at)) => match self.read_outcome(bytes, at) {
                    Err(e) => Err(e),
                    Ok(_) => settled(self.load_outcome(
                        bytes,
                        tag,
                        at,
                        tag.struct_definitions[root].target_index,
                        root as nat,
                        0,
                    )),
                },
            }
        }
    }

    /// The number of data fields among the first `upto` fields.
    pub open spec fn data_fields(&self, upto: int) -> nat
        decreases upto,
    {
        if upto <= 0 {
            0
        } else {
            self.data_fields(upto - 1) + if self.fields@[upto - 1].kind is Data {
                1nat
            } else {
                0nat
            }
        }
    }

    /// The number of the data reference that belongs to the field number
    /// `k` of a record, where that is a data field. The record is element
    /// `parent_index` of its block, and lies in a datablock whose data
    /// references are counted from 0, element by element, and for each
    /// element in the order of its data fields: the first data field of
    /// element 0 has the reference 0, its second the reference 1, and the
    /// first data field of element 1 the reference behind the last of
    /// element 0.
    pub open spec fn data_ordinal(&self, parent_index: nat, k: int) -> nat {
        parent_index * self.data_fields(self.fields@.len() as int) + self.data_fields(k)
    }

    /// How loading the first `upto` fields of the record read at `pos`
    /// ends: with the first error met, if any.
    pub open spec fn fields_load_outcome(
        &self,
        bytes: Seq<u8>,
        tag: TagFileView,
        pos: int,
        source_index: i32,
        parent_index: nat,
        adjusted_base: u64,
        upto: nat,
    ) -> Result<()>
        decreases self, 1nat, upto,
    {
        if upto == 0 || upto > self.fields@.len() {
            Ok(())
        } else {
            match self.fields_load_outcome(
                bytes,
                tag,
                pos,
                source_index,
                parent_index,
                adjusted_base,
                (upto - 1) as nat,
            ) {
                Err(e) => Err(e),
                Ok(_) => settled(self.fields@[upto - 1].kind.load_outcome(
                    bytes,
                    tag,
                    pos + self.fields@[upto - 1].offset,
                    source_index,
                    self.data_ordinal(parent_index, upto - 1),
                    adjusted_base + self.fields@[upto - 1].offset,
                )),
            }
        }
    }

    /// How loading what the fields of the record read at `pos` point at
    /// ends. The record lies in the datablock `source_index`, as element
    /// `parent_index` of its block, at `adjusted_base`.
    pub open spec fn load_outcome(
        &self,
        bytes: Seq<u8>,
        tag: TagFileView,
        pos: int,
        source_index: i32,
        parent_index: nat,
        adjusted_base: u64,
    ) -> Result<()>
        decreases self, 2nat, 0nat,
    {
        settled(self.fields_load_outcome(
            bytes,
            tag,
            pos,
            source_index,
            parent_index,
            adjusted_base,
            self.fields@.len(),
        ))
    }

    /// How loading the first `count` elements of a block ends that were
    /// read one after another from `pos`: element `i` is loaded as element
    /// `i` of the datablock `target`, at `i` times the size of a record.
    pub open spec fn elements_outcome(
        &self,
        bytes: Seq<u8>,
        tag: TagFileView,
        pos: int,
        target: i32,
        count: nat,
    ) -> Result<()>
        decreases self, 3nat, count,
    {
        if count == 0 {
            Ok(())
        } else {
            match self.elements_outcome(bytes, tag, pos, target, (count - 1) as nat) {
                Err(e) => Err(e),
                Ok(_) => settled(self.load_outcome(
                    bytes,
                    tag,
                    pos + (count - 1) * self.size,
                    target,
                    (count - 1) as nat,
                    ((count - 1) * self.size) as u64,
                )),
            }
        }
    }

    /// How loading the first `count` records of an array ends that were
    /// read one after another from `pos`: each is loaded as element 0 of
    /// the datablock `source_index`, at `place`.
    pub open spec fn array_outcome(
        &self,
        bytes: Seq<u8>,
        tag: TagFileView,
        pos: int,
        source_index: i32,
        place: u64,
        count: nat,
    ) -> Result<()>
        decreases self, 3nat, count,
    {
        if count == 0 {
            Ok(())
        } else {
            match self.array_outcome(bytes, tag, pos, source_index, place, (count - 1) as nat) {
                Err(e) => Err(e),
                Ok(_) => settled(self.load_outcome(
                    bytes,
                    tag,
                    pos + (count - 1) * self.size,
                    source_index,
                    0,
                    place,
                )),
            }
        }
    }

    /// How loading the first `upto` values of a record ends that holds
    /// `values`: with the first error met, if any. A value that is not of
    /// the kind of its field is passed over.
    pub open spec fn values_outcome(
        &self,
        values: Seq<FieldValue>,
        bytes: Seq<u8>,
        tag: TagFileView,
        source_index: i32,
        parent_index: nat,
        adjusted_base: u64,
        upto: nat,
    ) -> Result<()>
        decreases self, 1nat, upto,
    {
        if upto == 0 || upto > self.fields@.len() || upto > values.len() {
            Ok(())
        } else {
            match self.values_outcome(
                values,
                bytes,
                tag,
                source_index,
                parent_index,
                adjusted_base,
                (upto - 1) as nat,
            ) {
                Err(e) => Err(e),
                Ok(_) => settled(values[upto - 1].load_outcome(
                    &self.fields@[upto - 1].kind,
                    bytes,
                    tag,
                    source_index,
                    self.data_ordinal(parent_index, upto - 1),
                    adjusted_base + self.fields@[upto - 1].offset,
                )),
            }
        }
    }

    /// How loading the first `count` of the records `records` of an array
    /// ends: each is loaded as element 0 of the datablock `source_index`,
    /// at `place`.
    pub open spec fn records_outcome(
        &self,
        records: Seq<Record>,
        bytes: Seq<u8>,
        tag: TagFileView,
        source_index: i32,
        place: u64,
        count: nat,
    ) -> Result<()>
        decreases self, 3nat, count,
    {
        if count == 0 || count > records.len() {
            Ok(())
        } else {
            match self.records_outcome(
                records,
                bytes,
                tag,
                source_index,
                place,
                (count - 1) as nat,
            ) {
                Err(e) => Err(e),
                Ok(_) => settled(records[count - 1].load_outcome(
                    self,
                    bytes,
                    tag,
                    source_index,
                    0,
                    place,
                )),
            }
        }
    }
}

impl FieldKind {
    /// How loading what a field of this kind points at ends, as far as the
    /// bytes say: the field was read at `pos` and stands at `place` in the
    /// datablock `source_index`, and where it is a data field, the data
    /// reference number `ordinal` of that datablock is its own. Fields that
    /// point at nothing end well.
    pub open spec fn load_outcome(
        &self,
        bytes: Seq<u8>,
        tag: TagFileView,
        pos: int,
        source_index: i32,
        ordinal: nat,
        place: int,
    ) -> Result<()>
        decreases self, 0nat, 0nat,
    {
        match self {
            FieldKind::Block(layout) => settled(layout.block_outcome(
                u32_at(bytes, pos + 16),
                bytes,
                tag,
                source_index,
                place,
            )),
            FieldKind::TagResource(layout) => settled(layout.resource_outcome(bytes, tag, place)),
            FieldKind::Array(layout, count) => if place > u64::MAX {
                Ok(())
            } else {
                settled(layout.array_outcome(bytes, tag, pos, source_index, place as u64, *count as nat))
            },
            FieldKind::Data => match FieldData::referenced(
                tag,
                bytes,
                source_index,
                ordinal,
                u32_at(bytes, pos + 20),
            ) {
                Err(e) => Err(e),
                Ok(_) => Ok(()),
            },
            _ => Ok(()),
        }
    }
}

impl FieldValue {
    /// How loading what `self` points at ends, a value of a field of the
    /// kind `kind` that stands at `place` in the datablock `source_index`;
    /// where it is a data field, the data reference number `ordinal` of
    /// that datablock is its own. A value that is not of the kind is passed
    /// over.
    pub open spec fn load_outcome(
        &self,
        kind: &FieldKind,
        bytes: Seq<u8>,
        tag: TagFileView,
        source_index: i32,
        ordinal: nat,
        place: int,
    ) -> Result<()>
        decreases kind, 0nat, 0nat,
    {
        match (kind, self) {
            (FieldKind::Block(layout), FieldValue::Block(block)) => settled(layout.block_outcome(
                block.size,
                bytes,
                tag,
                source_index,
                place,
            )),
            (FieldKind::TagResource(layout), FieldValue::TagResource(_)) => settled(layout.resource_outcome(
                bytes,
                tag,
                place,
            )),
            (FieldKind::Array(layout, _), FieldValue::Array(records)) => if place > u64::MAX {
                Ok(())
            } else {
                settled(layout.records_outcome(
                    records@,
                    bytes,
                    tag,
                    source_index,
                    place as u64,
                    records@.len(),
                ))
            },
            (FieldKind::Data, FieldValue::Data(data)) => match FieldData::referenced(
                tag,
                bytes,
                source_index,
                ordinal,
                data.size,
            ) {
                Err(e) => Err(e),
                Ok(_) => Ok(()),
            },
            _ => Ok(()),
        }
    }

    /// Whether no block of `self` holds elements yet, nor a block of a
    /// record of an array in `self`.
    pub open spec fn is_fresh(&self, kind: &FieldKind) -> bool
        decreases kind, 0nat,
    {
        match (kind, self) {
            (FieldKind::Block(_), FieldValue::Block(block)) => block.elements@.len() == 0,
            (FieldKind::Array(layout, _), FieldValue::Array(records)) => forall|i: int|
                0 <= i < records@.len() ==> (#[trigger] records@[i]).is_fresh(layout),
            _ => true,
        }
    }
}

impl Record {
    /// How loading what the values of `self` point at ends, a record with
    /// the layout `layout` that lies in the datablock `source_index`, as
    /// element `parent_index` of its block, at `adjusted_base`.
    pub open spec fn load_outcome(
        &self,
        layout: &Layout,
        bytes: Seq<u8>,
        tag: TagFileView,
        source_index: i32,
        parent_index: nat,
        adjusted_base: u64,
    ) -> Result<()>
        decreases layout, 2nat, 0nat,
    {
        settled(layout.values_outcome(
            self.values@,
            bytes,
            tag,
            source_index,
            parent_index,
            adjusted_base,
            if layout.fields@.len() < self.values@.len() {
                layout.fields@.len()
            } else {
                self.values@.len()
            },
        ))
    }

    /// Whether no block of `self` holds elements yet, nor a block of a
    /// record of an array in `self`.
    pub open spec fn is_fresh(&self, layout: &Layout) -> bool
        decreases layout, 1nat,
    {
        forall|k: int|
            0 <= k < layout.fields@.len() && k < self.values@.len() ==> (#[trigger] self.values@[k]).is_fresh(
                &layout.fields@[k].kind,
            )
    }
}

/// A record that holds what the bytes at `pos` store is loaded as the bytes
/// say.
pub proof fn lemma_outcome_of_decoded(
    layout: &Layout,
    record: &Record,
    bytes: Seq<u8>,
    tag: TagFileView,
    pos: int,
    source_index: i32,
    parent_index: nat,
    adjusted_base: u64,
)
    requires
        record.decoded_from(layout, bytes, pos),
    ensures
        record.load_outcome(layout, bytes, tag, source_index, parent_index, adjusted_base)
            == layout.load_outcome(bytes, tag, pos, source_index, parent_index, adjusted_base),
    decreases layout, 2nat, 0nat,
{
    lemma_values_outcome_of_decoded(
        layout,
        record,
        bytes,
        tag,
        pos,
        source_index,
        parent_index,
        adjusted_base,
        layout.fields@.len(),
    );
}

/// The first `upto` values of a record that holds what the bytes at `pos`
/// store are loaded as the bytes say.
pub proof fn lemma_values_outcome_of_decoded(
    layout: &Layout,
    record: &Record,
    bytes: Seq<u8>,
    tag: TagFileView,
    pos: int,
    source_index: i32,
    parent_index: nat,
    adjusted_base: u64,
    upto: nat,
)
    requires
        record.decoded_from(layout, bytes, pos),
        upto <= layout.fields@.len(),
    ensures
        layout.values_outcome(
            record.values@,
            bytes,
            tag,
            source_index,
            parent_index,
            adjusted_base,
            upto,
        ) == layout.fields_load_outcome(
            bytes,
            tag,
            pos,
            source_index,
            parent_index,
            adjusted_base,
            upto,
        ),
    decreases layout, 1nat, upto,
{
    if upto > 0 {
        lemma_values_outcome_of_decoded(
            layout,
            record,
            bytes,
            tag,
            pos,
            source_index,
            parent_index,
            adjusted_base,
            (upto - 1) as nat,
        );
        let kind = &layout.fields@[upto - 1].kind;
        let value = record.values@[upto - 1];
        let at = pos + layout.fields@[upto - 1].offset;
        let place = adjusted_base + layout.fields@[upto - 1].offset;
        assert(value.decoded_from(kind, bytes, at));
        match (kind, value) {
            (FieldKind::Array(nested, count), FieldValue::Array(records)) => {
                if place <= u64::MAX {
                    lemma_records_outcome_of_decoded(
                        nested,
                        records@,
                        bytes,
                        tag,
                        at,
                        source_index,
                        place as u64,
                        records@.len(),
                    );
                }
            },
            (FieldKind::Block(nested), FieldValue::Block(block)) => {
                assert(block.size == u32_at(bytes, at + 16));
            },
            (FieldKind::Data, FieldValue::Data(data)) => {
                assert(data.size == u32_at(bytes, at + 20));
            },
            _ => {},
        }
        let ordinal = layout.data_ordinal(parent_index, upto - 1);
        assert(value.load_outcome(kind, bytes, tag, source_index, ordinal, place)
            == kind.load_outcome(bytes, tag, at, source_index, ordinal, place));
    }
}

/// The first `count` records of an array that hold what the bytes from
/// `pos` on store are loaded as the bytes say.
pub proof fn lemma_records_outcome_of_decoded(
    layout: &Layout,
    records: Seq<Record>,
    bytes: Seq<u8>,
    tag: TagFileView,
    pos: int,
    source_index: i32,
    place: u64,
    count: nat,
)
    requires
        count <= records.len(),
        forall|i: int|
            0 <= i < records.len() ==> (#[trigger] records[i]).decoded_from(
                layout,
                bytes,
                pos + i * layout.size,
            ),
    ensures
        layout.records_outcome(records, bytes, tag, source_index, place, count)
            == layout.array_outcome(bytes, tag, pos, source_index, place, count),
    decreases layout, 3nat, count,
{
    if count > 0 {
        lemma_records_outcome_of_decoded(
            layout,
            records,
            bytes,
            tag,
            pos,
            source_index,
            place,
            (count - 1) as nat,
        );
        lemma_outcome_of_decoded(
            layout,
            &records[count - 1],
            bytes,
            tag,
            pos + (count - 1) * layout.size,
            source_index,
            0,
            place,
        );
    }
}

/// Whether `after` is what loading leaves of the block `before` whose
/// field stands at `place` in the datablock `current_block`, and whose
/// records have the layout `layout`.
///
/// The head stays. Where the block is not empty and a struct definition
/// roots the field, the records are appended to the elements: as many as
/// the head says, read one after another from the start of the target
/// datablock. Otherwise the elements stay.
pub open spec fn block_loaded(
    layout: &Layout,
    before: &RecordBlock,
    after: &RecordBlock,
    bytes: Seq<u8>,
    tag: TagFileView,
    current_block: i32,
    place: int,
) -> bool {
    &&& after.same_head(before)
    &&& if before.size != 0 && place <= u64::MAX && tag.block_target(current_block, place as u64)
        is Some {
        let target = tag.block_target(current_block, place as u64)->Some_0;
        &&& after.elements@.len() == before.elements@.len() + before.size
        &&& forall|i: int|
            0 <= i < before.size ==> (#[trigger] after.elements@[before.elements@.len()
                + i]).decoded_from(layout, bytes, tag.payload_position(target) + i * layout.size)
    } else {
        after.elements@ == before.elements@
    }
}

/// Whether `after` is what loading leaves of the resource `before` whose
/// field stands at `place`, and whose record has the layout `layout`: the
/// head stays, and the record is the one at the start of the datablock that
/// the struct definition of the resource points at, where there is one.
pub open spec fn resource_loaded(
    layout: &Layout,
    before: &RecordResource,
    after: &RecordResource,
    bytes: Seq<u8>,
    tag: TagFileView,
    place: int,
) -> bool {
    &&& after.same_head(before)
    &&& if place <= u64::MAX && tag.resource_position(place as u64) is Ok {
        match tag.resource_position(place as u64)->Ok_0 {
            Some(position) => after.data.decoded_from(layout, bytes, position),
            None => after.data == before.data,
        }
    } else {
        place > u64::MAX && after.data == before.data
    }
}

/// Whether `after` is what loading leaves of the value `before` of a field
/// of the kind `kind` that stands at `place` in the datablock
/// `source_index`, with the data reference number `ordinal` of that
/// datablock as its own where it is a data field: see
/// [`block_loaded`], [`resource_loaded`] and [`FieldData::referenced`].
/// Fields of other kinds have nothing to load.
pub open spec fn field_loaded(
    kind: &FieldKind,
    before: &FieldValue,
    after: &FieldValue,
    bytes: Seq<u8>,
    tag: TagFileView,
    source_index: i32,
    ordinal: nat,
    place: int,
) -> bool {
    match (kind, before, after) {
        (FieldKind::Block(layout), FieldValue::Block(old), FieldValue::Block(new)) => block_loaded(
            layout,
            old,
            new,
            bytes,
            tag,
            source_index,
            place,
        ),
        (
            FieldKind::TagResource(layout),
            FieldValue::TagResource(old),
            FieldValue::TagResource(new),
        ) => resource_loaded(layout, old, new, bytes, tag, place),
        (FieldKind::Data, FieldValue::Data(old), FieldValue::Data(new)) => {
            &&& new.same_head(old)
            &&& match FieldData::referenced(tag, bytes, source_index, ordinal, old.size) {
                Ok(Some(data)) => new.data@ == data,
                Ok(None) => new.data@ == old.data@,
                Err(_) => false,
            }
        },
        _ => true,
    }
}

/// A record whose values all keep what they held of their bytes keeps what
/// it held of its bytes.
pub proof fn lemma_record_stays_decoded(layout: &Layout, before: &Record, after: &Record)
    requires
        after.values@.len() == before.values@.len(),
        forall|j: int, bytes: Seq<u8>, pos: int|
            0 <= j < layout.fields@.len() && j < before.values@.len()
                && #[trigger] before.values@[j].decoded_from(&layout.fields@[j].kind, bytes, pos)
                ==> after.values@[j].decoded_from(&layout.fields@[j].kind, bytes, pos),
    ensures
        forall|bytes: Seq<u8>, pos: int| #[trigger]
            before.decoded_from(layout, bytes, pos) ==> after.decoded_from(layout, bytes, pos),
{
    assert forall|bytes: Seq<u8>, pos: int| #[trigger]
        before.decoded_from(layout, bytes, pos) implies after.decoded_from(layout, bytes, pos) by {
        assert forall|k: int| 0 <= k < layout.fields@.len() implies (#[trigger] after.values@[k]).decoded_from(
            &layout.fields@[k].kind,
            bytes,
            pos + layout.fields@[k].offset,
        ) by {
            assert(before.values@[k].decoded_from(
                &layout.fields@[k].kind,
                bytes,
                pos + layout.fields@[k].offset,
            ));
        }
    }
}

/// An array whose records all keep what they held of their bytes keeps
/// what it held of its bytes.
pub proof fn lemma_array_stays_decoded(
    kind: &FieldKind,
    before: &FieldValue,
    after: &FieldValue,
)
    requires
        kind is Array,
        before is Array,
        after is Array,
        after->Array_0@.len() == before->Array_0@.len(),
        forall|i: int, bytes: Seq<u8>, pos: int|
            0 <= i < before->Array_0@.len() && #[trigger] before->Array_0@[i].decoded_from(
                &kind->Array_0,
                bytes,
                pos,
            ) ==> after->Array_0@[i].decoded_from(&kind->Array_0, bytes, pos),
    ensures
        forall|bytes: Seq<u8>, pos: int| #[trigger]
            before.decoded_from(kind, bytes, pos) ==> after.decoded_from(kind, bytes, pos),
{
    let layout = kind->Array_0;
    assert forall|bytes: Seq<u8>, pos: int| #[trigger]
        before.decoded_from(kind, bytes, pos) implies after.decoded_from(kind, bytes, pos) by {
        assert forall|i: int| 0 <= i < after->Array_0@.len() implies (#[trigger] after->Array_0@[i]).decoded_from(
            &layout,
            bytes,
            pos + i * layout.size,
        ) by {
            assert(before->Array_0@[i].decoded_from(&layout, bytes, pos + i * layout.size));
        }
    }
}

/// Records that were read one after another end inside the range of
/// positions.
pub proof fn lemma_run_fits(layout: &Layout, bytes: Seq<u8>, pos: int, count: nat)
    requires
        layout.run_outcome(bytes, pos, count) is Ok,
        count > 0,
    ensures
        pos + count * layout.size <= u64::MAX,
{
    assert(layout.read_outcome(bytes, pos + (count - 1) * layout.size) is Ok);
    assert((count - 1) * layout.size + layout.size == count * layout.size) by (nonlinear_arith);
}

/// Records that were read one after another were read, however many of
/// them are looked at.
pub proof fn lemma_run_prefix(layout: &Layout, bytes: Seq<u8>, pos: int, fewer: nat, more: nat)
    requires
        layout.run_outcome(bytes, pos, more) is Ok,
        fewer <= more,
    ensures
        layout.run_outcome(bytes, pos, fewer) is Ok,
    decreases more,
{
    if fewer < more {
        lemma_run_prefix(layout, bytes, pos, fewer, (more - 1) as nat);
    }
}

/// Elements whose loading fails after `shorter` of them fail with the same
/// error however many more are loaded.
pub proof fn lemma_elements_fail_later(
    layout: &Layout,
    bytes: Seq<u8>,
    tag: TagFileView,
    pos: int,
    target: i32,
    shorter: nat,
    longer: nat,
)
    requires
        shorter <= longer,
        layout.elements_outcome(bytes, tag, pos, target, shorter) is Err,
    ensures
        layout.elements_outcome(bytes, tag, pos, target, longer) == layout.elements_outcome(
            bytes,
            tag,
            pos,
            target,
            shorter,
        ),
    decreases longer,
{
    if shorter < longer {
        lemma_elements_fail_later(layout, bytes, tag, pos, target, shorter, (longer - 1) as nat);
    }
}

/// Records of an array whose loading fails after `shorter` of them fail
/// with the same error however many more are loaded.
pub proof fn lemma_array_fails_later(
    layout: &Layout,
    records: Seq<Record>,
    bytes: Seq<u8>,
    tag: TagFileView,
    source_index: i32,
    place: u64,
    shorter: nat,
    longer: nat,
)
    requires
        shorter <= longer <= records.len(),
        layout.records_outcome(records, bytes, tag, source_index, place, shorter) is Err,
    ensures
        layout.records_outcome(records, bytes, tag, source_index, place, longer)
            == layout.records_outcome(records, bytes, tag, source_index, place, shorter),
    decreases longer,
{
    if shorter < longer {
        lemma_array_fails_later(
            layout,
            records,
            bytes,
            tag,
            source_index,
            place,
            shorter,
            (longer - 1) as nat,
        );
    }
}

/// Values whose loading fails after `shorter` of them fail with the same
/// error however many more are loaded.
pub proof fn lemma_values_fail_later(
    layout: &Layout,
    values: Seq<FieldValue>,
    bytes: Seq<u8>,
    tag: TagFileView,
    source_index: i32,
    parent_index: nat,
    adjusted_base: u64,
    shorter: nat,
    longer: nat,
)
    requires
        shorter <= longer,
        longer <= layout.fields@.len(),
        longer <= values.len(),
        layout.values_outcome(
            values,
            bytes,
            tag,
            source_index,
            parent_index,
            adjusted_base,
            shorter,
        ) is Err,
    ensures
        layout.values_outcome(values, bytes, tag, source_index, parent_index, adjusted_base, longer)
            == layout.values_outcome(
            values,
            bytes,
            tag,
            source_index,
            parent_index,
            adjusted_base,
            shorter,
        ),
    decreases longer,
{
    if shorter < longer {
        lemma_values_fail_later(
            layout,
            values,
            bytes,
            tag,
            source_index,
            parent_index,
            adjusted_base,
            shorter,
            (longer - 1) as nat,
        );
    }
}

/// Loading a field does not depend on the number of its data reference
/// unless it is a data field, and not on how large the number is where it
/// is as large as the number of data references of the tag: the datablock
/// has no such reference then.
pub proof fn lemma_ordinal_beyond(
    kind: &FieldKind,
    before: &FieldValue,
    after: &FieldValue,
    bytes: Seq<u8>,
    tag: TagFileView,
    source_index: i32,
    one: nat,
    other: nat,
    place: int,
)
    requires
        kind is Data ==> one == other || (one >= tag.data_references.len() && other
            >= tag.data_references.len()),
    ensures
        field_loaded(kind, before, after, bytes, tag, source_index, one, place) == field_loaded(
            kind,
            before,
            after,
            bytes,
            tag,
            source_index,
            other,
            place,
        ),
        before.load_outcome(kind, bytes, tag, source_index, one, place) == before.load_outcome(
            kind,
            bytes,
            tag,
            source_index,
            other,
            place,
        ),
{
    if kind is Data && one != other {
        crate::tag::loader::lemma_no_reference_beyond(tag.data_references, source_index, one, 0);
        crate::tag::loader::lemma_no_reference_beyond(tag.data_references, source_index, other, 0);
    }
}

impl Layout {
    /// The number of data fields of a record.
    pub fn count_data_fields(&self) -> (r: usize)
        ensures
            r == self.data_fields(self.fields@.len() as int),
    {
        let count: usize = self.fields.len();
        let mut found: usize = 0;
        let mut k: usize = 0;
        while k < count
            invariant
                k <= count,
                count == self.fields@.len(),
                found == self.data_fields(k as int),
                found <= k,
            decreases count - k,
        {
            match &self.fields[k].kind {
                FieldKind::Data => {
                    found = found + 1;
                },
                _ => {},
            }
            k = k + 1;
        }
        found
    }

    /// Loads the elements of a block whose records have this layout, as
    /// [`block_loaded`] says, and then lets every element load what its own
    /// fields point at: element `i` as element `i` of the target datablock,
    /// at `i` times the size of a record.
    ///
    /// A block of size 0 is left alone, and so is one whose field no struct
    /// definition roots: nothing is sought and nothing is read.
    pub fn load_blocks(
        &self,
        block: &mut RecordBlock,
        current_block: i32,
        collection_offset: u64,
        reader: &mut ByteReader,
        tag_file: &TagFile,
    ) -> (r: Result<()>)
        requires
            tag_file@.offsets_fit(),
        ensures
            final(reader).bytes() == old(reader).bytes(),
            final(block).same_head(old(block)),
            r is Ok ==> block_loaded(
                self,
                old(block),
                final(block),
                old(reader).bytes(),
                tag_file@,
                current_block,
                collection_offset as int,
            ),
            old(block).size == 0 || tag_file@.block_target(current_block, collection_offset)
                is None ==> r is Ok && final(reader).pos() == old(reader).pos(),
            old(block).size != 0 ==> (tag_file@.block_target(current_block, collection_offset)
                matches Some(target) ==> (self.run_outcome(
                old(reader).bytes(),
                tag_file@.payload_position(target),
                old(block).size as nat,
            ) matches Err(e) ==> r == Err::<(), Error>(e))),
            old(block).elements@.len() == 0 ==> r == self.block_outcome(
                old(block).size,
                old(reader).bytes(),
                tag_file@,
                current_block,
                collection_offset as int,
            ),
        decreases self, 3nat,
    {
        // Empty blocks have no elements to look for.
        if block.size == 0 {
            return Ok(());
        }
        // The root of the tag block points to where its elements are stored.
        let root: usize = match tag_file.find_block_struct(current_block, collection_offset) {
            Some(root) => root,
            None => {
                return Ok(());
            },
        };
        let target_index: i32 = tag_file.struct_definitions[root].target_index;
        if target_index < 0 || target_index as usize >= tag_file.datablock_definitions.len() {
            return Ok(());
        }
        let offset: u64 = tag_file.payload_offset(target_index as usize);
        let ghost before = block.elements@;
        let ghost target = target_index as int;

        // The elements are read first, without any of their children.
        reader.seek(offset);
        let mut records: Vec<Record> = self.read_run(reader, block.size as u64)?;
        block.elements.append(&mut records);
        let ghost read = block.elements@;
        let ghost bytes = reader.bytes();
        let ghost fresh = before.len() == 0;

        // Then the children are read, each element at its place in the datablock.
        proof {
            if fresh {
                assert forall|i: int| 0 <= i < block.elements@.len() implies (#[trigger] block.elements@[i]).decoded_from(
                    self,
                    bytes,
                    offset + i * self.size,
                ) && block.elements@[i].is_fresh(self) by {
                    assert(read[before.len() + i].decoded_from(self, bytes, offset + i * self.size));
                }
            }
        }
        self.load_elements(
            &mut block.elements,
            target_index,
            reader,
            tag_file,
            Ghost(offset as int),
            Ghost(fresh),
        )?;
        proof {
            assert forall|i: int| 0 <= i < old(block).size implies (#[trigger] block.elements@[before.len()
                + i]).decoded_from(self, old(reader).bytes(), offset + i * self.size) by {
                assert(read[before.len() + i].decoded_from(
                    self,
                    old(reader).bytes(),
                    offset + i * self.size,
                ));
            }
        }
        Ok(())
    }

    /// Lets every element of a block load what its own fields point at:
    /// element `i` as element `i` of the datablock `target_index`, at `i`
    /// times the size of a record. Where `known` holds, the elements are
    /// those that were read one after another from `at`.
    fn load_elements(
        &self,
        elements: &mut Vec<Record>,
        target_index: i32,
        reader: &mut ByteReader,
        tag_file: &TagFile,
        Ghost(at): Ghost<int>,
        Ghost(known): Ghost<bool>,
    ) -> (r: Result<()>)
        requires
            tag_file@.offsets_fit(),
            known ==> {
                &&& 0 <= at
                &&& self.run_outcome(old(reader).bytes(), at, old(elements)@.len()) is Ok
                &&& forall|i: int|
                    0 <= i < old(elements)@.len() ==> (#[trigger] old(elements)@[i]).decoded_from(
                        self,
                        old(reader).bytes(),
                        at + i * self.size,
                    ) && old(elements)@[i].is_fresh(self)
            },
        ensures
            final(reader).bytes() == old(reader).bytes(),
            final(elements)@.len() == old(elements)@.len(),
            forall|i: int, bytes: Seq<u8>, pos: int|
                0 <= i < old(elements)@.len() && #[trigger] old(elements)@[i].decoded_from(
                    self,
                    bytes,
                    pos,
                ) ==> final(elements)@[i].decoded_from(self, bytes, pos),
            known ==> r == self.elements_outcome(
                old(reader).bytes(),
                tag_file@,
                at,
                target_index,
                old(elements)@.len(),
            ),
        decreases self, 2nat,
    {
        let ghost bytes = reader.bytes();
        let total: usize = elements.len();
        let mut idx: usize = 0;
        while idx < total
            invariant
                idx <= total,
                tag_file@.offsets_fit(),
                bytes == old(reader).bytes(),
                reader.bytes() == bytes,
                elements@.len() == old(elements)@.len() == total,
                forall|i: int, bytes: Seq<u8>, pos: int|
                    0 <= i < total && #[trigger] old(elements)@[i].decoded_from(self, bytes, pos)
                        ==> elements@[i].decoded_from(self, bytes, pos),
                forall|i: int| idx <= i < total ==> elements@[i] == old(elements)@[i],
                known ==> {
                    &&& 0 <= at
                    &&& self.run_outcome(bytes, at, total as nat) is Ok
                    &&& forall|i: int|
                        0 <= i < total ==> (#[trigger] old(elements)@[i]).decoded_from(
                            self,
                            bytes,
                            at + i * self.size,
                        ) && old(elements)@[i].is_fresh(self)
                    &&& self.elements_outcome(bytes, tag_file@, at, target_index, idx as nat)
                        == Ok::<(), Error>(())
                },
            decreases total - idx,
        {
            // The product cannot overflow for an element that was read where it is said to lie.
            let adjusted_base: u64 = match self.size.checked_mul(idx as u64) {
                Some(product) => product,
                None => self.size.wrapping_mul(idx as u64),
            };
            proof {
                if known {
                    lemma_run_prefix(self, bytes, at, (idx + 1) as nat, total as nat);
                    lemma_run_fits(self, bytes, at, (idx + 1) as nat);
                    assert(idx * self.size <= (idx + 1) * self.size) by (nonlinear_arith);
                    assert(self.size * idx == idx * self.size) by (nonlinear_arith);
                    assert(old(elements)@[idx as int].decoded_from(self, bytes, at + idx * self.size));
                    lemma_outcome_of_decoded(
                        self,
                        &old(elements)@[idx as int],
                        bytes,
                        tag_file@,
                        at + idx * self.size,
                        target_index,
                        idx as nat,
                        adjusted_base,
                    );
                    if self.elements_outcome(bytes, tag_file@, at, target_index, (idx + 1) as nat)
                        is Err {
                        lemma_elements_fail_later(
                            self,
                            bytes,
                            tag_file@,
                            at,
                            target_index,
                            (idx + 1) as nat,
                            total as nat,
                        );
                    }
                }
            }
            self.load_field_blocks(
                &mut elements[idx],
                target_index,
                idx,
                adjusted_base,
                reader,
                tag_file,
            )?;
            idx = idx + 1;
        }
        Ok(())
    }

    /// Loads a resource whose record has this layout, as
    /// [`resource_loaded`] says, and lets the record load what its own
    /// fields point at. The reader is put back where it was.
    pub fn load_resource(
        &self,
        resource: &mut RecordResource,
        adjusted_base: u64,
        reader: &mut ByteReader,
        tag_file: &TagFile,
    ) -> (r: Result<()>)
        requires
            tag_file@.offsets_fit(),
        ensures
            final(reader).bytes() == old(reader).bytes(),
            final(resource).same_head(old(resource)),
            match tag_file@.resource_position(adjusted_base) {
                Ok(Some(position)) => match self.read_outcome(old(reader).bytes(), position) {
                    Err(e) => r == Err::<(), Error>(e),
                    Ok(_) => r is Ok ==> final(resource).data.decoded_from(
                        self,
                        old(reader).bytes(),
                        position,
                    ) && final(reader).pos() == old(reader).pos(),
                },
                Ok(None) => r is Ok && final(resource).data == old(resource).data && final(reader).pos() == old(reader).pos(),
                Err(e) => r == Err::<(), Error>(e) && final(resource).data == old(resource).data,
            },
            r == self.resource_outcome(old(reader).bytes(), tag_file@, adjusted_base as int),
        decreases self, 3nat,
    {
        let root: usize = match tag_file.find_resource_struct(adjusted_base) {
            Some(root) => root,
            None => {
                return Ok(());
            },
        };
        let target_index: i32 = tag_file.struct_definitions[root].target_index;
        if target_index < 0 {
            return Err(Error::TryFromIntError);
        }
        if target_index as usize >= tag_file.datablock_definitions.len() {
            return Ok(());
        }
        let position: u64 = reader.stream_position();
        let datablock_location: u64 = tag_file.datablock_definitions[target_index as usize].get_offset(
            tag_file,
        );
        reader.seek(datablock_location);
        resource.data = self.read(reader)?;
        proof {
            lemma_outcome_of_decoded(
                self,
                &resource.data,
                reader.bytes(),
                tag_file@,
                datablock_location as int,
                target_index,
                root as nat,
                0,
            );
        }
        self.load_field_blocks(&mut resource.data, target_index, root, 0, reader, tag_file)?;
        reader.seek(position);
        Ok(())
    }

    /// Loads what the fields of `record` point at: blocks, arrays,
    /// resources and data, in the order of the layout. The record lies in
    /// the datablock `source_index`, as element `parent_index` of its
    /// block, at `adjusted_base` bytes from the start of the datablock.
    ///
    /// What the record held of its own bytes stays, and each field is
    /// loaded as [`field_loaded`] says. The data fields of the record take
    /// the data references of the datablock in the order of the layout, as
    /// [`Self::data_ordinal`] says.
    pub fn load_field_blocks(
        &self,
        record: &mut Record,
        source_index: i32,
        parent_index: usize,
        adjusted_base: u64,
        reader: &mut ByteReader,
        tag_file: &TagFile,
    ) -> (r: Result<()>)
        requires
            tag_file@.offsets_fit(),
        ensures
            final(reader).bytes() == old(reader).bytes(),
            final(record).values@.len() == old(record).values@.len(),
            forall|bytes: Seq<u8>, pos: int| #[trigger]
                old(record).decoded_from(self, bytes, pos) ==> final(record).decoded_from(
                    self,
                    bytes,
                    pos,
                ),
            r is Ok ==> forall|k: int|
                0 <= k < self.fields@.len() && k < old(record).values@.len() ==> field_loaded(
                    &self.fields@[k].kind,
                    &old(record).values@[k],
                    #[trigger] &final(record).values@[k],
                    old(reader).bytes(),
                    tag_file@,
                    source_index,
                    self.data_ordinal(parent_index as nat, k),
                    adjusted_base + self.fields@[k].offset,
                ),
            old(record).is_fresh(self) ==> r == old(record).load_outcome(
                self,
                old(reader).bytes(),
                tag_file@,
                source_index,
                parent_index as nat,
                adjusted_base,
            ),
        decreases self, 1nat,
    {
        let count: usize = if self.fields.len() < record.values.len() {
            self.fields.len()
        } else {
            record.values.len()
        };
        let data_count: usize = self.count_data_fields();
        let references: usize = tag_file.data_references.len();
        let mut seen: usize = 0;
        let mut k: usize = 0;
        while k < count
            invariant
                k <= count,
                count <= self.fields@.len(),
                count <= record.values@.len(),
                count == self.fields@.len() || count == record.values@.len(),
                tag_file@.offsets_fit(),
                reader.bytes() == old(reader).bytes(),
                record.values@.len() == old(record).values@.len(),
                forall|j: int| k <= j < record.values@.len() ==> record.values@[j] == old(record).values@[j],
                forall|j: int, bytes: Seq<u8>, pos: int|
                    0 <= j < count && #[trigger] old(record).values@[j].decoded_from(
                        &self.fields@[j].kind,
                        bytes,
                        pos,
                    ) ==> record.values@[j].decoded_from(&self.fields@[j].kind, bytes, pos),
                forall|j: int|
                    0 <= j < k ==> field_loaded(
                        &self.fields@[j].kind,
                        &old(record).values@[j],
                        #[trigger] &record.values@[j],
                        old(reader).bytes(),
                        tag_file@,
                        source_index,
                        self.data_ordinal(parent_index as nat, j),
                        adjusted_base + self.fields@[j].offset,
                    ),
                data_count == self.data_fields(self.fields@.len() as int),
                seen == self.data_fields(k as int),
                seen <= k,
                references == tag_file@.data_references.len(),
                old(record).is_fresh(self) ==> self.values_outcome(
                    old(record).values@,
                    old(reader).bytes(),
                    tag_file@,
                    source_index,
                    parent_index as nat,
                    adjusted_base,
                    k as nat,
                ) == Ok::<(), Error>(()),
            decreases count - k,
        {
            let field: &FieldDecl = &self.fields[k];
            proof {
                if old(record).is_fresh(self) {
                    assert(old(record).values@[k as int].is_fresh(&self.fields@[k as int].kind));
                    if self.values_outcome(
                        old(record).values@,
                        old(reader).bytes(),
                        tag_file@,
                        source_index,
                        parent_index as nat,
                        adjusted_base,
                        (k + 1) as nat,
                    ) is Err {
                        lemma_values_fail_later(
                            self,
                            old(record).values@,
                            old(reader).bytes(),
                            tag_file@,
                            source_index,
                            parent_index as nat,
                            adjusted_base,
                            (k + 1) as nat,
                            count as nat,
                        );
                    }
                }
            }
            // A number that does not fit is beyond every reference.
            let ordinal: usize = match parent_index.checked_mul(data_count) {
                Some(first) => match first.checked_add(seen) {
                    Some(ordinal) => ordinal,
                    None => usize::MAX,
                },
                None => usize::MAX,
            };
            let ghost loaded_so_far = record.values@[k as int];
            let outcome: Result<()> = field.kind.load(
                &mut record.values[k],
                field.offset,
                source_index,
                ordinal,
                adjusted_base,
                reader,
                tag_file,
            );
            proof {
                lemma_ordinal_beyond(
                    &self.fields@[k as int].kind,
                    &loaded_so_far,
                    &record.values@[k as int],
                    old(reader).bytes(),
                    tag_file@,
                    source_index,
                    ordinal as nat,
                    self.data_ordinal(parent_index as nat, k as int),
                    adjusted_base + self.fields@[k as int].offset,
                );
            }
            match &field.kind {
                FieldKind::Data => {
                    seen = seen + 1;
                },
                _ => {},
            }
            match outcome {
                Ok(()) => {},
                Err(e) => {
                    proof {
                        lemma_record_stays_decoded(self, old(record), record);
                        assert(old(record).load_outcome(
                            self,
                            old(reader).bytes(),
                            tag_file@,
                            source_index,
                            parent_index as nat,
                            adjusted_base,
                        ) == self.values_outcome(
                            old(record).values@,
                            old(reader).bytes(),
                            tag_file@,
                            source_index,
                            parent_index as nat,
                            adjusted_base,
                            count as nat,
                        ));
                    }
                    return Err(e);
                },
            }
            k = k + 1;
        }
        proof {
            lemma_record_stays_decoded(self, old(record), record);
            assert(old(record).load_outcome(
                self,
                old(reader).bytes(),
                tag_file@,
                source_index,
                parent_index as nat,
                adjusted_base,
            ) == self.values_outcome(
                old(record).values@,
                old(reader).bytes(),
                tag_file@,
                source_index,
                parent_index as nat,
                adjusted_base,
                count as nat,
            ));
        }
        Ok(())
    }

    /// Returns the names of the fields with their offsets in the record, in
    /// the order of the layout.
    pub fn offsets(&self) -> (r: Vec<(String, u64)>)
        ensures
            r@.len() == self.fields@.len(),
            forall|k: int|
                0 <= k < r@.len() ==> (#[trigger] r@[k]).0@ == self.fields@[k].name@ && r@[k].1
                    == self.fields@[k].offset,
    {
        let (names, field_offsets) = extract_field_maps(&self.fields);
        let count: usize = names.len();
        let mut pairs: Vec<(String, u64)> = Vec::new();
        let mut k: usize = 0;
        while k < count
            invariant
                k <= count,
                count == names@.len() == field_offsets@.len() == self.fields@.len(),
                forall|j: int| 0 <= j < count ==> (#[trigger] names@[j])@ == self.fields@[j].name@,
                forall|j: int|
                    0 <= j < count ==> #[trigger] field_offsets@[j] == self.fields@[j].offset,
                pairs@.len() == k,
                forall|j: int|
                    0 <= j < k ==> (#[trigger] pairs@[j]).0@ == self.fields@[j].name@ && pairs@[j].1
                        == self.fields@[j].offset,
            decreases count - k,
        {
            pairs.push((names[k].clone(), field_offsets[k]));
            k = k + 1;
        }
        pairs
    }
}

/// Splits the fields of a layout into their names and their offsets, both
/// in the order of the layout.
pub fn extract_field_maps(fields: &Vec<FieldDecl>) -> (r: (Vec<String>, Vec<u64>))
    ensures
        r.0@.len() == fields@.len(),
        r.1@.len() == fields@.len(),
        forall|k: int| 0 <= k < fields@.len() ==> (#[trigger] r.0@[k])@ == fields@[k].name@,
        forall|k: int| 0 <= k < fields@.len() ==> #[trigger] r.1@[k] == fields@[k].offset,
{
    let count: usize = fields.len();
    let mut names: Vec<String> = Vec::new();
    let mut offsets: Vec<u64> = Vec::new();
    let mut k: usize = 0;
    while k < count
        invariant
            k <= count,
            count == fields@.len(),
            names@.len() == k,
            offsets@.len() == k,
            forall|j: int| 0 <= j < k ==> (#[trigger] names@[j])@ == fields@[j].name@,
            forall|j: int| 0 <= j < k ==> #[trigger] offsets@[j] == fields@[j].offset,
        decreases count - k,
    {
        names.push(fields[k].name.clone());
        offsets.push(fields[k].offset);
        k = k + 1;
    }
    (names, offsets)
}

impl FieldKind {
    /// Loads what a field of this kind points at, as [`field_loaded`] says.
    /// The field stands at `offset` in its record, which lies at
    /// `adjusted_base` in the datablock `source_index`.
    ///
    /// A block or a resource is looked for at the place of the field, an
    /// array lets each of its records load its own fields at that place,
    /// and data is taken from the data reference number `ordinal` of the
    /// record's datablock. A place that does not fit 64 bits roots nothing.
    pub fn load(
        &self,
        value: &mut FieldValue,
        offset: u64,
        source_index: i32,
        ordinal: usize,
        adjusted_base: u64,
        reader: &mut ByteReader,
        tag_file: &TagFile,
    ) -> (r: Result<()>)
        requires
            tag_file@.offsets_fit(),
        ensures
            final(reader).bytes() == old(reader).bytes(),
            forall|bytes: Seq<u8>, pos: int| #[trigger]
                old(value).decoded_from(self, bytes, pos) ==> final(value).decoded_from(
                    self,
                    bytes,
                    pos,
                ),
            r is Ok ==> field_loaded(
                self,
                old(value),
                final(value),
                old(reader).bytes(),
                tag_file@,
                source_index,
                ordinal as nat,
                adjusted_base + offset,
            ),
            old(value).is_fresh(self) ==> r == old(value).load_outcome(
                self,
                old(reader).bytes(),
                tag_file@,
                source_index,
                ordinal as nat,
                adjusted_base + offset,
            ),
        decreases self, 0nat,
    {
        let fits: bool = offset <= u64::MAX - adjusted_base;
        match self {
            FieldKind::Block(layout) => match value {
                FieldValue::Block(block) => {
                    if fits {
                        layout.load_blocks(
                            block,
                            source_index,
                            adjusted_base + offset,
                            reader,
                            tag_file,
                        )
                    } else {
                        Ok(())
                    }
                },
                _ => Ok(()),
            },
            FieldKind::TagResource(layout) => match value {
                FieldValue::TagResource(resource) => {
                    if fits {
                        layout.load_resource(resource, adjusted_base + offset, reader, tag_file)
                    } else {
                        Ok(())
                    }
                },
                _ => Ok(()),
            },
            FieldKind::Array(layout, _) => match value {
                FieldValue::Array(records) => {
                    let outcome: Result<()> = if fits {
                        layout.load_records(
                            records,
                            source_index,
                            adjusted_base + offset,
                            reader,
                            tag_file,
                        )
                    } else {
                        Ok(())
                    };
                    proof {
                        lemma_array_stays_decoded(self, old(value), value);
                    }
                    outcome
                },
                _ => Ok(()),
            },
            FieldKind::Data => match value {
                FieldValue::Data(data) => data.load_data(
                    reader,
                    source_index,
                    ordinal,
                    tag_file,
                ),
                _ => Ok(()),
            },
            _ => Ok(()),
        }
    }
}

impl Layout {
    /// Lets each record of an array load what its own fields point at,
    /// each as element 0 of the datablock `source_index`, at
    /// `adjusted_base`.
    pub fn load_records(
        &self,
        records: &mut Vec<Record>,
        source_index: i32,
        adjusted_base: u64,
        reader: &mut ByteReader,
        tag_file: &TagFile,
    ) -> (r: Result<()>)
        requires
            tag_file@.offsets_fit(),
        ensures
            final(reader).bytes() == old(reader).bytes(),
            final(records)@.len() == old(records)@.len(),
            forall|i: int, bytes: Seq<u8>, pos: int|
                0 <= i < old(records)@.len() && #[trigger] old(records)@[i].decoded_from(
                    self,
                    bytes,
                    pos,
                ) ==> final(records)@[i].decoded_from(self, bytes, pos),
            (forall|i: int| 0 <= i < old(records)@.len() ==> (#[trigger] old(records)@[i]).is_fresh(self))
                ==> r == self.records_outcome(
                old(records)@,
                old(reader).bytes(),
                tag_file@,
                source_index,
                adjusted_base,
                old(records)@.len(),
            ),
        decreases self, 3nat,
    {
        let ghost fresh = forall|i: int|
            0 <= i < old(records)@.len() ==> (#[trigger] old(records)@[i]).is_fresh(self);
        let count: usize = records.len();
        let mut i: usize = 0;
        while i < count
            invariant
                i <= count,
                tag_file@.offsets_fit(),
                reader.bytes() == old(reader).bytes(),
                records@.len() == old(records)@.len() == count,
                forall|j: int, bytes: Seq<u8>, pos: int|
                    0 <= j < count && #[trigger] old(records)@[j].decoded_from(self, bytes, pos)
                        ==> records@[j].decoded_from(self, bytes, pos),
                fresh == (forall|j: int|
                    0 <= j < old(records)@.len() ==> (#[trigger] old(records)@[j]).is_fresh(self)),
                forall|j: int| i <= j < count ==> records@[j] == old(records)@[j],
                fresh ==> self.records_outcome(
                    old(records)@,
                    old(reader).bytes(),
                    tag_file@,
                    source_index,
                    adjusted_base,
                    i as nat,
                ) == Ok::<(), Error>(()),
            decreases count - i,
        {
            proof {
                if fresh {
                    assert(old(records)@[i as int].is_fresh(self));
                    if self.records_outcome(
                        old(records)@,
                        old(reader).bytes(),
                        tag_file@,
                        source_index,
                        adjusted_base,
                        (i + 1) as nat,
                    ) is Err {
                        lemma_array_fails_later(
                            self,
                            old(records)@,
                            old(reader).bytes(),
                            tag_file@,
                            source_index,
                            adjusted_base,
                            (i + 1) as nat,
                            count as nat,
                        );
                    }
                }
            }
            self.load_field_blocks(
                &mut records[i],
                source_index,
                0,
                adjusted_base,
                reader,
                tag_file,
            )?;
            i = i + 1;
        }
        Ok(())
    }
}

/// Whether `value` is what a field of the kind `kind` holds once it has
/// been loaded for the first time. The field stands at `place` in the
/// datablock `source_index`; where it is a data field, the data reference
/// number `ordinal` of that datablock is its own.
///
/// A block holds as many records as its head says, read one after another
/// from the start of the datablock that the struct definition of the field
/// points at; it holds none where it is empty or nothing roots the field.
/// Data holds the bytes that its data reference points at, as many as its
/// head says. A resource holds the record at the start of the datablock
/// that its struct definition points at.
pub open spec fn first_loaded(
    kind: &FieldKind,
    value: &FieldValue,
    bytes: Seq<u8>,
    tag: TagFileView,
    source_index: i32,
    ordinal: nat,
    place: int,
) -> bool {
    match (kind, value) {
        (FieldKind::Block(layout), FieldValue::Block(block)) => {
            if block.size != 0 && place <= u64::MAX && tag.block_target(source_index, place as u64)
                is Some {
                let target = tag.block_target(source_index, place as u64)->Some_0;
                &&& block.elements@.len() == block.size
                &&& forall|i: int|
                    0 <= i < block.size ==> (#[trigger] block.elements@[i]).decoded_from(
                        layout,
                        bytes,
                        tag.payload_position(target) + i * layout.size,
                    )
            } else {
                block.elements@.len() == 0
            }
        },
        (FieldKind::TagResource(layout), FieldValue::TagResource(resource)) => {
            if place <= u64::MAX && tag.resource_position(place as u64) is Ok
                && tag.resource_position(place as u64)->Ok_0 is Some {
                resource.data.decoded_from(
                    layout,
                    bytes,
                    tag.resource_position(place as u64)->Ok_0->Some_0,
                )
            } else {
                resource.data.values@.len() == 0
            }
        },
        (FieldKind::Data, FieldValue::Data(data)) => match FieldData::referenced(
            tag,
            bytes,
            source_index,
            ordinal,
            data.size,
        ) {
            Ok(Some(found)) => data.data@ == found,
            Ok(None) => data.data@.len() == 0,
            Err(_) => false,
        },
        _ => true,
    }
}

/// Loading a value as it was read, into which nothing was loaded before,
/// loads it for the first time.
pub proof fn lemma_first_load(
    kind: &FieldKind,
    before: &FieldValue,
    after: &FieldValue,
    bytes: Seq<u8>,
    tag: TagFileView,
    source_index: i32,
    ordinal: nat,
    place: int,
    read_at: int,
)
    requires
        before.decoded_from(kind, bytes, read_at),
        before.is_unloaded(),
        field_loaded(kind, before, after, bytes, tag, source_index, ordinal, place),
    ensures
        first_loaded(kind, after, bytes, tag, source_index, ordinal, place),
{
    if kind is Block && before is Block && after is Block {
        let layout = kind->Block_0;
        let old = before->Block_0;
        let new = after->Block_0;
        if old.size != 0 && place <= u64::MAX && tag.block_target(source_index, place as u64)
            is Some {
            let target = tag.block_target(source_index, place as u64)->Some_0;
            assert forall|i: int| 0 <= i < new.size implies (#[trigger] new.elements@[i]).decoded_from(
                &layout,
                bytes,
                tag.payload_position(target) + i * layout.size,
            ) by {
                assert(new.elements@[old.elements@.len() + i].decoded_from(
                    &layout,
                    bytes,
                    tag.payload_position(target) + i * layout.size,
                ));
            }
        }
    }
}

/// A record that holds what the bytes at `pos` store holds, in a field that
/// is declared as the tag's own id and handle, the id that the bytes store
/// eight bytes into that field. With the field at the start of the main
/// struct, the id read is that of the file entry exactly where the tag
/// stores the entry's id there.
pub proof fn lemma_any_tag_of_record(
    layout: &Layout,
    record: &Record,
    bytes: Seq<u8>,
    pos: int,
    k: int,
)
    requires
        record.decoded_from(layout, bytes, pos),
        0 <= k < layout.fields@.len(),
        layout.fields@[k].kind is AnyTag,
    ensures
        record.values@[k] is AnyTag,
        record.values@[k]->AnyTag_0.internal_struct.tag_id == crate::common::endian::i32_at(
            bytes,
            pos + layout.fields@[k].offset + 8,
        ),
{
    assert(record.values@[k].decoded_from(
        &layout.fields@[k].kind,
        bytes,
        pos + layout.fields@[k].offset,
    ));
}

impl ModuleFileEntry {
    /// Reads a record with the layout `layout` from the tag data, as
    /// [`ModuleFileEntry::read_metadata`] reads a structure: at the offset
    /// of the datablock of the first main struct, and then loads what its
    /// fields point at.
    pub fn read_metadata_as(&mut self, layout: &Layout) -> (r: Result<Record>)
        requires
            old(self).metadata_ready(),
        ensures
            final(self).same_record(old(self)),
            final(self).tag_name == old(self).tag_name,
            final(self).tag_info == old(self).tag_info,
            final(self).is_loaded == old(self).is_loaded,
            final(self).data_stream is Some <==> old(self).data_stream is Some,
            final(self).data_stream matches Some(stream) ==> stream.bytes() == old(self).data_stream->Some_0.bytes() && stream.pos() == old(self).data_stream->Some_0.pos()
                + old(self).data_stream->Some_0.rest().len(),
            match old(self).metadata_start() {
                Err(e) => r == Err::<Record, Error>(e),
                Ok(offset) => match layout.read_outcome(
                    old(self).data_stream->Some_0.rest(),
                    offset as int,
                ) {
                    Err(e) => r == Err::<Record, Error>(e),
                    Ok(_) => (match layout.load_outcome(
                        old(self).data_stream->Some_0.rest(),
                        old(self).tag_info->Some_0@,
                        offset as int,
                        old(self).tag_info->Some_0@.struct_definitions[Self::main_struct(
                            old(self).tag_info->Some_0@,
                        )].target_index,
                        0,
                        0,
                    ) {
                        Err(e) => r == Err::<Record, Error>(e),
                        Ok(_) => r is Ok,
                    }) && (r matches Ok(record) ==> {
                        let tag = old(self).tag_info->Some_0@;
                        &&& record.decoded_from(
                            layout,
                            old(self).data_stream->Some_0.rest(),
                            offset as int,
                        )
                        &&& forall|k: int|
                            0 <= k < layout.fields@.len() ==> first_loaded(
                                &layout.fields@[k].kind,
                                #[trigger] &record.values@[k],
                                old(self).data_stream->Some_0.rest(),
                                tag,
                                tag.struct_definitions[Self::main_struct(tag)].target_index,
                                layout.data_ordinal(0, k),
                                layout.fields@[k].offset as int,
                            )
                    }),
                },
            },
    {
        let full_tag: Vec<u8> = match &mut self.data_stream {
            Some(stream) => stream.read_to_end(),
            None => {
                return Err(Error::TagError(TagError::NotLoaded));
            },
        };
        let tag_info: &TagFile = match &self.tag_info {
            Some(tag_info) => tag_info,
            None => {
                return Err(Error::TagError(TagError::NoTagInfo));
            },
        };
        let main: usize = match tag_info.main_struct_index() {
            Some(main) => main,
            None => {
                return Err(Error::TagError(TagError::MainStructNotFound));
            },
        };
        let target_index: i32 = tag_info.struct_definitions[main].target_index;
        let offset: u64 = tag_info.datablock_definitions[target_index as usize].offset;
        if offset > i64::MAX as u64 {
            return Err(Error::TryFromIntError);
        }
        let mut full_tag_reader: ByteReader = ByteReader::new(full_tag);
        full_tag_reader.seek_relative(offset as i64)?;
        let mut record: Record = layout.read(&mut full_tag_reader)?;
        let ghost read = record;
        proof {
            lemma_outcome_of_decoded(
                layout,
                &record,
                full_tag@,
                tag_info@,
                offset as int,
                target_index,
                0,
                0,
            );
        }
        layout.load_field_blocks(&mut record, target_index, 0, 0, &mut full_tag_reader, tag_info)?;
        proof {
            assert forall|k: int| 0 <= k < layout.fields@.len() implies first_loaded(
                &layout.fields@[k].kind,
                #[trigger] &record.values@[k],
                full_tag@,
                tag_info@,
                target_index,
                layout.data_ordinal(0, k),
                layout.fields@[k].offset as int,
            ) by {
                assert(read.values@[k].is_unloaded());
                lemma_first_load(
                    &layout.fields@[k].kind,
                    &read.values@[k],
                    &record.values@[k],
                    full_tag@,
                    tag_info@,
                    target_index,
                    layout.data_ordinal(0, k),
                    layout.fields@[k].offset as int,
                    offset + layout.fields@[k].offset,
                );
            }
        }
        Ok(record)
    }
}

} // verus!
