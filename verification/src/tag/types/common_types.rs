//! Types used by the game to construct a tag: the kinds of fields that a
//! tag structure is made of, each with the bytes it occupies.
//!
//! Real numbers are held as the bits that are stored, 32 for each. The
//! number itself is `from_bits` of those bits.
use crate::common::endian::{i16_at, i32_at, i64_at, i8_at, u16_at, u32_at, u64_at};
use crate::common::errors::{eof, Error, ReadFailure, Result, TagError};
use crate::common::extensions::{exact_at, fixed_string, reversed, BufReaderExt, ByteReader};
use crate::module::file::TagStructure;
use crate::tag::loader::{nth_reference, TagFile};
use vstd::prelude::*;
use vstd::string::StringExecFns;

verus! {

#[derive(Debug, Clone, PartialEq, Eq)]
/// _0: 32 Byte strings that usually store some sort of short name.
pub struct FieldString(pub String);

impl Default for FieldString {
    fn default() -> (r: Self)
        ensures
            r.0@.len() == 0,
    {
        FieldString(String::new())
    }
}

impl FieldString {
    /// Whether `self` holds the string that the 32 bytes at `pos` store.
    pub open spec fn decoded_from(&self, bytes: Seq<u8>, pos: int) -> bool {
        fixed_string(bytes.subrange(pos, pos + 32)) == Ok::<Seq<char>, Error>(self.0@)
    }

    /// Reads the field at the reader's position: 32 bytes of UTF-8.
    pub fn read(&mut self, reader: &mut ByteReader) -> (r: Result<()>)
        ensures
            final(reader).bytes() == old(reader).bytes(),
            !old(reader).has(32) ==> r == Err::<(), Error>(eof()) && final(reader).pos() == old(reader).pos(),
            old(reader).has(32) ==> final(reader).pos() == old(reader).pos() + 32 && match fixed_string(

                old(reader).bytes().subrange(old(reader).pos() as int, old(reader).pos() + 32),
            ) {
                Ok(text) => r is Ok && final(self).0@ == text,
                Err(e) => r == Err::<(), Error>(e),
            },
            r is Err ==> final(self).0 == old(self).0,
    {
        assert(reader.has(32) ==> reader.rest().take(32) =~= reader.bytes().subrange(
            reader.pos() as int,
            reader.pos() + 32,
        ));
        self.0 = reader.read_fixed_string(32)?;
        Ok(())
    }
}

#[derive(Debug, Clone, PartialEq, Eq)]
/// _1: 256 byte long string usually used to store paths.
pub struct FieldLongString(pub String);

impl Default for FieldLongString {
    fn default() -> (r: Self)
        ensures
            r.0@.len() == 0,
    {
        FieldLongString(String::new())
    }
}

impl FieldLongString {
    /// Whether `self` holds the string that the 256 bytes at `pos` store.
    pub open spec fn decoded_from(&self, bytes: Seq<u8>, pos: int) -> bool {
        fixed_string(bytes.subrange(pos, pos + 256)) == Ok::<Seq<char>, Error>(self.0@)
    }

    /// Reads the field at the reader's position: 256 bytes of UTF-8.
    pub fn read(&mut self, reader: &mut ByteReader) -> (r: Result<()>)
        ensures
            final(reader).bytes() == old(reader).bytes(),
            !old(reader).has(256) ==> r == Err::<(), Error>(eof()) && final(reader).pos() == old(reader).pos(),
            old(reader).has(256) ==> final(reader).pos() == old(reader).pos() + 256
                && match fixed_string(
                old(reader).bytes().subrange(old(reader).pos() as int, old(reader).pos() + 256),
            ) {
                Ok(text) => r is Ok && final(self).0@ == text,
                Err(e) => r == Err::<(), Error>(e),
            },
            r is Err ==> final(self).0 == old(self).0,
    {
        assert(reader.has(256) ==> reader.rest().take(256) =~= reader.bytes().subrange(
            reader.pos() as int,
            reader.pos() + 256,
        ));
        self.0 = reader.read_fixed_string(256)?;
        Ok(())
    }
}

#[derive(Debug, Clone, Copy, PartialEq, Eq, Structural)]
/// _2: 32 bit integer containing a `MurmurHash3_x86_64` 32 bit value.
pub struct FieldStringId(pub i32);

impl Default for FieldStringId {
    fn default() -> (r: Self)
        ensures
            r.0 == 0,
    {
        FieldStringId(0)
    }
}

impl FieldStringId {
    /// Whether `self` holds what the four bytes at `pos` store.
    pub open spec fn decoded_from(&self, bytes: Seq<u8>, pos: int) -> bool {
        self.0 == i32_at(bytes, pos)
    }

    /// Reads the field at the reader's position: four bytes.
    pub fn read(&mut self, reader: &mut ByteReader) -> (r: Result<()>)
        ensures
            final(reader).bytes() == old(reader).bytes(),
            match r {
                Ok(_) => old(reader).has(4) && final(self).decoded_from(
                    old(reader).bytes(),
                    old(reader).pos() as int,
                ) && final(reader).pos() == old(reader).pos() + 4,
                Err(e) => !old(reader).has(4) && e == eof() && *final(self) == *old(self)
                    && final(reader).pos() == old(reader).pos(),
            },
    {
        self.0 = reader.read_i32()?;
        Ok(())
    }
}

#[derive(Debug, Clone, Copy, PartialEq, Eq, Structural)]
/// _4: Signed integer type "char" in C.
pub struct FieldCharInteger(pub i8);

impl Default for FieldCharInteger {
    fn default() -> (r: Self)
        ensures
            r.0 == 0,
    {
        FieldCharInteger(0)
    }
}

impl FieldCharInteger {
    /// Whether `self` holds what the byte at `pos` store.
    pub open spec fn decoded_from(&self, bytes: Seq<u8>, pos: int) -> bool {
        self.0 == i8_at(bytes, pos)
    }

    /// Reads the field at the reader's position: one byte.
    pub fn read(&mut self, reader: &mut ByteReader) -> (r: Result<()>)
        ensures
            final(reader).bytes() == old(reader).bytes(),
            match r {
                Ok(_) => old(reader).has(1) && final(self).decoded_from(
                    old(reader).bytes(),
                    old(reader).pos() as int,
                ) && final(reader).pos() == old(reader).pos() + 1,
                Err(e) => !old(reader).has(1) && e == eof() && *final(self) == *old(self)
                    && final(reader).pos() == old(reader).pos(),
            },
    {
        self.0 = reader.read_i8()?;
        Ok(())
    }
}

#[derive(Debug, Clone, Copy, PartialEq, Eq, Structural)]
/// _5: Signed integer type "short" in C.
pub struct FieldShortInteger(pub i16);

impl Default for FieldShortInteger {
    fn default() -> (r: Self)
        ensures
            r.0 == 0,
    {
        FieldShortInteger(0)
    }
}

impl FieldShortInteger {
    /// Whether `self` holds what the two bytes at `pos` store.
    pub open spec fn decoded_from(&self, bytes: Seq<u8>, pos: int) -> bool {
        self.0 == i16_at(bytes, pos)
    }

    /// Reads the field at the reader's position: two bytes.
    pub fn read(&mut self, reader: &mut ByteReader) -> (r: Result<()>)
        ensures
            final(reader).bytes() == old(reader).bytes(),
            match r {
                Ok(_) => old(reader).has(2) && final(self).decoded_from(
                    old(reader).bytes(),
                    old(reader).pos() as int,
                ) && final(reader).pos() == old(reader).pos() + 2,
                Err(e) => !old(reader).has(2) && e == eof() && *final(self) == *old(self)
                    && final(reader).pos() == old(reader).pos(),
            },
    {
        self.0 = reader.read_i16()?;
        Ok(())
    }
}

#[derive(Debug, Clone, Copy, PartialEq, Eq, Structural)]
/// _6: Signed integer type "long" in C.
pub struct FieldLongInteger(pub i32);

impl Default for FieldLongInteger {
    fn default() -> (r: Self)
        ensures
            r.0 == 0,
    {
        FieldLongInteger(0)
    }
}

impl FieldLongInteger {
    /// Whether `self` holds what the four bytes at `pos` store.
    pub open spec fn decoded_from(&self, bytes: Seq<u8>, pos: int) -> bool {
        self.0 == i32_at(bytes, pos)
    }

    /// Reads the field at the reader's position: four bytes.
    pub fn read(&mut self, reader: &mut ByteReader) -> (r: Result<()>)
        ensures
            final(reader).bytes() == old(reader).bytes(),
            match r {
                Ok(_) => old(reader).has(4) && final(self).decoded_from(
                    old(reader).bytes(),
                    old(reader).pos() as int,
                ) && final(reader).pos() == old(reader).pos() + 4,
                Err(e) => !old(reader).has(4) && e == eof() && *final(self) == *old(self)
                    && final(reader).pos() == old(reader).pos(),
            },
    {
        self.0 = reader.read_i32()?;
        Ok(())
    }
}

#[derive(Debug, Clone, Copy, PartialEq, Eq, Structural)]
/// _7: Signed integer type "__int64 (long long)" in C.
pub struct FieldInt64Integer(pub i64);

impl Default for FieldInt64Integer {
    fn default() -> (r: Self)
        ensures
            r.0 == 0,
    {
        FieldInt64Integer(0)
    }
}

impl FieldInt64Integer {
    /// Whether `self` holds what the eight bytes at `pos` store.
    pub open spec fn decoded_from(&self, bytes: Seq<u8>, pos: int) -> bool {
        self.0 == i64_at(bytes, pos)
    }

    /// Reads the field at the reader's position: eight bytes.
    pub fn read(&mut self, reader: &mut ByteReader) -> (r: Result<()>)
        ensures
            final(reader).bytes() == old(reader).bytes(),
            match r {
                Ok(_) => old(reader).has(8) && final(self).decoded_from(
                    old(reader).bytes(),
                    old(reader).pos() as int,
                ) && final(reader).pos() == old(reader).pos() + 8,
                Err(e) => !old(reader).has(8) && e == eof() && *final(self) == *old(self)
                    && final(reader).pos() == old(reader).pos(),
            },
    {
        self.0 = reader.read_i64()?;
        Ok(())
    }
}

#[derive(Debug, Clone, Copy, PartialEq, Eq, Structural)]
/// _8: An angle, held as the bits of an IEEE-754 single-precision number.
pub struct FieldAngle(pub u32);

impl Default for FieldAngle {
    fn default() -> (r: Self)
        ensures
            r.0 == 0,
    {
        FieldAngle(0)
    }
}

impl FieldAngle {
    /// Whether `self` holds what the four bytes at `pos` store.
    pub open spec fn decoded_from(&self, bytes: Seq<u8>, pos: int) -> bool {
        self.0 == u32_at(bytes, pos)
    }

    /// Reads the field at the reader's position: four bytes.
    pub fn read(&mut self, reader: &mut ByteReader) -> (r: Result<()>)
        ensures
            final(reader).bytes() == old(reader).bytes(),
            match r {
                Ok(_) => old(reader).has(4) && final(self).decoded_from(
                    old(reader).bytes(),
                    old(reader).pos() as int,
                ) && final(reader).pos() == old(reader).pos() + 4,
                Err(e) => !old(reader).has(4) && e == eof() && *final(self) == *old(self)
                    && final(reader).pos() == old(reader).pos(),
            },
    {
        self.0 = reader.read_u32()?;
        Ok(())
    }
}

#[derive(Debug, Default, Clone, PartialEq, Eq)]
/// _A: An unsigned "char" value in C used to calculate enums.
pub struct FieldCharEnum<T>(pub T);

impl<T> FieldCharEnum<T> {
    /// Reads the field at the reader's position: one byte, handed to `convert`,
    /// which says which variant the number stands for.
    ///
    /// Fails with [`TagError::NumEnumError`] where `convert` fails, and
    /// then leaves the field as it was.
    pub fn read<E, F: Fn(u8) -> core::result::Result<T, E>>(
        &mut self,
        reader: &mut ByteReader,
        convert: F,
    ) -> (r: Result<()>)
        requires
            forall|number: u8| call_requires(convert, (number,)),
        ensures
            final(reader).bytes() == old(reader).bytes(),
            !old(reader).has(1) ==> r == Err::<(), Error>(eof()) && *final(self) == *old(self)
                && final(reader).pos() == old(reader).pos(),
            old(reader).has(1) ==> {
                let number = old(reader).bytes()[old(reader).pos() as int];
                &&& final(reader).pos() == old(reader).pos() + 1
                &&& match r {
                    Ok(_) => call_ensures(
                        convert,
                        (number,),
                        Ok::<T, E>(final(self).0),
                    ),
                    Err(e) => e == Error::TagError(TagError::NumEnumError) && *final(self) == *old(self) && exists|refusal: E|
                        call_ensures(convert, (number,), Err::<T, E>(refusal)),
                }
            },
    {
        let number: u8 = reader.read_u8()?;
        match convert(number) {
            Ok(variant) => {
                self.0 = variant;
                Ok(())
            },
            Err(_) => Err(Error::TagError(TagError::NumEnumError)),
        }
    }
}

#[derive(Debug, Default, Clone, PartialEq, Eq)]
/// _B: An unsigned "short" value in C used to calculate enums.
pub struct FieldShortEnum<T>(pub T);

impl<T> FieldShortEnum<T> {
    /// Reads the field at the reader's position: two bytes, handed to `convert`,
    /// which says which variant the number stands for.
    ///
    /// Fails with [`TagError::NumEnumError`] where `convert` fails, and
    /// then leaves the field as it was.
    pub fn read<E, F: Fn(u16) -> core::result::Result<T, E>>(
        &mut self,
        reader: &mut ByteReader,
        convert: F,
    ) -> (r: Result<()>)
        requires
            forall|number: u16| call_requires(convert, (number,)),
        ensures
            final(reader).bytes() == old(reader).bytes(),
            !old(reader).has(2) ==> r == Err::<(), Error>(eof()) && *final(self) == *old(self)
                && final(reader).pos() == old(reader).pos(),
            old(reader).has(2) ==> {
                let number = u16_at(old(reader).bytes(), old(reader).pos() as int);
                &&& final(reader).pos() == old(reader).pos() + 2
                &&& match r {
                    Ok(_) => call_ensures(
                        convert,
                        (number,),
                        Ok::<T, E>(final(self).0),
                    ),
                    Err(e) => e == Error::TagError(TagError::NumEnumError) && *final(self) == *old(self) && exists|refusal: E|
                        call_ensures(convert, (number,), Err::<T, E>(refusal)),
                }
            },
    {
        let number: u16 = reader.read_u16()?;
        match convert(number) {
            Ok(variant) => {
                self.0 = variant;
                Ok(())
            },
            Err(_) => Err(Error::TagError(TagError::NumEnumError)),
        }
    }
}

#[derive(Debug, Default, Clone, PartialEq, Eq)]
/// _C: An unsigned "long" value in C used to calculate enums.
pub struct FieldLongEnum<T>(pub T);

impl<T> FieldLongEnum<T> {
    /// Reads the field at the reader's position: four bytes, handed to `convert`,
    /// which says which variant the number stands for.
    ///
    /// Fails with [`TagError::NumEnumError`] where `convert` fails, and
    /// then leaves the field as it was.
    pub fn read<E, F: Fn(u32) -> core::result::Result<T, E>>(
        &mut self,
        reader: &mut ByteReader,
        convert: F,
    ) -> (r: Result<()>)
        requires
            forall|number: u32| call_requires(convert, (number,)),
        ensures
            final(reader).bytes() == old(reader).bytes(),
            !old(reader).has(4) ==> r == Err::<(), Error>(eof()) && *final(self) == *old(self)
                && final(reader).pos() == old(reader).pos(),
            old(reader).has(4) ==> {
                let number = u32_at(old(reader).bytes(), old(reader).pos() as int);
                &&& final(reader).pos() == old(reader).pos() + 4
                &&& match r {
                    Ok(_) => call_ensures(
                        convert,
                        (number,),
                        Ok::<T, E>(final(self).0),
                    ),
                    Err(e) => e == Error::TagError(TagError::NumEnumError) && *final(self) == *old(self) && exists|refusal: E|
                        call_ensures(convert, (number,), Err::<T, E>(refusal)),
                }
            },
    {
        let number: u32 = reader.read_u32()?;
        match convert(number) {
            Ok(variant) => {
                self.0 = variant;
                Ok(())
            },
            Err(_) => Err(Error::TagError(TagError::NumEnumError)),
        }
    }
}

#[derive(Debug, Default, Clone, PartialEq, Eq)]
/// _D: An unsigned "long" value in C used to calculate bitflags.
pub struct FieldLongFlags<T>(pub T);

impl<T> FieldLongFlags<T> {
    /// Reads the field at the reader's position: four bytes, handed to
    /// `from_bits`, which makes the flags of the bits.
    pub fn read<F: Fn(u32) -> T>(&mut self, reader: &mut ByteReader, from_bits: F) -> (r: Result<
        (),
    >)
        requires
            forall|bits: u32| call_requires(from_bits, (bits,)),
        ensures
            final(reader).bytes() == old(reader).bytes(),
            match r {
                Ok(_) => old(reader).has(4) && call_ensures(
                    from_bits,
                    (u32_at(old(reader).bytes(), old(reader).pos() as int),),
                    final(self).0,
                ) && final(reader).pos() == old(reader).pos() + 4,
                Err(e) => !old(reader).has(4) && e == eof() && *final(self) == *old(self)
                    && final(reader).pos() == old(reader).pos(),
            },
    {
        let bits: u32 = reader.read_u32()?;
        self.0 = from_bits(bits);
        Ok(())
    }
}

#[derive(Debug, Default, Clone, PartialEq, Eq)]
/// _E: An unsigned "word (short)" value in C used to calculate bitflags.
pub struct FieldWordFlags<T>(pub T);

impl<T> FieldWordFlags<T> {
    /// Reads the field at the reader's position: two bytes, handed to
    /// `from_bits`, which makes the flags of the bits.
    pub fn read<F: Fn(u16) -> T>(&mut self, reader: &mut ByteReader, from_bits: F) -> (r: Result<
        (),
    >)
        requires
            forall|bits: u16| call_requires(from_bits, (bits,)),
        ensures
            final(reader).bytes() == old(reader).bytes(),
            match r {
                Ok(_) => old(reader).has(2) && call_ensures(
                    from_bits,
                    (u16_at(old(reader).bytes(), old(reader).pos() as int),),
                    final(self).0,
                ) && final(reader).pos() == old(reader).pos() + 2,
                Err(e) => !old(reader).has(2) && e == eof() && *final(self) == *old(self)
                    && final(reader).pos() == old(reader).pos(),
            },
    {
        let bits: u16 = reader.read_u16()?;
        self.0 = from_bits(bits);
        Ok(())
    }
}

#[derive(Debug, Default, Clone, PartialEq, Eq)]
/// _F: An unsigned "byte (char)" value in C used to calculate bitflags.
pub struct FieldByteFlags<T>(pub T);

impl<T> FieldByteFlags<T> {
    /// Reads the field at the reader's position: one byte, handed to
    /// `from_bits`, which makes the flags of the bits.
    pub fn read<F: Fn(u8) -> T>(&mut self, reader: &mut ByteReader, from_bits: F) -> (r: Result<
        (),
    >)
        requires
            forall|bits: u8| call_requires(from_bits, (bits,)),
        ensures
            final(reader).bytes() == old(reader).bytes(),
            match r {
                Ok(_) => old(reader).has(1) && call_ensures(
                    from_bits,
                    (old(reader).bytes()[old(reader).pos() as int],),
                    final(self).0,
                ) && final(reader).pos() == old(reader).pos() + 1,
                Err(e) => !old(reader).has(1) && e == eof() && *final(self) == *old(self)
                    && final(reader).pos() == old(reader).pos(),
            },
    {
        let bits: u8 = reader.read_u8()?;
        self.0 = from_bits(bits);
        Ok(())
    }
}

#[derive(Debug, Clone, Copy, PartialEq, Eq, Structural)]
/// _10: X and Y coordinates of a point in 2D.
pub struct FieldPoint2D {
    pub x: u16,
    pub y: u16,
}

impl Default for FieldPoint2D {
    fn default() -> (r: Self)
        ensures
            r.x == 0,
            r.y == 0,
    {
        FieldPoint2D { x: 0, y: 0 }
    }
}

impl FieldPoint2D {
    /// Whether `self` holds what the four bytes at `pos` store.
    pub open spec fn decoded_from(&self, bytes: Seq<u8>, pos: int) -> bool {
        &&& self.x == u16_at(bytes, pos)
        &&& self.y == u16_at(bytes, pos + 2)
    }

    /// Reads the field at the reader's position: four bytes.
    pub fn read(&mut self, reader: &mut ByteReader) -> (r: Result<()>)
        ensures
            final(reader).bytes() == old(reader).bytes(),
            match r {
                Ok(_) => old(reader).has(4) && final(self).decoded_from(
                    old(reader).bytes(),
                    old(reader).pos() as int,
                ) && final(reader).pos() == old(reader).pos() + 4,
                Err(e) => !old(reader).has(4) && e == eof(),
            },
    {
        self.x = reader.read_u16()?;
        self.y = reader.read_u16()?;
        Ok(())
    }
}

#[derive(Debug, Clone, Copy, PartialEq, Eq, Structural)]
/// _11:  X and Y coordinates of a rectangle in 2D.
pub struct FieldRectangle2D {
    pub x: u16,
    pub y: u16,
}

impl Default for FieldRectangle2D {
    fn default() -> (r: Self)
        ensures
            r.x == 0,
            r.y == 0,
    {
        FieldRectangle2D { x: 0, y: 0 }
    }
}

impl FieldRectangle2D {
    /// Whether `self` holds what the four bytes at `pos` store.
    pub open spec fn decoded_from(&self, bytes: Seq<u8>, pos: int) -> bool {
        &&& self.x == u16_at(bytes, pos)
        &&& self.y == u16_at(bytes, pos + 2)
    }

    /// Reads the field at the reader's position: four bytes.
    pub fn read(&mut self, reader: &mut ByteReader) -> (r: Result<()>)
        ensures
            final(reader).bytes() == old(reader).bytes(),
            match r {
                Ok(_) => old(reader).has(4) && final(self).decoded_from(
                    old(reader).bytes(),
                    old(reader).pos() as int,
                ) && final(reader).pos() == old(reader).pos() + 4,
                Err(e) => !old(reader).has(4) && e == eof(),
            },
    {
        self.x = reader.read_u16()?;
        self.y = reader.read_u16()?;
        Ok(())
    }
}

#[derive(Debug, Clone, Copy, PartialEq, Eq, Structural)]
/// _12: RGBA values of a color represented in u8.
/// Alpha value is unused.
pub struct FieldRGBColor {
    pub r: u8,
    pub g: u8,
    pub b: u8,
    pub a: u8,
}

impl Default for FieldRGBColor {
    fn default() -> (r: Self)
        ensures
            r.r == 0,
            r.g == 0,
            r.b == 0,
            r.a == 0,
    {
        FieldRGBColor { r: 0, g: 0, b: 0, a: 0 }
    }
}

impl FieldRGBColor {
    /// Whether `self` holds what the four bytes at `pos` store.
    pub open spec fn decoded_from(&self, bytes: Seq<u8>, pos: int) -> bool {
        &&& self.r == bytes[pos]
        &&& self.g == bytes[pos + 1]
        &&& self.b == bytes[pos + 2]
        &&& self.a == bytes[pos + 3]
    }

    /// Reads the field at the reader's position: four bytes.
    pub fn read(&mut self, reader: &mut ByteReader) -> (r: Result<()>)
        ensures
            final(reader).bytes() == old(reader).bytes(),
            match r {
                Ok(_) => old(reader).has(4) && final(self).decoded_from(
                    old(reader).bytes(),
                    old(reader).pos() as int,
                ) && final(reader).pos() == old(reader).pos() + 4,
                Err(e) => !old(reader).has(4) && e == eof(),
            },
    {
        self.r = reader.read_u8()?;
        self.g = reader.read_u8()?;
        self.b = reader.read_u8()?;
        self.a = reader.read_u8()?;
        Ok(())
    }
}

#[derive(Debug, Clone, Copy, PartialEq, Eq, Structural)]
/// _13: RGBA values of a color represented in u8.
pub struct FieldARGBColor {
    pub r: u8,
    pub g: u8,
    pub b: u8,
    pub a: u8,
}

impl Default for FieldARGBColor {
    fn default() -> (r: Self)
        ensures
            r.r == 0,
            r.g == 0,
            r.b == 0,
            r.a == 0,
    {
        FieldARGBColor { r: 0, g: 0, b: 0, a: 0 }
    }
}

impl FieldARGBColor {
    /// Whether `self` holds what the four bytes at `pos` store.
    pub open spec fn decoded_from(&self, bytes: Seq<u8>, pos: int) -> bool {
        &&& self.r == bytes[pos]
        &&& self.g == bytes[pos + 1]
        &&& self.b == bytes[pos + 2]
        &&& self.a == bytes[pos + 3]
    }

    /// Reads the field at the reader's position: four bytes.
    pub fn read(&mut self, reader: &mut ByteReader) -> (r: Result<()>)
        ensures
            final(reader).bytes() == old(reader).bytes(),
            match r {
                Ok(_) => old(reader).has(4) && final(self).decoded_from(
                    old(reader).bytes(),
                    old(reader).pos() as int,
                ) && final(reader).pos() == old(reader).pos() + 4,
                Err(e) => !old(reader).has(4) && e == eof(),
            },
    {
        self.r = reader.read_u8()?;
        self.g = reader.read_u8()?;
        self.b = reader.read_u8()?;
        self.a = reader.read_u8()?;
        Ok(())
    }
}

#[derive(Debug, Clone, Copy, PartialEq, Eq, Structural)]
/// _14: Real number, held as the bits of an IEEE-754 single-precision number.
pub struct FieldReal(pub u32);

impl Default for FieldReal {
    fn default() -> (r: Self)
        ensures
            r.0 == 0,
    {
        FieldReal(0)
    }
}

impl FieldReal {
    /// Whether `self` holds what the four bytes at `pos` store.
    pub open spec fn decoded_from(&self, bytes: Seq<u8>, pos: int) -> bool {
        self.0 == u32_at(bytes, pos)
    }

    /// Reads the field at the reader's position: four bytes.
    pub fn read(&mut self, reader: &mut ByteReader) -> (r: Result<()>)
        ensures
            final(reader).bytes() == old(reader).bytes(),
            match r {
                Ok(_) => old(reader).has(4) && final(self).decoded_from(
                    old(reader).bytes(),
                    old(reader).pos() as int,
                ) && final(reader).pos() == old(reader).pos() + 4,
                Err(e) => !old(reader).has(4) && e == eof() && *final(self) == *old(self)
                    && final(reader).pos() == old(reader).pos(),
            },
    {
        self.0 = reader.read_u32()?;
        Ok(())
    }
}

#[derive(Debug, Clone, Copy, PartialEq, Eq, Structural)]
/// _15: Real "fraction" value, held as the bits of an IEEE-754 single-precision number.
pub struct FieldRealFraction(pub u32);

impl Default for FieldRealFraction {
    fn default() -> (r: Self)
        ensures
            r.0 == 0,
    {
        FieldRealFraction(0)
    }
}

impl FieldRealFraction {
    /// Whether `self` holds what the four bytes at `pos` store.
    pub open spec fn decoded_from(&self, bytes: Seq<u8>, pos: int) -> bool {
        self.0 == u32_at(bytes, pos)
    }

    /// Reads the field at the reader's position: four bytes.
    pub fn read(&mut self, reader: &mut ByteReader) -> (r: Result<()>)
        ensures
            final(reader).bytes() == old(reader).bytes(),
            match r {
                Ok(_) => old(reader).has(4) && final(self).decoded_from(
                    old(reader).bytes(),
                    old(reader).pos() as int,
                ) && final(reader).pos() == old(reader).pos() + 4,
                Err(e) => !old(reader).has(4) && e == eof() && *final(self) == *old(self)
                    && final(reader).pos() == old(reader).pos(),
            },
    {
        self.0 = reader.read_u32()?;
        Ok(())
    }
}

#[derive(Debug, Clone, Copy, PartialEq, Eq, Structural)]
/// _16: X and Y coordinates of point in 2D stored as two real numbers.
/// Each is held as the bits of an IEEE-754 single-precision number.
pub struct FieldRealPoint2D {
    pub x: u32,
    pub y: u32,
}

impl Default for FieldRealPoint2D {
    fn default() -> (r: Self)
        ensures
            r.x == 0,
            r.y == 0,
    {
        FieldRealPoint2D { x: 0, y: 0 }
    }
}

impl FieldRealPoint2D {
    /// Whether `self` holds what the eight bytes at `pos` store.
    pub open spec fn decoded_from(&self, bytes: Seq<u8>, pos: int) -> bool {
        &&& self.x == u32_at(bytes, pos)
        &&& self.y == u32_at(bytes, pos + 4)
    }

    /// Reads the field at the reader's position: eight bytes.
    pub fn read(&mut self, reader: &mut ByteReader) -> (r: Result<()>)
        ensures
            final(reader).bytes() == old(reader).bytes(),
            match r {
                Ok(_) => old(reader).has(8) && final(self).decoded_from(
                    old(reader).bytes(),
                    old(reader).pos() as int,
                ) && final(reader).pos() == old(reader).pos() + 8,
                Err(e) => !old(reader).has(8) && e == eof(),
            },
    {
        self.x = reader.read_u32()?;
        self.y = reader.read_u32()?;
        Ok(())
    }
}

#[derive(Debug, Clone, Copy, PartialEq, Eq, Structural)]
/// _17: X, Y and Z coordinates of point in 3D stored as three real numbers.
/// Each is held as the bits of an IEEE-754 single-precision number.
pub struct FieldRealPoint3D {
    pub x: u32,
    pub y: u32,
    pub z: u32,
}

impl Default for FieldRealPoint3D {
    fn default() -> (r: Self)
        ensures
            r.x == 0,
            r.y == 0,
            r.z == 0,
    {
        FieldRealPoint3D { x: 0, y: 0, z: 0 }
    }
}

impl FieldRealPoint3D {
    /// Whether `self` holds what the twelve bytes at `pos` store.
    pub open spec fn decoded_from(&self, bytes: Seq<u8>, pos: int) -> bool {
        &&& self.x == u32_at(bytes, pos)
        &&& self.y == u32_at(bytes, pos + 4)
        &&& self.z == u32_at(bytes, pos + 8)
    }

    /// Reads the field at the reader's position: twelve bytes.
    pub fn read(&mut self, reader: &mut ByteReader) -> (r: Result<()>)
        ensures
            final(reader).bytes() == old(reader).bytes(),
            match r {
                Ok(_) => old(reader).has(12) && final(self).decoded_from(
                    old(reader).bytes(),
                    old(reader).pos() as int,
                ) && final(reader).pos() == old(reader).pos() + 12,
                Err(e) => !old(reader).has(12) && e == eof(),
            },
    {
        self.x = reader.read_u32()?;
        self.y = reader.read_u32()?;
        self.z = reader.read_u32()?;
        Ok(())
    }
}

#[derive(Debug, Clone, Copy, PartialEq, Eq, Structural)]
/// _18: X and Y coordinates of a vector in 2D stored as two real numbers.
/// Each is held as the bits of an IEEE-754 single-precision number.
pub struct FieldRealVector2D {
    pub x: u32,
    pub y: u32,
}

impl Default for FieldRealVector2D {
    fn default() -> (r: Self)
        ensures
            r.x == 0,
            r.y == 0,
    {
        FieldRealVector2D { x: 0, y: 0 }
    }
}

impl FieldRealVector2D {
    /// Whether `self` holds what the eight bytes at `pos` store.
    pub open spec fn decoded_from(&self, bytes: Seq<u8>, pos: int) -> bool {
        &&& self.x == u32_at(bytes, pos)
        &&& self.y == u32_at(bytes, pos + 4)
    }

    /// Reads the field at the reader's position: eight bytes.
    pub fn read(&mut self, reader: &mut ByteReader) -> (r: Result<()>)
        ensures
            final(reader).bytes() == old(reader).bytes(),
            match r {
                Ok(_) => old(reader).has(8) && final(self).decoded_from(
                    old(reader).bytes(),
                    old(reader).pos() as int,
                ) && final(reader).pos() == old(reader).pos() + 8,
                Err(e) => !old(reader).has(8) && e == eof(),
            },
    {
        self.x = reader.read_u32()?;
        self.y = reader.read_u32()?;
        Ok(())
    }
}

#[derive(Debug, Clone, Copy, PartialEq, Eq, Structural)]
/// _19: X, Y and Z coordinates of a vector in 3D stored as three real numbers.
/// Each is held as the bits of an IEEE-754 single-precision number.
pub struct FieldRealVector3D {
    pub x: u32,
    pub y: u32,
    pub z: u32,
}

impl Default for FieldRealVector3D {
    fn default() -> (r: Self)
        ensures
            r.x == 0,
            r.y == 0,
            r.z == 0,
    {
        FieldRealVector3D { x: 0, y: 0, z: 0 }
    }
}

impl FieldRealVector3D {
    /// Whether `self` holds what the twelve bytes at `pos` store.
    pub open spec fn decoded_from(&self, bytes: Seq<u8>, pos: int) -> bool {
        &&& self.x == u32_at(bytes, pos)
        &&& self.y == u32_at(bytes, pos + 4)
        &&& self.z == u32_at(bytes, pos + 8)
    }

    /// Reads the field at the reader's position: twelve bytes.
    pub fn read(&mut self, reader: &mut ByteReader) -> (r: Result<()>)
        ensures
            final(reader).bytes() == old(reader).bytes(),
            match r {
                Ok(_) => old(reader).has(12) && final(self).decoded_from(
                    old(reader).bytes(),
                    old(reader).pos() as int,
                ) && final(reader).pos() == old(reader).pos() + 12,
                Err(e) => !old(reader).has(12) && e == eof(),
            },
    {
        self.x = reader.read_u32()?;
        self.y = reader.read_u32()?;
        self.z = reader.read_u32()?;
        Ok(())
    }
}

#[derive(Debug, Clone, Copy, PartialEq, Eq, Structural)]
/// _1A: X, Y, Z and W values of a quaternion stored as four real numbers.
/// Used for rotation math.
/// Each is held as the bits of an IEEE-754 single-precision number.
pub struct FieldRealQuaternion {
    pub x: u32,
    pub y: u32,
    pub z: u32,
    pub w: u32,
}

impl Default for FieldRealQuaternion {
    fn default() -> (r: Self)
        ensures
            r.x == 0,
            r.y == 0,
            r.z == 0,
            r.w == 0,
    {
        FieldRealQuaternion { x: 0, y: 0, z: 0, w: 0 }
    }
}

impl FieldRealQuaternion {
    /// Whether `self` holds what the sixteen bytes at `pos` store.
    pub open spec fn decoded_from(&self, bytes: Seq<u8>, pos: int) -> bool {
        &&& self.x == u32_at(bytes, pos)
        &&& self.y == u32_at(bytes, pos + 4)
        &&& self.z == u32_at(bytes, pos + 8)
        &&& self.w == u32_at(bytes, pos + 12)
    }

    /// Reads the field at the reader's position: sixteen bytes.
    pub fn read(&mut self, reader: &mut ByteReader) -> (r: Result<()>)
        ensures
            final(reader).bytes() == old(reader).bytes(),
            match r {
                Ok(_) => old(reader).has(16) && final(self).decoded_from(
                    old(reader).bytes(),
                    old(reader).pos() as int,
                ) && final(reader).pos() == old(reader).pos() + 16,
                Err(e) => !old(reader).has(16) && e == eof(),
            },
    {
        self.x = reader.read_u32()?;
        self.y = reader.read_u32()?;
        self.z = reader.read_u32()?;
        self.w = reader.read_u32()?;
        Ok(())
    }
}

#[derive(Debug, Clone, Copy, PartialEq, Eq, Structural)]
/// _1B: X and Y coordinates of a euler angle in 2D stored as two real numbers.
/// Each is held as the bits of an IEEE-754 single-precision number.
pub struct FieldRealEulerAngles2D {
    pub x: u32,
    pub y: u32,
}

impl Default for FieldRealEulerAngles2D {
    fn default() -> (r: Self)
        ensures
            r.x == 0,
            r.y == 0,
    {
        FieldRealEulerAngles2D { x: 0, y: 0 }
    }
}

impl FieldRealEulerAngles2D {
    /// Whether `self` holds what the eight bytes at `pos` store.
    pub open spec fn decoded_from(&self, bytes: Seq<u8>, pos: int) -> bool {
        &&& self.x == u32_at(bytes, pos)
        &&& self.y == u32_at(bytes, pos + 4)
    }

    /// Reads the field at the reader's position: eight bytes.
    pub fn read(&mut self, reader: &mut ByteReader) -> (r: Result<()>)
        ensures
            final(reader).bytes() == old(reader).bytes(),
            match r {
                Ok(_) => old(reader).has(8) && final(self).decoded_from(
                    old(reader).bytes(),
                    old(reader).pos() as int,
                ) && final(reader).pos() == old(reader).pos() + 8,
                Err(e) => !old(reader).has(8) && e == eof(),
            },
    {
        self.x = reader.read_u32()?;
        self.y = reader.read_u32()?;
        Ok(())
    }
}

#[derive(Debug, Clone, Copy, PartialEq, Eq, Structural)]
/// _1C: X, Y and Z coordinates of a euler angle in 3D stored as three real numbers.
/// Each is held as the bits of an IEEE-754 single-precision number.
pub struct FieldRealEularAngles3D {
    pub x: u32,
    pub y: u32,
    pub z: u32,
}

impl Default for FieldRealEularAngles3D {
    fn default() -> (r: Self)
        ensures
            r.x == 0,
            r.y == 0,
            r.z == 0,
    {
        FieldRealEularAngles3D { x: 0, y: 0, z: 0 }
    }
}

impl FieldRealEularAngles3D {
    /// Whether `self` holds what the twelve bytes at `pos` store.
    pub open spec fn decoded_from(&self, bytes: Seq<u8>, pos: int) -> bool {
        &&& self.x == u32_at(bytes, pos)
        &&& self.y == u32_at(bytes, pos + 4)
        &&& self.z == u32_at(bytes, pos + 8)
    }

    /// Reads the field at the reader's position: twelve bytes.
    pub fn read(&mut self, reader: &mut ByteReader) -> (r: Result<()>)
        ensures
            final(reader).bytes() == old(reader).bytes(),
            match r {
                Ok(_) => old(reader).has(12) && final(self).decoded_from(
                    old(reader).bytes(),
                    old(reader).pos() as int,
                ) && final(reader).pos() == old(reader).pos() + 12,
                Err(e) => !old(reader).has(12) && e == eof(),
            },
    {
        self.x = reader.read_u32()?;
        self.y = reader.read_u32()?;
        self.z = reader.read_u32()?;
        Ok(())
    }
}

#[derive(Debug, Clone, Copy, PartialEq, Eq, Structural)]
/// _1D: X, Y and D values of a plane in 2D stored as three real numbers.
/// Each is held as the bits of an IEEE-754 single-precision number.
pub struct FieldRealPlane2D {
    pub x: u32,
    pub y: u32,
    pub d: u32,
}

impl Default for FieldRealPlane2D {
    fn default() -> (r: Self)
        ensures
            r.x == 0,
            r.y == 0,
            r.d == 0,
    {
        FieldRealPlane2D { x: 0, y: 0, d: 0 }
    }
}

impl FieldRealPlane2D {
    /// Whether `self` holds what the twelve bytes at `pos` store.
    pub open spec fn decoded_from(&self, bytes: Seq<u8>, pos: int) -> bool {
        &&& self.x == u32_at(bytes, pos)
        &&& self.y == u32_at(bytes, pos + 4)
        &&& self.d == u32_at(bytes, pos + 8)
    }

    /// Reads the field at the reader's position: twelve bytes.
    pub fn read(&mut self, reader: &mut ByteReader) -> (r: Result<()>)
        ensures
            final(reader).bytes() == old(reader).bytes(),
            match r {
                Ok(_) => old(reader).has(12) && final(self).decoded_from(
                    old(reader).bytes(),
                    old(reader).pos() as int,
                ) && final(reader).pos() == old(reader).pos() + 12,
                Err(e) => !old(reader).has(12) && e == eof(),
            },
    {
        self.x = reader.read_u32()?;
        self.y = reader.read_u32()?;
        self.d = reader.read_u32()?;
        Ok(())
    }
}

#[derive(Debug, Clone, Copy, PartialEq, Eq, Structural)]
/// _1E: X, Y, Z and D values of a plane in 3D stored as four real numbers.
/// Each is held as the bits of an IEEE-754 single-precision number.
pub struct FieldRealPlane3D {
    pub x: u32,
    pub y: u32,
    pub z: u32,
    pub d: u32,
}

impl Default for FieldRealPlane3D {
    fn default() -> (r: Self)
        ensures
            r.x == 0,
            r.y == 0,
            r.z == 0,
            r.d == 0,
    {
        FieldRealPlane3D { x: 0, y: 0, z: 0, d: 0 }
    }
}

impl FieldRealPlane3D {
    /// Whether `self` holds what the sixteen bytes at `pos` store.
    pub open spec fn decoded_from(&self, bytes: Seq<u8>, pos: int) -> bool {
        &&& self.x == u32_at(bytes, pos)
        &&& self.y == u32_at(bytes, pos + 4)
        &&& self.z == u32_at(bytes, pos + 8)
        &&& self.d == u32_at(bytes, pos + 12)
    }

    /// Reads the field at the reader's position: sixteen bytes.
    pub fn read(&mut self, reader: &mut ByteReader) -> (r: Result<()>)
        ensures
            final(reader).bytes() == old(reader).bytes(),
            match r {
                Ok(_) => old(reader).has(16) && final(self).decoded_from(
                    old(reader).bytes(),
                    old(reader).pos() as int,
                ) && final(reader).pos() == old(reader).pos() + 16,
                Err(e) => !old(reader).has(16) && e == eof(),
            },
    {
        self.x = reader.read_u32()?;
        self.y = reader.read_u32()?;
        self.z = reader.read_u32()?;
        self.d = reader.read_u32()?;
        Ok(())
    }
}

#[derive(Debug, Clone, Copy, PartialEq, Eq, Structural)]
/// _1F: RGB values of a color stored as three real numbers.
/// Each is held as the bits of an IEEE-754 single-precision number.
pub struct FieldRealRGBColor {
    pub r: u32,
    pub g: u32,
    pub b: u32,
}

impl Default for FieldRealRGBColor {
    fn default() -> (r: Self)
        ensures
            r.r == 0,
            r.g == 0,
            r.b == 0,
    {
        FieldRealRGBColor { r: 0, g: 0, b: 0 }
    }
}

impl FieldRealRGBColor {
    /// Whether `self` holds what the twelve bytes at `pos` store.
    pub open spec fn decoded_from(&self, bytes: Seq<u8>, pos: int) -> bool {
        &&& self.r == u32_at(bytes, pos)
        &&& self.g == u32_at(bytes, pos + 4)
        &&& self.b == u32_at(bytes, pos + 8)
    }

    /// Reads the field at the reader's position: twelve bytes.
    pub fn read(&mut self, reader: &mut ByteReader) -> (r: Result<()>)
        ensures
            final(reader).bytes() == old(reader).bytes(),
            match r {
                Ok(_) => old(reader).has(12) && final(self).decoded_from(
                    old(reader).bytes(),
                    old(reader).pos() as int,
                ) && final(reader).pos() == old(reader).pos() + 12,
                Err(e) => !old(reader).has(12) && e == eof(),
            },
    {
        self.r = reader.read_u32()?;
        self.g = reader.read_u32()?;
        self.b = reader.read_u32()?;
        Ok(())
    }
}

#[derive(Debug, Clone, Copy, PartialEq, Eq, Structural)]
/// _20: ARGB values of a color stored as four real numbers.
/// Each is held as the bits of an IEEE-754 single-precision number.
pub struct FieldRealARGBColor {
    pub a: u32,
    pub r: u32,
    pub g: u32,
    pub b: u32,
}

impl Default for FieldRealARGBColor {
    fn default() -> (r: Self)
        ensures
            r.a == 0,
            r.r == 0,
            r.g == 0,
            r.b == 0,
    {
        FieldRealARGBColor { a: 0, r: 0, g: 0, b: 0 }
    }
}

impl FieldRealARGBColor {
    /// Whether `self` holds what the sixteen bytes at `pos` store.
    pub open spec fn decoded_from(&self, bytes: Seq<u8>, pos: int) -> bool {
        &&& self.a == u32_at(bytes, pos)
        &&& self.r == u32_at(bytes, pos + 4)
        &&& self.g == u32_at(bytes, pos + 8)
        &&& self.b == u32_at(bytes, pos + 12)
    }

    /// Reads the field at the reader's position: sixteen bytes.
    pub fn read(&mut self, reader: &mut ByteReader) -> (r: Result<()>)
        ensures
            final(reader).bytes() == old(reader).bytes(),
            match r {
                Ok(_) => old(reader).has(16) && final(self).decoded_from(
                    old(reader).bytes(),
                    old(reader).pos() as int,
                ) && final(reader).pos() == old(reader).pos() + 16,
                Err(e) => !old(reader).has(16) && e == eof(),
            },
    {
        self.a = reader.read_u32()?;
        self.r = reader.read_u32()?;
        self.g = reader.read_u32()?;
        self.b = reader.read_u32()?;
        Ok(())
    }
}

#[derive(Debug, Clone, Copy, PartialEq, Eq, Structural)]
/// _21: HSV values of a color stored as a single real number, held as
/// the bits of an IEEE-754 single-precision number.
/// Unknown how the actual color is calculated
pub struct FieldRealHSVColor(pub u32);

impl Default for FieldRealHSVColor {
    fn default() -> (r: Self)
        ensures
            r.0 == 0,
    {
        FieldRealHSVColor(0)
    }
}

impl FieldRealHSVColor {
    /// Whether `self` holds what the four bytes at `pos` store.
    pub open spec fn decoded_from(&self, bytes: Seq<u8>, pos: int) -> bool {
        self.0 == u32_at(bytes, pos)
    }

    /// Reads the field at the reader's position: four bytes.
    pub fn read(&mut self, reader: &mut ByteReader) -> (r: Result<()>)
        ensures
            final(reader).bytes() == old(reader).bytes(),
            match r {
                Ok(_) => old(reader).has(4) && final(self).decoded_from(
                    old(reader).bytes(),
                    old(reader).pos() as int,
                ) && final(reader).pos() == old(reader).pos() + 4,
                Err(e) => !old(reader).has(4) && e == eof() && *final(self) == *old(self)
                    && final(reader).pos() == old(reader).pos(),
            },
    {
        self.0 = reader.read_u32()?;
        Ok(())
    }
}

#[derive(Debug, Clone, Copy, PartialEq, Eq, Structural)]
/// _22: AHSV values of a color stored as a single real number, held as
/// the bits of an IEEE-754 single-precision number.
/// Unknown how the actual color is calculated
pub struct FieldRealAHSVColor(pub u32);

impl Default for FieldRealAHSVColor {
    fn default() -> (r: Self)
        ensures
            r.0 == 0,
    {
        FieldRealAHSVColor(0)
    }
}

impl FieldRealAHSVColor {
    /// Whether `self` holds what the four bytes at `pos` store.
    pub open spec fn decoded_from(&self, bytes: Seq<u8>, pos: int) -> bool {
        self.0 == u32_at(bytes, pos)
    }

    /// Reads the field at the reader's position: four bytes.
    pub fn read(&mut self, reader: &mut ByteReader) -> (r: Result<()>)
        ensures
            final(reader).bytes() == old(reader).bytes(),
            match r {
                Ok(_) => old(reader).has(4) && final(self).decoded_from(
                    old(reader).bytes(),
                    old(reader).pos() as int,
                ) && final(reader).pos() == old(reader).pos() + 4,
                Err(e) => !old(reader).has(4) && e == eof() && *final(self) == *old(self)
                    && final(reader).pos() == old(reader).pos(),
            },
    {
        self.0 = reader.read_u32()?;
        Ok(())
    }
}

#[derive(Debug, Clone, Copy, PartialEq, Eq, Structural)]
/// _23: Minimum and Maximum bounds stored as two unsigned shorts in C (u16).
pub struct FieldShortBounds {
    pub min: u16,
    pub max: u16,
}

impl Default for FieldShortBounds {
    fn default() -> (r: Self)
        ensures
            r.min == 0,
            r.max == 0,
    {
        FieldShortBounds { min: 0, max: 0 }
    }
}

impl FieldShortBounds {
    /// Whether `self` holds what the four bytes at `pos` store.
    pub open spec fn decoded_from(&self, bytes: Seq<u8>, pos: int) -> bool {
        &&& self.min == u16_at(bytes, pos)
        &&& self.max == u16_at(bytes, pos + 2)
    }

    /// Reads the field at the reader's position: four bytes.
    pub fn read(&mut self, reader: &mut ByteReader) -> (r: Result<()>)
        ensures
            final(reader).bytes() == old(reader).bytes(),
            match r {
                Ok(_) => old(reader).has(4) && final(self).decoded_from(
                    old(reader).bytes(),
                    old(reader).pos() as int,
                ) && final(reader).pos() == old(reader).pos() + 4,
                Err(e) => !old(reader).has(4) && e == eof(),
            },
    {
        self.min = reader.read_u16()?;
        self.max = reader.read_u16()?;
        Ok(())
    }
}

#[derive(Debug, Clone, Copy, PartialEq, Eq, Structural)]
/// _24: Minimum and Maximum angles stored as two real numbers.
/// Each is held as the bits of an IEEE-754 single-precision number.
pub struct FieldAngleBounds {
    pub min: u32,
    pub max: u32,
}

impl Default for FieldAngleBounds {
    fn default() -> (r: Self)
        ensures
            r.min == 0,
            r.max == 0,
    {
        FieldAngleBounds { min: 0, max: 0 }
    }
}

impl FieldAngleBounds {
    /// Whether `self` holds what the eight bytes at `pos` store.
    pub open spec fn decoded_from(&self, bytes: Seq<u8>, pos: int) -> bool {
        &&& self.min == u32_at(bytes, pos)
        &&& self.max == u32_at(bytes, pos + 4)
    }

    /// Reads the field at the reader's position: eight bytes.
    pub fn read(&mut self, reader: &mut ByteReader) -> (r: Result<()>)
        ensures
            final(reader).bytes() == old(reader).bytes(),
            match r {
                Ok(_) => old(reader).has(8) && final(self).decoded_from(
                    old(reader).bytes(),
                    old(reader).pos() as int,
                ) && final(reader).pos() == old(reader).pos() + 8,
                Err(e) => !old(reader).has(8) && e == eof(),
            },
    {
        self.min = reader.read_u32()?;
        self.max = reader.read_u32()?;
        Ok(())
    }
}

#[derive(Debug, Clone, Copy, PartialEq, Eq, Structural)]
/// _25: Minimum and Maximum real values stored as two real numbers.
/// Each is held as the bits of an IEEE-754 single-precision number.
pub struct FieldRealBounds {
    pub min: u32,
    pub max: u32,
}

impl Default for FieldRealBounds {
    fn default() -> (r: Self)
        ensures
            r.min == 0,
            r.max == 0,
    {
        FieldRealBounds { min: 0, max: 0 }
    }
}

impl FieldRealBounds {
    /// Whether `self` holds what the eight bytes at `pos` store.
    pub open spec fn decoded_from(&self, bytes: Seq<u8>, pos: int) -> bool {
        &&& self.min == u32_at(bytes, pos)
        &&& self.max == u32_at(bytes, pos + 4)
    }

    /// Reads the field at the reader's position: eight bytes.
    pub fn read(&mut self, reader: &mut ByteReader) -> (r: Result<()>)
        ensures
            final(reader).bytes() == old(reader).bytes(),
            match r {
                Ok(_) => old(reader).has(8) && final(self).decoded_from(
                    old(reader).bytes(),
                    old(reader).pos() as int,
                ) && final(reader).pos() == old(reader).pos() + 8,
                Err(e) => !old(reader).has(8) && e == eof(),
            },
    {
        self.min = reader.read_u32()?;
        self.max = reader.read_u32()?;
        Ok(())
    }
}

#[derive(Debug, Clone, Copy, PartialEq, Eq, Structural)]
/// _26: Minimum and Maximum real fraction values stored as two real numbers.
/// Each is held as the bits of an IEEE-754 single-precision number.
pub struct FieldRealFractionBounds {
    pub min: u32,
    pub max: u32,
}

impl Default for FieldRealFractionBounds {
    fn default() -> (r: Self)
        ensures
            r.min == 0,
            r.max == 0,
    {
        FieldRealFractionBounds { min: 0, max: 0 }
    }
}

impl FieldRealFractionBounds {
    /// Whether `self` holds what the eight bytes at `pos` store.
    pub open spec fn decoded_from(&self, bytes: Seq<u8>, pos: int) -> bool {
        &&& self.min == u32_at(bytes, pos)
        &&& self.max == u32_at(bytes, pos + 4)
    }

    /// Reads the field at the reader's position: eight bytes.
    pub fn read(&mut self, reader: &mut ByteReader) -> (r: Result<()>)
        ensures
            final(reader).bytes() == old(reader).bytes(),
            match r {
                Ok(_) => old(reader).has(8) && final(self).decoded_from(
                    old(reader).bytes(),
                    old(reader).pos() as int,
                ) && final(reader).pos() == old(reader).pos() + 8,
                Err(e) => !old(reader).has(8) && e == eof(),
            },
    {
        self.min = reader.read_u32()?;
        self.max = reader.read_u32()?;
        Ok(())
    }
}

#[derive(Debug, Clone, Copy, PartialEq, Eq, Structural)]
/// _29: Long block flags, stored a 32-bit unsigned integer.
pub struct FieldLongBlockFlags(pub u32);

impl Default for FieldLongBlockFlags {
    fn default() -> (r: Self)
        ensures
            r.0 == 0,
    {
        FieldLongBlockFlags(0)
    }
}

impl FieldLongBlockFlags {
    /// Whether `self` holds what the four bytes at `pos` store.
    pub open spec fn decoded_from(&self, bytes: Seq<u8>, pos: int) -> bool {
        self.0 == u32_at(bytes, pos)
    }

    /// Reads the field at the reader's position: four bytes.
    pub fn read(&mut self, reader: &mut ByteReader) -> (r: Result<()>)
        ensures
            final(reader).bytes() == old(reader).bytes(),
            match r {
                Ok(_) => old(reader).has(4) && final(self).decoded_from(
                    old(reader).bytes(),
                    old(reader).pos() as int,
                ) && final(reader).pos() == old(reader).pos() + 4,
                Err(e) => !old(reader).has(4) && e == eof() && *final(self) == *old(self)
                    && final(reader).pos() == old(reader).pos(),
            },
    {
        self.0 = reader.read_u32()?;
        Ok(())
    }
}

#[derive(Debug, Clone, Copy, PartialEq, Eq, Structural)]
/// _2A: Word block flags, stored a 32-bit unsigned integer.
pub struct FieldWordBlockFlags(pub u32);

impl Default for FieldWordBlockFlags {
    fn default() -> (r: Self)
        ensures
            r.0 == 0,
    {
        FieldWordBlockFlags(0)
    }
}

impl FieldWordBlockFlags {
    /// Whether `self` holds what the four bytes at `pos` store.
    pub open spec fn decoded_from(&self, bytes: Seq<u8>, pos: int) -> bool {
        self.0 == u32_at(bytes, pos)
    }

    /// Reads the field at the reader's position: four bytes.
    pub fn read(&mut self, reader: &mut ByteReader) -> (r: Result<()>)
        ensures
            final(reader).bytes() == old(reader).bytes(),
            match r {
                Ok(_) => old(reader).has(4) && final(self).decoded_from(
                    old(reader).bytes(),
                    old(reader).pos() as int,
                ) && final(reader).pos() == old(reader).pos() + 4,
                Err(e) => !old(reader).has(4) && e == eof() && *final(self) == *old(self)
                    && final(reader).pos() == old(reader).pos(),
            },
    {
        self.0 = reader.read_u32()?;
        Ok(())
    }
}

#[derive(Debug, Clone, Copy, PartialEq, Eq, Structural)]
/// _2B: Byte block flags, stored a 32-bit unsigned integer.
pub struct FieldByteBlockFlags(pub u32);

impl Default for FieldByteBlockFlags {
    fn default() -> (r: Self)
        ensures
            r.0 == 0,
    {
        FieldByteBlockFlags(0)
    }
}

impl FieldByteBlockFlags {
    /// Whether `self` holds what the four bytes at `pos` store.
    pub open spec fn decoded_from(&self, bytes: Seq<u8>, pos: int) -> bool {
        self.0 == u32_at(bytes, pos)
    }

    /// Reads the field at the reader's position: four bytes.
    pub fn read(&mut self, reader: &mut ByteReader) -> (r: Result<()>)
        ensures
            final(reader).bytes() == old(reader).bytes(),
            match r {
                Ok(_) => old(reader).has(4) && final(self).decoded_from(
                    old(reader).bytes(),
                    old(reader).pos() as int,
                ) && final(reader).pos() == old(reader).pos() + 4,
                Err(e) => !old(reader).has(4) && e == eof() && *final(self) == *old(self)
                    && final(reader).pos() == old(reader).pos(),
            },
    {
        self.0 = reader.read_u32()?;
        Ok(())
    }
}

#[derive(Debug, Clone, Copy, PartialEq, Eq, Structural)]
/// _2C: Char block index, stores an 8-bit signed integer.
pub struct FieldCharBlockIndex(pub i8);

impl Default for FieldCharBlockIndex {
    fn default() -> (r: Self)
        ensures
            r.0 == 0,
    {
        FieldCharBlockIndex(0)
    }
}

impl FieldCharBlockIndex {
    /// Whether `self` holds what the byte at `pos` store.
    pub open spec fn decoded_from(&self, bytes: Seq<u8>, pos: int) -> bool {
        self.0 == i8_at(bytes, pos)
    }

    /// Reads the field at the reader's position: one byte.
    pub fn read(&mut self, reader: &mut ByteReader) -> (r: Result<()>)
        ensures
            final(reader).bytes() == old(reader).bytes(),
            match r {
                Ok(_) => old(reader).has(1) && final(self).decoded_from(
                    old(reader).bytes(),
                    old(reader).pos() as int,
                ) && final(reader).pos() == old(reader).pos() + 1,
                Err(e) => !old(reader).has(1) && e == eof() && *final(self) == *old(self)
                    && final(reader).pos() == old(reader).pos(),
            },
    {
        self.0 = reader.read_i8()?;
        Ok(())
    }
}

#[derive(Debug, Clone, Copy, PartialEq, Eq, Structural)]
/// _2D: Custom char block index, stores an 8-bit signed integer.
pub struct FieldCustomCharBlockIndex(pub i8);

impl Default for FieldCustomCharBlockIndex {
    fn default() -> (r: Self)
        ensures
            r.0 == 0,
    {
        FieldCustomCharBlockIndex(0)
    }
}

impl FieldCustomCharBlockIndex {
    /// Whether `self` holds what the byte at `pos` store.
    pub open spec fn decoded_from(&self, bytes: Seq<u8>, pos: int) -> bool {
        self.0 == i8_at(bytes, pos)
    }

    /// Reads the field at the reader's position: one byte.
    pub fn read(&mut self, reader: &mut ByteReader) -> (r: Result<()>)
        ensures
            final(reader).bytes() == old(reader).bytes(),
            match r {
                Ok(_) => old(reader).has(1) && final(self).decoded_from(
                    old(reader).bytes(),
                    old(reader).pos() as int,
                ) && final(reader).pos() == old(reader).pos() + 1,
                Err(e) => !old(reader).has(1) && e == eof() && *final(self) == *old(self)
                    && final(reader).pos() == old(reader).pos(),
            },
    {
        self.0 = reader.read_i8()?;
        Ok(())
    }
}

#[derive(Debug, Clone, Copy, PartialEq, Eq, Structural)]
/// _2E: Short block index, stores a 16-bit signed integer.
pub struct FieldShortBlockIndex(pub i16);

impl Default for FieldShortBlockIndex {
    fn default() -> (r: Self)
        ensures
            r.0 == 0,
    {
        FieldShortBlockIndex(0)
    }
}

impl FieldShortBlockIndex {
    /// Whether `self` holds what the two bytes at `pos` store.
    pub open spec fn decoded_from(&self, bytes: Seq<u8>, pos: int) -> bool {
        self.0 == i16_at(bytes, pos)
    }

    /// Reads the field at the reader's position: two bytes.
    pub fn read(&mut self, reader: &mut ByteReader) -> (r: Result<()>)
        ensures
            final(reader).bytes() == old(reader).bytes(),
            match r {
                Ok(_) => old(reader).has(2) && final(self).decoded_from(
                    old(reader).bytes(),
                    old(reader).pos() as int,
                ) && final(reader).pos() == old(reader).pos() + 2,
                Err(e) => !old(reader).has(2) && e == eof() && *final(self) == *old(self)
                    && final(reader).pos() == old(reader).pos(),
            },
    {
        self.0 = reader.read_i16()?;
        Ok(())
    }
}

#[derive(Debug, Clone, Copy, PartialEq, Eq, Structural)]
/// _2F: Custom short block index, stores a 16-bit signed integer.
pub struct FieldCustomShortBlockIndex(pub i16);

impl Default for FieldCustomShortBlockIndex {
    fn default() -> (r: Self)
        ensures
            r.0 == 0,
    {
        FieldCustomShortBlockIndex(0)
    }
}

impl FieldCustomShortBlockIndex {
    /// Whether `self` holds what the two bytes at `pos` store.
    pub open spec fn decoded_from(&self, bytes: Seq<u8>, pos: int) -> bool {
        self.0 == i16_at(bytes, pos)
    }

    /// Reads the field at the reader's position: two bytes.
    pub fn read(&mut self, reader: &mut ByteReader) -> (r: Result<()>)
        ensures
            final(reader).bytes() == old(reader).bytes(),
            match r {
                Ok(_) => old(reader).has(2) && final(self).decoded_from(
                    old(reader).bytes(),
                    old(reader).pos() as int,
                ) && final(reader).pos() == old(reader).pos() + 2,
                Err(e) => !old(reader).has(2) && e == eof() && *final(self) == *old(self)
                    && final(reader).pos() == old(reader).pos(),
            },
    {
        self.0 = reader.read_i16()?;
        Ok(())
    }
}

#[derive(Debug, Clone, Copy, PartialEq, Eq, Structural)]
/// _30: Long block index, stores a 32-bit signed integer.
pub struct FieldLongBlockIndex(pub i32);

impl Default for FieldLongBlockIndex {
    fn default() -> (r: Self)
        ensures
            r.0 == 0,
    {
        FieldLongBlockIndex(0)
    }
}

impl FieldLongBlockIndex {
    /// Whether `self` holds what the four bytes at `pos` store.
    pub open spec fn decoded_from(&self, bytes: Seq<u8>, pos: int) -> bool {
        self.0 == i32_at(bytes, pos)
    }

    /// Reads the field at the reader's position: four bytes.
    pub fn read(&mut self, reader: &mut ByteReader) -> (r: Result<()>)
        ensures
            final(reader).bytes() == old(reader).bytes(),
            match r {
                Ok(_) => old(reader).has(4) && final(self).decoded_from(
                    old(reader).bytes(),
                    old(reader).pos() as int,
                ) && final(reader).pos() == old(reader).pos() + 4,
                Err(e) => !old(reader).has(4) && e == eof() && *final(self) == *old(self)
                    && final(reader).pos() == old(reader).pos(),
            },
    {
        self.0 = reader.read_i32()?;
        Ok(())
    }
}

#[derive(Debug, Clone, Copy, PartialEq, Eq, Structural)]
/// _31: Custom long block index, stores a 32-bit signed integer.
pub struct FieldCustomLongBlockIndex(pub i32);

impl Default for FieldCustomLongBlockIndex {
    fn default() -> (r: Self)
        ensures
            r.0 == 0,
    {
        FieldCustomLongBlockIndex(0)
    }
}

impl FieldCustomLongBlockIndex {
    /// Whether `self` holds what the four bytes at `pos` store.
    pub open spec fn decoded_from(&self, bytes: Seq<u8>, pos: int) -> bool {
        self.0 == i32_at(bytes, pos)
    }

    /// Reads the field at the reader's position: four bytes.
    pub fn read(&mut self, reader: &mut ByteReader) -> (r: Result<()>)
        ensures
            final(reader).bytes() == old(reader).bytes(),
            match r {
                Ok(_) => old(reader).has(4) && final(self).decoded_from(
                    old(reader).bytes(),
                    old(reader).pos() as int,
                ) && final(reader).pos() == old(reader).pos() + 4,
                Err(e) => !old(reader).has(4) && e == eof() && *final(self) == *old(self)
                    && final(reader).pos() == old(reader).pos(),
            },
    {
        self.0 = reader.read_i32()?;
        Ok(())
    }
}

#[derive(Debug, Clone, Copy, PartialEq, Eq, Structural)]
/// _34: Padding field, no data stored.
pub struct FieldPad;

impl Default for FieldPad {
    fn default() -> (r: Self) {
        FieldPad
    }
}

impl FieldPad {
    /// Passes over `length` bytes, whether the reader holds them or not.
    pub fn read(&mut self, reader: &mut ByteReader, length: u8) -> (r: Result<()>)
        ensures
            final(reader).bytes() == old(reader).bytes(),
            if old(reader).pos() + length <= u64::MAX {
                r is Ok && final(reader).pos() == old(reader).pos() + length
            } else {
                r == Err::<(), Error>(Error::ReadError(ReadFailure::InvalidSeek)) && final(reader).pos() == old(reader).pos()
            },
    {
        reader.seek_relative(length as i64)?;
        Ok(())
    }
}

#[derive(Debug, Clone, Copy, PartialEq, Eq, Structural)]
/// _3C: Byte integer field, stores an 8-bit unsigned integer.
pub struct FieldByteInteger(pub u8);

impl Default for FieldByteInteger {
    fn default() -> (r: Self)
        ensures
            r.0 == 0,
    {
        FieldByteInteger(0)
    }
}

impl FieldByteInteger {
    /// Whether `self` holds what the byte at `pos` store.
    pub open spec fn decoded_from(&self, bytes: Seq<u8>, pos: int) -> bool {
        self.0 == bytes[pos]
    }

    /// Reads the field at the reader's position: one byte.
    pub fn read(&mut self, reader: &mut ByteReader) -> (r: Result<()>)
        ensures
            final(reader).bytes() == old(reader).bytes(),
            match r {
                Ok(_) => old(reader).has(1) && final(self).decoded_from(
                    old(reader).bytes(),
                    old(reader).pos() as int,
                ) && final(reader).pos() == old(reader).pos() + 1,
                Err(e) => !old(reader).has(1) && e == eof() && *final(self) == *old(self)
                    && final(reader).pos() == old(reader).pos(),
            },
    {
        self.0 = reader.read_u8()?;
        Ok(())
    }
}

#[derive(Debug, Clone, Copy, PartialEq, Eq, Structural)]
/// _3D: Word integer field, stores a 16-bit unsigned integer.
pub struct FieldWordInteger(pub u16);

impl Default for FieldWordInteger {
    fn default() -> (r: Self)
        ensures
            r.0 == 0,
    {
        FieldWordInteger(0)
    }
}

impl FieldWordInteger {
    /// Whether `self` holds what the two bytes at `pos` store.
    pub open spec fn decoded_from(&self, bytes: Seq<u8>, pos: int) -> bool {
        self.0 == u16_at(bytes, pos)
    }

    /// Reads the field at the reader's position: two bytes.
    pub fn read(&mut self, reader: &mut ByteReader) -> (r: Result<()>)
        ensures
            final(reader).bytes() == old(reader).bytes(),
            match r {
                Ok(_) => old(reader).has(2) && final(self).decoded_from(
                    old(reader).bytes(),
                    old(reader).pos() as int,
                ) && final(reader).pos() == old(reader).pos() + 2,
                Err(e) => !old(reader).has(2) && e == eof() && *final(self) == *old(self)
                    && final(reader).pos() == old(reader).pos(),
            },
    {
        self.0 = reader.read_u16()?;
        Ok(())
    }
}

#[derive(Debug, Clone, Copy, PartialEq, Eq, Structural)]
/// _3E: Dword integer field, stores a 32-bit unsigned integer.
pub struct FieldDwordInteger(pub u32);

impl Default for FieldDwordInteger {
    fn default() -> (r: Self)
        ensures
            r.0 == 0,
    {
        FieldDwordInteger(0)
    }
}

impl FieldDwordInteger {
    /// Whether `self` holds what the four bytes at `pos` store.
    pub open spec fn decoded_from(&self, bytes: Seq<u8>, pos: int) -> bool {
        self.0 == u32_at(bytes, pos)
    }

    /// Reads the field at the reader's position: four bytes.
    pub fn read(&mut self, reader: &mut ByteReader) -> (r: Result<()>)
        ensures
            final(reader).bytes() == old(reader).bytes(),
            match r {
                Ok(_) => old(reader).has(4) && final(self).decoded_from(
                    old(reader).bytes(),
                    old(reader).pos() as int,
                ) && final(reader).pos() == old(reader).pos() + 4,
                Err(e) => !old(reader).has(4) && e == eof() && *final(self) == *old(self)
                    && final(reader).pos() == old(reader).pos(),
            },
    {
        self.0 = reader.read_u32()?;
        Ok(())
    }
}

#[derive(Debug, Clone, Copy, PartialEq, Eq, Structural)]
/// _3F: Qword integer field, stores a 64-bit unsigned integer.
pub struct FieldQwordInteger(pub u64);

impl Default for FieldQwordInteger {
    fn default() -> (r: Self)
        ensures
            r.0 == 0,
    {
        FieldQwordInteger(0)
    }
}

impl FieldQwordInteger {
    /// Whether `self` holds what the eight bytes at `pos` store.
    pub open spec fn decoded_from(&self, bytes: Seq<u8>, pos: int) -> bool {
        self.0 == u64_at(bytes, pos)
    }

    /// Reads the field at the reader's position: eight bytes.
    pub fn read(&mut self, reader: &mut ByteReader) -> (r: Result<()>)
        ensures
            final(reader).bytes() == old(reader).bytes(),
            match r {
                Ok(_) => old(reader).has(8) && final(self).decoded_from(
                    old(reader).bytes(),
                    old(reader).pos() as int,
                ) && final(reader).pos() == old(reader).pos() + 8,
                Err(e) => !old(reader).has(8) && e == eof() && *final(self) == *old(self)
                    && final(reader).pos() == old(reader).pos(),
            },
    {
        self.0 = reader.read_u64()?;
        Ok(())
    }
}

/// What loading the first `upto` of the elements `elements` of an array
/// comes to: the elements as loading leaves them, the position at which it
/// leaves the reader, and its result. The elements are loaded one after
/// another, each as element 0 of the datablock `source_index`, at
/// `adjusted_base`, and each with the reader where the one before left it.
/// The first element that fails ends the loading with its error; the
/// elements behind it stay as they are.
pub open spec fn array_loaded<T: TagStructure>(
    elements: Seq<T>,
    source_index: i32,
    adjusted_base: u64,
    bytes: Seq<u8>,
    pos: u64,
    tag: crate::tag::loader::TagFileView,
    upto: nat,
) -> (Seq<T>, u64, Result<()>)
    decreases upto,
{
    if upto == 0 || upto > elements.len() {
        (elements, pos, Ok(()))
    } else {
        let (before, at, outcome) = array_loaded(
            elements,
            source_index,
            adjusted_base,
            bytes,
            pos,
            tag,
            (upto - 1) as nat,
        );
        match outcome {
            Err(e) => (before, at, Err(e)),
            Ok(_) => {
                let (element, end, result) = before[upto - 1].loaded(
                    source_index,
                    0,
                    adjusted_base,
                    bytes,
                    at,
                    tag,
                );
                (
                    before.update(upto - 1, element),
                    end,
                    match result {
                        Ok(_) => Ok(()),
                        Err(e) => Err(e),
                    },
                )
            },
        }
    }
}

/// An array whose loading fails after `shorter` elements is left as it is
/// then, however many more elements are to be loaded.
pub proof fn lemma_array_loading_fails_later<T: TagStructure>(
    elements: Seq<T>,
    source_index: i32,
    adjusted_base: u64,
    bytes: Seq<u8>,
    pos: u64,
    tag: crate::tag::loader::TagFileView,
    shorter: nat,
    longer: nat,
)
    requires
        shorter <= longer <= elements.len(),
        array_loaded(elements, source_index, adjusted_base, bytes, pos, tag, shorter).2 is Err,
    ensures
        array_loaded(elements, source_index, adjusted_base, bytes, pos, tag, longer)
            == array_loaded(elements, source_index, adjusted_base, bytes, pos, tag, shorter),
    decreases longer,
{
    if shorter < longer {
        lemma_array_loading_fails_later(
            elements,
            source_index,
            adjusted_base,
            bytes,
            pos,
            tag,
            shorter,
            (longer - 1) as nat,
        );
    }
}

/// _39: Array of structures stored in sequence.
#[derive(Debug)]
pub struct FieldArray<T: TagStructure + Default> {
    pub elements: Vec<T>,
}

impl<T: TagStructure + Default> Default for FieldArray<T> {
    fn default() -> (r: Self)
        ensures
            r.elements@.len() == 0,
    {
        FieldArray { elements: Vec::new() }
    }
}

impl<T: TagStructure + Default> FieldArray<T> {
    /// Reads `size` records one after another at the reader's position and
    /// appends them to the elements, as [`block_read`] says. The first
    /// record that cannot be read ends the reading with its error and is
    /// not appended.
    pub fn read(&mut self, reader: &mut ByteReader, size: u64) -> (r: Result<()>)
        ensures
            final(reader).bytes() == old(reader).bytes(),
            size == 0 ==> r is Ok,
            r is Ok ==> {
                &&& final(self).elements@.len() == old(self).elements@.len() + size
                &&& final(reader).pos() == old(reader).pos() + size * T::spec_size()
                &&& forall|i: int|
                    0 <= i < old(self).elements@.len() ==> final(self).elements@[i] == old(self).elements@[i]
                &&& forall|i: int|
                    0 <= i < size ==> (#[trigger] final(self).elements@[old(self).elements@.len()
                        + i]).decoded_from(
                        old(reader).bytes(),
                        old(reader).pos() + i * T::spec_size(),
                    )
            },
            exists|blanks: Seq<T>|
                {
                    &&& blanks.len() == size
                    &&& forall|i: int|
                        0 <= i < blanks.len() ==> call_ensures(T::default, (), #[trigger] blanks[i])
                    &&& (final(self).elements@, final(reader).pos(), r) == #[trigger] block_read(
                        old(self).elements@,
                        blanks,
                        old(reader).bytes(),
                        old(reader).pos(),
                        size as nat,
                    )
                },
    {
        let (read, Ghost(blanks)) = read_elements(&mut self.elements, size, reader);
        proof {
            assert(block_read(
                old(self).elements@,
                blanks,
                old(reader).bytes(),
                old(reader).pos(),
                size as nat,
            ) == (self.elements@, reader.pos(), read));
        }
        read
    }

    /// Loads what the fields of every element point at, one element after
    /// another, as [`array_loaded`] says. Each element is loaded as element
    /// 0 of the datablock `source_index`, at `adjusted_base`. The first
    /// element that fails ends the loading with its error.
    pub fn load_blocks(
        &mut self,
        reader: &mut ByteReader,
        source_index: i32,
        adjusted_base: u64,
        tag_file: &TagFile,
    ) -> (r: Result<()>)
        requires
            tag_file@.offsets_fit(),
        ensures
            final(reader).bytes() == old(reader).bytes(),
            final(self).elements@.len() == old(self).elements@.len(),
            old(self).elements@.len() == 0 ==> r is Ok && final(reader).pos() == old(reader).pos(),
            forall|i: int, bytes: Seq<u8>, pos: int|
                0 <= i < old(self).elements@.len() && #[trigger] old(self).elements@[i].decoded_from(
                    bytes,
                    pos,
                ) ==> final(self).elements@[i].decoded_from(bytes, pos),
            (final(self).elements@, final(reader).pos(), r) == array_loaded(
                old(self).elements@,
                source_index,
                adjusted_base,
                old(reader).bytes(),
                old(reader).pos(),
                tag_file@,
                old(self).elements@.len(),
            ),
    {
        let ghost before = self.elements@;
        let ghost bytes = reader.bytes();
        let ghost start = reader.pos();
        let count: usize = self.elements.len();
        let mut k: usize = 0;
        while k < count
            invariant
                k <= count,
                tag_file@.offsets_fit(),
                before == old(self).elements@,
                bytes == old(reader).bytes(),
                start == old(reader).pos(),
                reader.bytes() == old(reader).bytes(),
                k == 0 ==> reader.pos() == old(reader).pos(),
                self.elements@.len() == old(self).elements@.len() == count,
                forall|i: int, bytes: Seq<u8>, pos: int|
                    0 <= i < count && #[trigger] old(self).elements@[i].decoded_from(bytes, pos)
                        ==> self.elements@[i].decoded_from(bytes, pos),
                array_loaded(before, source_index, adjusted_base, bytes, start, tag_file@, k as nat)
                    == (self.elements@, reader.pos(), Ok::<(), Error>(())),
            decreases count - k,
        {
            let ghost loaded_so_far = self.elements@;
            let ghost at = reader.pos();
            let outcome: Result<()> = self.elements[k].load_field_blocks(
                source_index,
                0,
                adjusted_base,
                reader,
                tag_file,
            );
            proof {
                let model = loaded_so_far[k as int].loaded(
                    source_index,
                    0,
                    adjusted_base,
                    bytes,
                    at,
                    tag_file@,
                );
                assert(self.elements@ =~= loaded_so_far.update(k as int, model.0));
                assert(reader.pos() == model.1);
                assert(outcome == model.2);
            }
            match outcome {
                Ok(_) => {},
                Err(e) => {
                    proof {
                        lemma_array_loading_fails_later(
                            before,
                            source_index,
                            adjusted_base,
                            bytes,
                            start,
                            tag_file@,
                            (k + 1) as nat,
                            count as nat,
                        );
                    }
                    return Err(e);
                },
            }
            k = k + 1;
        }
        Ok(())
    }
}

/// _40: Tag block, stores the size of an array whose elements lie in a
/// datablock of their own.
#[derive(Debug)]
pub struct FieldBlock<T: TagStructure> {
    /// Where the field stands in the tag data.
    pub field_offset: u64,
    /// A pointer at runtime.
    pub type_info: u64,
    /// A pointer at runtime.
    pub unknown: u64,
    /// The number of elements.
    pub size: u32,
    /// The elements, once they are loaded.
    pub elements: Vec<T>,
}

impl<T: TagStructure> Default for FieldBlock<T> {
    fn default() -> (r: Self)
        ensures
            r.size == 0,
            r.elements@.len() == 0,
    {
        FieldBlock { field_offset: 0, type_info: 0, unknown: 0, size: 0, elements: Vec::new() }
    }
}

impl<T: TagStructure + Default> FieldBlock<T> {
    /// Whether the head of `self` holds what the twenty bytes at `pos`
    /// store.
    pub open spec fn decoded_from(&self, bytes: Seq<u8>, pos: int) -> bool {
        &&& self.field_offset == pos
        &&& self.type_info == u64_at(bytes, pos)
        &&& self.unknown == u64_at(bytes, pos + 8)
        &&& self.size == u32_at(bytes, pos + 16)
    }

    /// Whether `self` and `other` have the same head.
    pub open spec fn same_head(&self, other: &Self) -> bool {
        &&& self.field_offset == other.field_offset
        &&& self.type_info == other.type_info
        &&& self.unknown == other.unknown
        &&& self.size == other.size
    }

    /// Reads the head of the field at the reader's position: twenty bytes.
    /// The elements are left as they are.
    pub fn read(&mut self, reader: &mut ByteReader) -> (r: Result<()>)
        ensures
            final(reader).bytes() == old(reader).bytes(),
            final(self).elements == old(self).elements,
            match r {
                Ok(_) => old(reader).has(20) && final(self).decoded_from(
                    old(reader).bytes(),
                    old(reader).pos() as int,
                ) && final(reader).pos() == old(reader).pos() + 20,
                Err(e) => !old(reader).has(20) && e == eof(),
            },
    {
        self.field_offset = reader.stream_position();
        self.type_info = reader.read_u64()?;
        self.unknown = reader.read_u64()?;
        self.size = reader.read_u32()?;
        Ok(())
    }

    /// Loads the elements of the block, as [`block_filled`] says.
    ///
    /// A block of size 0 is left alone, and so is one whose field no struct
    /// definition roots: nothing is sought and nothing is read. Otherwise
    /// `size` records are read one after another from the target datablock
    /// and appended to the elements. Then every element loads what its own
    /// fields point at, element `i` as element `i` of the target datablock,
    /// at `i` times the size of a record. The first read or load that fails
    /// ends the loading with its error.
    pub fn load_blocks(
        &mut self,
        current_block: i32,
        collection_offset: u64,
        reader: &mut ByteReader,
        tag_file: &TagFile,
    ) -> (r: Result<()>)
        requires
            tag_file@.offsets_fit(),
        ensures
            final(reader).bytes() == old(reader).bytes(),
            final(self).same_head(old(self)),
            forall|i: int, bytes: Seq<u8>, pos: int|
                0 <= i < old(self).elements@.len() && #[trigger] old(self).elements@[i].decoded_from(
                    bytes,
                    pos,
                ) ==> i < final(self).elements@.len() && final(self).elements@[i].decoded_from(
                    bytes,
                    pos,
                ),
            match tag_file@.block_target(current_block, collection_offset) {
                Some(target) if old(self).size != 0 => {
                    &&& r is Ok ==> {
                        &&& final(self).elements@.len() == old(self).elements@.len() + old(self).size
                        &&& tag_file@.payload_position(target) + old(self).size * T::spec_size()
                            <= u64::MAX
                        &&& forall|i: int|
                            0 <= i < old(self).size ==> #[trigger] element_base(
                                T::spec_size(),
                                i as nat,
                            ) == i * T::spec_size()
                        &&& forall|i: int|
                            0 <= i < old(self).size ==> (#[trigger] final(self).elements@[old(self).elements@.len() + i]).decoded_from(
                                old(reader).bytes(),
                                tag_file@.payload_position(target) + i * T::spec_size(),
                            )
                    }
                    &&& exists|blanks: Seq<T>|
                        {
                            &&& blanks.len() == old(self).size
                            &&& forall|i: int|
                                0 <= i < blanks.len() ==> call_ensures(
                                    T::default,
                                    (),
                                    #[trigger] blanks[i],
                                )
                            &&& (final(self).elements@, final(reader).pos(), r) == #[trigger] block_filled(
                                old(self).elements@,
                                blanks,
                                target as i32,
                                old(reader).bytes(),
                                tag_file@.payload_position(target) as u64,
                                tag_file@,
                            )
                        }
                },
                _ => r is Ok && final(self).elements == old(self).elements && final(reader).pos()
                    == old(reader).pos(),
            },
    {
        // Empty blocks have no elements to look for.
        if self.size == 0 {
            return Ok(());
        }
        // The root of the tag block points to where its elements are stored.
        let root: usize = match tag_file.find_block_struct(current_block, collection_offset) {
            Some(root) => root,
            None => {
                return Ok(());
            },
        };
        let target_index: i32 = tag_file.struct_definitions[root].target_index;
        if target_index < 0 || target_index as usize >= tag_file.datablock_definitions.len() {
            return Ok(());
        }
        let offset: u64 = tag_file.payload_offset(target_index as usize);
        let size: u64 = T::default().size();
        let ghost before = self.elements@;
        let ghost bytes = reader.bytes();

        // The elements are read first, without any of their children.
        reader.seek(offset);
        let (read, Ghost(blanks)) = read_elements(&mut self.elements, self.size as u64, reader);
        match read {
            Ok(_) => {},
            Err(e) => {
                proof {
                    let target = tag_file@.block_target(current_block, collection_offset)->Some_0;
                    assert(target as i32 == target_index);
                    assert(tag_file@.payload_position(target) as u64 == offset);
                    assert(block_filled(
                        old(self).elements@,
                        blanks,
                        target as i32,
                        old(reader).bytes(),
                        tag_file@.payload_position(target) as u64,
                        tag_file@,
                    ) == (self.elements@, reader.pos(), Err::<(), Error>(e)));
                }
                return Err(e);
            },
        }
        let ghost read_elements = self.elements@;
        let ghost at = reader.pos();

        // Then the children are read, each element at its place in the datablock.
        let loaded: Result<()> = load_elements(
            &mut self.elements,
            target_index,
            size,
            reader,
            tag_file,
        );
        proof {
            let target = tag_file@.block_target(current_block, collection_offset)->Some_0;
            assert(target as i32 == target_index);
            assert(tag_file@.payload_position(target) as u64 == offset);
            assert(block_filled(
                old(self).elements@,
                blanks,
                target as i32,
                old(reader).bytes(),
                tag_file@.payload_position(target) as u64,
                tag_file@,
            ) == block_loaded(
                read_elements,
                target_index,
                size,
                bytes,
                at,
                tag_file@,
                read_elements.len(),
            ));
            assert(block_filled(
                old(self).elements@,
                blanks,
                target as i32,
                old(reader).bytes(),
                tag_file@.payload_position(target) as u64,
                tag_file@,
            ) == (self.elements@, reader.pos(), loaded));
            assert forall|i: int| 0 <= i < old(self).size implies (#[trigger] self.elements@[before.len()
                + i]).decoded_from(old(reader).bytes(), offset + i * size) by {
                assert(read_elements[before.len() + i].decoded_from(
                    old(reader).bytes(),
                    offset + i * size,
                ));
            }
            let count = old(self).size as nat;
            assert(size * count == count * size) by (nonlinear_arith);
            assert forall|i: int| 0 <= i < count implies #[trigger] element_base(size, i as nat)
                == i * size by {
                lemma_element_base_is_product(size, i as nat, count);
                assert(size * i == i * size) by (nonlinear_arith);
            }
        }
        loaded
    }
}

/// Where element number `index` of a block lies in its datablock, counted
/// in bytes from the start of the datablock: `index` times the size of a
/// record. A product that does not fit 64 bits is cut to 64 bits.
pub open spec fn element_base(size: u64, index: nat) -> u64 {
    if size * index <= u64::MAX {
        (size * index) as u64
    } else {
        size.wrapping_mul(index as u64)
    }
}

/// For the elements of a block that were read one after another, the place
/// of each in the datablock is the plain product: no element that was read
/// lies beyond the range of positions.
pub proof fn lemma_element_base_is_product(size: u64, index: nat, count: nat)
    requires
        index <= count,
        size * count <= u64::MAX,
    ensures
        element_base(size, index) == size * index,
{
    assert(size * index <= size * count) by (nonlinear_arith)
        requires
            index <= count,
    ;
}

/// What reading the first `upto` elements of a block comes to: the
/// elements with those that were read appended, the position at which the
/// reader is left, and the result. Element number `i` starts as
/// `blanks[i]` and is read where the element before it left the reader;
/// the first from `pos`. The first element that cannot be read ends the
/// reading with its error and is not appended.
pub open spec fn block_read<T: TagStructure>(
    elements: Seq<T>,
    blanks: Seq<T>,
    bytes: Seq<u8>,
    pos: u64,
    upto: nat,
) -> (Seq<T>, u64, Result<()>)
    decreases upto,
{
    if upto == 0 || upto > blanks.len() {
        (elements, pos, Ok(()))
    } else {
        let (before, at, outcome) = block_read(elements, blanks, bytes, pos, (upto - 1) as nat);
        match outcome {
            Err(e) => (before, at, Err(e)),
            Ok(_) => {
                let (element, end, result) = blanks[upto - 1].read_from(bytes, at);
                match result {
                    Err(e) => (before, end, Err(e)),
                    Ok(_) => (before.push(element), end, Ok(())),
                }
            },
        }
    }
}

/// What loading the first `upto` elements of a block comes to: the
/// elements as loading leaves them, the position at which the reader is
/// left, and the result. Element number `i` is loaded as element `i` of the
/// datablock `target_index`, at `i` times `size`, with the reader where the
/// element before it left it. The first element that fails ends the
/// loading with its error; the elements behind it stay as they are.
pub open spec fn block_loaded<T: TagStructure>(
    elements: Seq<T>,
    target_index: i32,
    size: u64,
    bytes: Seq<u8>,
    pos: u64,
    tag: crate::tag::loader::TagFileView,
    upto: nat,
) -> (Seq<T>, u64, Result<()>)
    decreases upto,
{
    if upto == 0 || upto > elements.len() {
        (elements, pos, Ok(()))
    } else {
        let (before, at, outcome) = block_loaded(
            elements,
            target_index,
            size,
            bytes,
            pos,
            tag,
            (upto - 1) as nat,
        );
        match outcome {
            Err(e) => (before, at, Err(e)),
            Ok(_) => {
                let (element, end, result) = before[upto - 1].loaded(
                    target_index,
                    (upto - 1) as nat,
                    element_base(size, (upto - 1) as nat),
                    bytes,
                    at,
                    tag,
                );
                (
                    before.update(upto - 1, element),
                    end,
                    match result {
                        Ok(_) => Ok(()),
                        Err(e) => Err(e),
                    },
                )
            },
        }
    }
}

/// What loading a block comes to whose elements lie at `offset` in the
/// datablock `target_index`: as many elements as there are `blanks` are
/// read one after another from `offset`, as [`block_read`] says, and then
/// all elements are loaded, as [`block_loaded`] says.
pub open spec fn block_filled<T: TagStructure>(
    elements: Seq<T>,
    blanks: Seq<T>,
    target_index: i32,
    bytes: Seq<u8>,
    offset: u64,
    tag: crate::tag::loader::TagFileView,
) -> (Seq<T>, u64, Result<()>) {
    let (read, at, outcome) = block_read(elements, blanks, bytes, offset, blanks.len());
    match outcome {
        Err(e) => (read, at, Err(e)),
        Ok(_) => block_loaded(read, target_index, T::spec_size(), bytes, at, tag, read.len()),
    }
}

/// Reading that fails after `shorter` elements is left as it is then,
/// however many more elements are to be read.
pub proof fn lemma_block_reading_fails_later<T: TagStructure>(
    elements: Seq<T>,
    blanks: Seq<T>,
    bytes: Seq<u8>,
    pos: u64,
    shorter: nat,
    longer: nat,
)
    requires
        shorter <= longer <= blanks.len(),
        block_read(elements, blanks, bytes, pos, shorter).2 is Err,
    ensures
        block_read(elements, blanks, bytes, pos, longer) == block_read(
            elements,
            blanks,
            bytes,
            pos,
            shorter,
        ),
    decreases longer,
{
    if shorter < longer {
        lemma_block_reading_fails_later(elements, blanks, bytes, pos, shorter, (longer - 1) as nat);
    }
}

/// Reading the first `upto` elements depends on no blank behind them.
pub proof fn lemma_block_reading_takes_the_first<T: TagStructure>(
    elements: Seq<T>,
    blanks: Seq<T>,
    others: Seq<T>,
    bytes: Seq<u8>,
    pos: u64,
    upto: nat,
)
    requires
        upto <= blanks.len(),
        upto <= others.len(),
        forall|i: int| 0 <= i < upto ==> blanks[i] == others[i],
    ensures
        block_read(elements, blanks, bytes, pos, upto) == block_read(
            elements,
            others,
            bytes,
            pos,
            upto,
        ),
    decreases upto,
{
    if upto > 0 {
        lemma_block_reading_takes_the_first(
            elements,
            blanks,
            others,
            bytes,
            pos,
            (upto - 1) as nat,
        );
    }
}

/// Loading that fails after `shorter` elements is left as it is then,
/// however many more elements are to be loaded.
pub proof fn lemma_block_loading_fails_later<T: TagStructure>(
    elements: Seq<T>,
    target_index: i32,
    size: u64,
    bytes: Seq<u8>,
    pos: u64,
    tag: crate::tag::loader::TagFileView,
    shorter: nat,
    longer: nat,
)
    requires
        shorter <= longer <= elements.len(),
        block_loaded(elements, target_index, size, bytes, pos, tag, shorter).2 is Err,
    ensures
        block_loaded(elements, target_index, size, bytes, pos, tag, longer) == block_loaded(
            elements,
            target_index,
            size,
            bytes,
            pos,
            tag,
            shorter,
        ),
    decreases longer,
{
    if shorter < longer {
        lemma_block_loading_fails_later(
            elements,
            target_index,
            size,
            bytes,
            pos,
            tag,
            shorter,
            (longer - 1) as nat,
        );
    }
}

/// Reads `count` elements one after another at the reader's position and
/// appends them to `elements`, as [`block_read`] says of the blanks that
/// the elements started as.
fn read_elements<T: TagStructure + Default>(
    elements: &mut Vec<T>,
    count: u64,
    reader: &mut ByteReader,
) -> (r: (Result<()>, Ghost<Seq<T>>))
    ensures
        final(reader).bytes() == old(reader).bytes(),
        r.1@.len() == count,
        forall|i: int| 0 <= i < count ==> call_ensures(T::default, (), #[trigger] r.1@[i]),
        (final(elements)@, final(reader).pos(), r.0) == block_read(
            old(elements)@,
            r.1@,
            old(reader).bytes(),
            old(reader).pos(),
            count as nat,
        ),
        forall|i: int|
            0 <= i < old(elements)@.len() ==> i < final(elements)@.len() && final(elements)@[i]
                == old(elements)@[i],
        r.0 is Ok ==> {
            &&& final(elements)@.len() == old(elements)@.len() + count
            &&& final(reader).pos() == old(reader).pos() + count * T::spec_size()
            &&& forall|i: int|
                0 <= i < count ==> (#[trigger] final(elements)@[old(elements)@.len()
                    + i]).decoded_from(old(reader).bytes(), old(reader).pos() + i * T::spec_size())
        },
{
    let ghost before = elements@;
    let ghost bytes = reader.bytes();
    let ghost start = reader.pos();
    let ghost mut blanks: Seq<T> = Seq::empty();
    let mut done: u64 = 0;
    while done < count
        invariant
            done <= count,
            before == old(elements)@,
            bytes == old(reader).bytes(),
            start == old(reader).pos(),
            reader.bytes() == bytes,
            reader.pos() == start + done * T::spec_size(),
            blanks.len() == done,
            forall|i: int| 0 <= i < done ==> call_ensures(T::default, (), #[trigger] blanks[i]),
            block_read(before, blanks, bytes, start, done as nat) == (
                elements@,
                reader.pos(),
                Ok::<(), Error>(()),
            ),
            elements@.len() == before.len() + done,
            forall|i: int| 0 <= i < before.len() ==> elements@[i] == before[i],
            forall|i: int|
                0 <= i < done ==> (#[trigger] elements@[before.len() + i]).decoded_from(
                    bytes,
                    start + i * T::spec_size(),
                ),
        decreases count - done,
    {
        let mut object: T = T::default();
        let ghost blank = object;
        let ghost at = reader.pos();
        let ghost longer = blanks.push(blank);
        proof {
            lemma_block_reading_takes_the_first(before, blanks, longer, bytes, start, done as nat);
        }
        match object.read(reader) {
            Ok(_) => {},
            Err(e) => {
                let ghost padded = Seq::new(
                    count as nat,
                    |i: int|
                        if i < longer.len() {
                            longer[i]
                        } else {
                            blank
                        },
                );
                proof {
                    lemma_block_reading_takes_the_first(
                        before,
                        longer,
                        padded,
                        bytes,
                        start,
                        (done + 1) as nat,
                    );
                    lemma_block_reading_fails_later(
                        before,
                        padded,
                        bytes,
                        start,
                        (done + 1) as nat,
                        count as nat,
                    );
                }
                return (Err(e), Ghost(padded));
            },
        }
        elements.push(object);
        proof {
            blanks = longer;
            assert((done + 1) * T::spec_size() == done * T::spec_size() + T::spec_size())
                by (nonlinear_arith);
        }
        done = done + 1;
    }
    (Ok(()), Ghost(blanks))
}

/// Lets every element of a block load what its own fields point at, as
/// [`block_loaded`] says: element `i` as element `i` of the datablock
/// `target_index`, at `i` times `size`.
fn load_elements<T: TagStructure>(
    elements: &mut Vec<T>,
    target_index: i32,
    size: u64,
    reader: &mut ByteReader,
    tag_file: &TagFile,
) -> (r: Result<()>)
    requires
        tag_file@.offsets_fit(),
    ensures
        final(reader).bytes() == old(reader).bytes(),
        final(elements)@.len() == old(elements)@.len(),
        forall|i: int, bytes: Seq<u8>, pos: int|
            0 <= i < old(elements)@.len() && #[trigger] old(elements)@[i].decoded_from(bytes, pos)
                ==> final(elements)@[i].decoded_from(bytes, pos),
        (final(elements)@, final(reader).pos(), r) == block_loaded(
            old(elements)@,
            target_index,
            size,
            old(reader).bytes(),
            old(reader).pos(),
            tag_file@,
            old(elements)@.len(),
        ),
{
    let ghost before = elements@;
    let ghost bytes = reader.bytes();
    let ghost start = reader.pos();
    let total: usize = elements.len();
    let mut idx: usize = 0;
    while idx < total
        invariant
            idx <= total,
            tag_file@.offsets_fit(),
            before == old(elements)@,
            bytes == old(reader).bytes(),
            start == old(reader).pos(),
            reader.bytes() == bytes,
            elements@.len() == before.len() == total,
            forall|i: int, bytes: Seq<u8>, pos: int|
                0 <= i < total && #[trigger] before[i].decoded_from(bytes, pos)
                    ==> elements@[i].decoded_from(bytes, pos),
            block_loaded(before, target_index, size, bytes, start, tag_file@, idx as nat) == (
                elements@,
                reader.pos(),
                Ok::<(), Error>(()),
            ),
        decreases total - idx,
    {
        let adjusted_base: u64 = match size.checked_mul(idx as u64) {
            Some(product) => product,
            None => size.wrapping_mul(idx as u64),
        };
        let ghost loaded_so_far = elements@;
        let ghost at = reader.pos();
        let outcome: Result<()> = elements[idx].load_field_blocks(
            target_index,
            idx,
            adjusted_base,
            reader,
            tag_file,
        );
        proof {
            assert(adjusted_base == element_base(size, idx as nat));
            let model = loaded_so_far[idx as int].loaded(
                target_index,
                idx as nat,
                adjusted_base,
                bytes,
                at,
                tag_file@,
            );
            assert(elements@ =~= loaded_so_far.update(idx as int, model.0));
            assert(reader.pos() == model.1);
            assert(outcome == model.2);
        }
        match outcome {
            Ok(_) => {},
            Err(e) => {
                proof {
                    lemma_block_loading_fails_later(
                        before,
                        target_index,
                        size,
                        bytes,
                        start,
                        tag_file@,
                        (idx + 1) as nat,
                        total as nat,
                    );
                }
                return Err(e);
            },
        }
        idx = idx + 1;
    }
    Ok(())
}

#[derive(Debug, Clone, PartialEq, Eq)]
/// _41: Reference to an external tag.
pub struct FieldReference {
    /// A pointer at runtime.
    pub type_info: u64,
    /// Global tag id of the tag referred to.
    pub global_id: i32,
    /// Asset id of the tag referred to.
    pub asset_id: u64,
    /// Tag group of the tag referred to: four characters, stored in reverse.
    pub group: String,
    /// Handle of the tag at runtime.
    pub local_handle: i32,
}

impl Default for FieldReference {
    fn default() -> (r: Self)
        ensures
            r.global_id == 0,
            r.asset_id == 0,
            r.group@.len() == 0,
    {
        FieldReference {
            type_info: 0,
            global_id: 0,
            asset_id: 0,
            group: String::new(),
            local_handle: 0,
        }
    }
}

impl FieldReference {
    /// The tag group stored in the reference at `pos`, still in stored
    /// order, or the error where its bytes are not UTF-8.
    pub open spec fn stored_group(bytes: Seq<u8>, pos: int) -> Result<Seq<char>> {
        fixed_string(bytes.subrange(pos + 20, pos + 24))
    }

    /// How reading a reference at `pos` ends.
    pub open spec fn read_outcome(bytes: Seq<u8>, pos: int) -> Result<()> {
        if pos + 24 > bytes.len() {
            Err(eof())
        } else if Self::stored_group(bytes, pos) is Err {
            Err(Error::Utf8ReadingError)
        } else if pos + 28 > bytes.len() {
            Err(eof())
        } else {
            Ok(())
        }
    }

    /// Whether `self` holds what the 28 bytes at `pos` store.
    pub open spec fn decoded_from(&self, bytes: Seq<u8>, pos: int) -> bool {
        &&& self.type_info == u64_at(bytes, pos)
        &&& self.global_id == i32_at(bytes, pos + 8)
        &&& self.asset_id == u64_at(bytes, pos + 12)
        &&& Ok::<Seq<char>, Error>(self.group@.reverse()) == Self::stored_group(bytes, pos)
        &&& self.local_handle == i32_at(bytes, pos + 24)
    }

    /// Reads the field at the reader's position: 28 bytes. The tag group is
    /// turned round.
    pub fn read(&mut self, reader: &mut ByteReader) -> (r: Result<()>)
        ensures
            final(reader).bytes() == old(reader).bytes(),
            r == Self::read_outcome(old(reader).bytes(), old(reader).pos() as int),
            r is Ok ==> final(self).decoded_from(old(reader).bytes(), old(reader).pos() as int)
                && final(reader).pos() == old(reader).pos() + 28,
    {
        let ghost bytes = reader.bytes();
        let ghost pos = reader.pos() as int;
        self.type_info = reader.read_u64()?;
        self.global_id = reader.read_i32()?;
        self.asset_id = reader.read_u64()?;
        assert(reader.has(4) ==> reader.rest().take(4) =~= bytes.subrange(pos + 20, pos + 24));
        let stored: String = reader.read_fixed_string(4)?;
        self.group = reversed(stored.as_str());
        assert(self.group@.reverse() =~= stored@);
        self.local_handle = reader.read_i32()?;
        Ok(())
    }
}

#[derive(Debug, Clone, PartialEq, Eq)]
/// _42: "External" resource inside tag.
pub struct FieldData {
    /// A pointer at runtime.
    pub data_pointer: u64,
    /// A pointer at runtime.
    pub type_info: u64,
    /// Unknown.
    pub unknown: u32,
    /// The number of bytes of the data.
    pub size: u32,
    /// The data, once it is loaded.
    pub data: Vec<u8>,
}

impl Default for FieldData {
    fn default() -> (r: Self)
        ensures
            r.size == 0,
            r.data@.len() == 0,
    {
        FieldData { data_pointer: 0, type_info: 0, unknown: 0, size: 0, data: Vec::new() }
    }
}

impl FieldData {
    /// Whether the head of `self` holds what the 24 bytes at `pos` store.
    pub open spec fn decoded_from(&self, bytes: Seq<u8>, pos: int) -> bool {
        &&& self.data_pointer == u64_at(bytes, pos)
        &&& self.type_info == u64_at(bytes, pos + 8)
        &&& self.unknown == u32_at(bytes, pos + 16)
        &&& self.size == u32_at(bytes, pos + 20)
    }

    /// Whether `self` and `other` have the same head.
    pub open spec fn same_head(&self, other: &Self) -> bool {
        &&& self.data_pointer == other.data_pointer
        &&& self.type_info == other.type_info
        &&& self.unknown == other.unknown
        &&& self.size == other.size
    }

    /// Reads the head of the field at the reader's position: 24 bytes. The
    /// data is left as it is.
    pub fn read(&mut self, reader: &mut ByteReader) -> (r: Result<()>)
        ensures
            final(reader).bytes() == old(reader).bytes(),
            final(self).data == old(self).data,
            match r {
                Ok(_) => old(reader).has(24) && final(self).decoded_from(
                    old(reader).bytes(),
                    old(reader).pos() as int,
                ) && final(reader).pos() == old(reader).pos() + 24,
                Err(e) => !old(reader).has(24) && e == eof(),
            },
    {
        self.data_pointer = reader.read_u64()?;
        self.type_info = reader.read_u64()?;
        self.unknown = reader.read_u32()?;
        self.size = reader.read_u32()?;
        Ok(())
    }

    /// Where the data of a field of `size` bytes lies, and what it is: the
    /// field is number `parent_struct_index` among the data references of
    /// the datablock `parent_index`. `Ok(None)` says that there is nothing
    /// to load: no such reference, a reference without target, or a target
    /// that is no datablock of the tag. A negative target other than -1 is
    /// an error, and so is data that reaches beyond the bytes.
    pub open spec fn referenced(
        tag: crate::tag::loader::TagFileView,
        bytes: Seq<u8>,
        parent_index: i32,
        parent_struct_index: nat,
        size: u32,
    ) -> Result<Option<Seq<u8>>> {
        let chosen = nth_reference(tag.data_references, parent_index, parent_struct_index, 0);
        if chosen >= tag.data_references.len() {
            Ok(None)
        } else {
            let target = tag.data_references[chosen].target_index;
            if target == -1 {
                Ok(None)
            } else if target < 0 {
                Err(Error::TryFromIntError)
            } else if target >= tag.datablock_definitions.len() {
                Ok(None)
            } else {
                match exact_at(
                    bytes,
                    tag.datablock_definitions[target as int].position(tag.header),
                    size as nat,
                ) {
                    Err(e) => Err(e),
                    Ok((data, end)) => Ok(Some(data)),
                }
            }
        }
    }

    /// Loads the data of the field, as [`Self::referenced`] says: `size`
    /// bytes at the start of the datablock that the field's data reference
    /// points at. The reader is put back where it was.
    pub fn load_data(
        &mut self,
        reader: &mut ByteReader,
        parent_index: i32,
        parent_struct_index: usize,
        tag_file: &TagFile,
    ) -> (r: Result<()>)
        requires
            tag_file@.offsets_fit(),
        ensures
            final(reader).bytes() == old(reader).bytes(),
            final(self).same_head(old(self)),
            match Self::referenced(
                tag_file@,
                old(reader).bytes(),
                parent_index,
                parent_struct_index as nat,
                old(self).size,
            ) {
                Ok(Some(data)) => r == Ok::<(), Error>(()) && final(self).data@ == data && final(reader).pos() == old(reader).pos(),
                Ok(None) => r == Ok::<(), Error>(()) && final(self).data@ == old(self).data@
                    && final(reader).pos() == old(reader).pos(),
                Err(e) => r == Err::<(), Error>(e) && final(self).data@ == old(self).data@,
            },
    {
        let chosen: usize = match tag_file.select_data_reference(
            parent_index,
            parent_struct_index,
        ) {
            Some(chosen) => chosen,
            None => {
                return Ok(());
            },
        };
        let target_index: i32 = tag_file.data_references[chosen].target_index;
        if target_index == -1 {
            return Ok(());
        }
        if target_index < 0 {
            return Err(Error::TryFromIntError);
        }
        if target_index as usize >= tag_file.datablock_definitions.len() {
            return Ok(());
        }
        let datablock: &crate::tag::datablock::TagDataBlock =
            &tag_file.datablock_definitions[target_index as usize];
        let position: u64 = reader.stream_position();
        reader.seek(datablock.get_offset(tag_file));
        let buf: Vec<u8> = reader.read_exact(self.size as usize)?;
        reader.seek(position);
        self.data = buf;
        Ok(())
    }
}

/// What loading a resource comes to that holds `data`: the resource as
/// loading leaves it, the position at which it leaves the reader, and its
/// result. The resource is read at `position`. Then it loads what its fields
/// point at, as element `root` of the datablock `target_index`, at the
/// start of that datablock, with the reader where reading left it. Where
/// both go well the reader is put back to `before`; the first of the two
/// that fails gives the error and leaves the reader where it is.
pub open spec fn resource_read<T: TagStructure>(
    data: T,
    bytes: Seq<u8>,
    position: u64,
    before: u64,
    tag: crate::tag::loader::TagFileView,
    target_index: i32,
    root: nat,
) -> (T, u64, Result<()>) {
    let (read, at, outcome) = data.read_from(bytes, position);
    match outcome {
        Err(e) => (read, at, Err(e)),
        Ok(_) => {
            let (loaded, end, result) = read.loaded(target_index, root, 0, bytes, at, tag);
            match result {
                Err(e) => (loaded, end, Err(e)),
                Ok(_) => (loaded, before, Ok(())),
            }
        },
    }
}

/// _43: Reference to tag resource.
#[derive(Debug)]
pub struct FieldTagResource<T: TagStructure> {
    /// A pointer at runtime.
    pub block: u64,
    /// Handle of the resource at runtime.
    pub handle: u32,
    /// Index of the resource.
    pub resource_index: u32,
    /// The resource, once it is loaded.
    pub data: T,
}

impl<T: TagStructure + Default> Default for FieldTagResource<T> {
    fn default() -> (r: Self)
        ensures
            r.resource_index == 0,
    {
        FieldTagResource { block: 0, handle: 0, resource_index: 0, data: T::default() }
    }
}

impl<T: TagStructure> FieldTagResource<T> {
    /// Whether the head of `self` holds what the sixteen bytes at `pos`
    /// store.
    pub open spec fn decoded_from(&self, bytes: Seq<u8>, pos: int) -> bool {
        &&& self.block == u64_at(bytes, pos)
        &&& self.handle == u32_at(bytes, pos + 8)
        &&& self.resource_index == u32_at(bytes, pos + 12)
    }

    /// Whether `self` and `other` have the same head.
    pub open spec fn same_head(&self, other: &Self) -> bool {
        &&& self.block == other.block
        &&& self.handle == other.handle
        &&& self.resource_index == other.resource_index
    }

    /// Reads the head of the field at the reader's position: sixteen bytes.
    /// The resource is left as it is.
    pub fn read(&mut self, reader: &mut ByteReader) -> (r: Result<()>)
        ensures
            final(reader).bytes() == old(reader).bytes(),
            final(self).data == old(self).data,
            match r {
                Ok(_) => old(reader).has(16) && final(self).decoded_from(
                    old(reader).bytes(),
                    old(reader).pos() as int,
                ) && final(reader).pos() == old(reader).pos() + 16,
                Err(e) => !old(reader).has(16) && e == eof(),
            },
    {
        self.block = reader.read_u64()?;
        self.handle = reader.read_u32()?;
        self.resource_index = reader.read_u32()?;
        Ok(())
    }

    /// Loads the resource: reads it at the start of the datablock that
    /// [`TagFileView::resource_position`](crate::tag::loader::TagFileView::resource_position) names, and lets it load what its own
    /// fields point at. The reader is put back where it was.
    pub fn load_resource(
        &mut self,
        adjusted_base: u64,
        reader: &mut ByteReader,
        tag_file: &TagFile,
    ) -> (r: Result<()>)
        requires
            tag_file@.offsets_fit(),
        ensures
            final(reader).bytes() == old(reader).bytes(),
            final(self).same_head(old(self)),
            match tag_file@.resource_position(adjusted_base) {
                Ok(Some(position)) => r is Ok ==> final(self).data.decoded_from(
                    old(reader).bytes(),
                    position,
                ) && final(reader).pos() == old(reader).pos(),
                Ok(None) => r is Ok && final(self).data == old(self).data && final(reader).pos()
                    == old(reader).pos(),
                Err(e) => r == Err::<(), Error>(e) && final(self).data == old(self).data,
            },
            tag_file@.resource_position(adjusted_base) matches Ok(Some(position)) ==> {
                let root = crate::tag::loader::first_index(
                    tag_file@.struct_definitions,
                    crate::tag::loader::roots_resource(adjusted_base),
                    0,
                );
                (final(self).data, final(reader).pos(), r) == resource_read(
                    old(self).data,
                    old(reader).bytes(),
                    position as u64,
                    old(reader).pos(),
                    tag_file@,
                    tag_file@.struct_definitions[root].target_index,
                    root as nat,
                )
            },
    {
        let root: usize = match tag_file.find_resource_struct(adjusted_base) {
            Some(root) => root,
            None => {
                return Ok(());
            },
        };
        let target_index: i32 = tag_file.struct_definitions[root].target_index;
        if target_index < 0 {
            return Err(Error::TryFromIntError);
        }
        if target_index as usize >= tag_file.datablock_definitions.len() {
            return Ok(());
        }
        let datablock: &crate::tag::datablock::TagDataBlock =
            &tag_file.datablock_definitions[target_index as usize];
        let position: u64 = reader.stream_position();
        let datablock_location: u64 = datablock.get_offset(tag_file);
        reader.seek(datablock_location);
        match self.data.read(reader) {
            Ok(_) => {},
            Err(e) => {
                return Err(e);
            },
        }
        match self.data.load_field_blocks(target_index, root, 0, reader, tag_file) {
            Ok(_) => {},
            Err(e) => {
                return Err(e);
            },
        }
        reader.seek(position);
        Ok(())
    }
}

#[derive(Debug, Clone, Copy, PartialEq, Eq, Structural)]
/// "Internal struct" of `AnyTag` field.
pub struct AnyTagGuts {
    /// Global tag id of the tag that holds the field.
    pub tag_id: i32,
    /// Handle of the tag at runtime.
    pub local_tag_handle: i32,
}

impl Default for AnyTagGuts {
    fn default() -> (r: Self)
        ensures
            r.tag_id == 0,
            r.local_tag_handle == 0,
    {
        AnyTagGuts { tag_id: 0, local_tag_handle: 0 }
    }
}

impl AnyTagGuts {
    /// Whether `self` holds what the eight bytes at `pos` store.
    pub open spec fn decoded_from(&self, bytes: Seq<u8>, pos: int) -> bool {
        &&& self.tag_id == i32_at(bytes, pos)
        &&& self.local_tag_handle == i32_at(bytes, pos + 4)
    }

    /// Reads the field at the reader's position: eight bytes.
    pub fn read(&mut self, reader: &mut ByteReader) -> (r: Result<()>)
        ensures
            final(reader).bytes() == old(reader).bytes(),
            match r {
                Ok(_) => old(reader).has(8) && final(self).decoded_from(
                    old(reader).bytes(),
                    old(reader).pos() as int,
                ) && final(reader).pos() == old(reader).pos() + 8,
                Err(e) => !old(reader).has(8) && e == eof(),
            },
    {
        self.tag_id = reader.read_i32()?;
        self.local_tag_handle = reader.read_i32()?;
        Ok(())
    }
}

#[derive(Debug, Clone, Copy, PartialEq, Eq, Structural)]
/// `AnyTag` is present in all non-resource tags.
/// Is used at runtime to calculate locations of tags in memory.
pub struct AnyTag {
    /// Room for a pointer at runtime.
    pub vtable_space: u64,
    /// The id and the handle of the tag.
    pub internal_struct: AnyTagGuts,
}

impl Default for AnyTag {
    fn default() -> (r: Self)
        ensures
            r.vtable_space == 0,
            r.internal_struct.tag_id == 0,
            r.internal_struct.local_tag_handle == 0,
    {
        AnyTag { vtable_space: 0, internal_struct: AnyTagGuts::default() }
    }
}

impl AnyTag {
    /// Whether `self` holds what the sixteen bytes at `pos` store.
    pub open spec fn decoded_from(&self, bytes: Seq<u8>, pos: int) -> bool {
        &&& self.vtable_space == u64_at(bytes, pos)
        &&& self.internal_struct.decoded_from(bytes, pos + 8)
    }

    /// Reads the field at the reader's position: sixteen bytes.
    pub fn read(&mut self, reader: &mut ByteReader) -> (r: Result<()>)
        ensures
            final(reader).bytes() == old(reader).bytes(),
            match r {
                Ok(_) => old(reader).has(16) && final(self).decoded_from(
                    old(reader).bytes(),
                    old(reader).pos() as int,
                ) && final(reader).pos() == old(reader).pos() + 16,
                Err(e) => !old(reader).has(16) && e == eof(),
            },
    {
        self.vtable_space = reader.read_u64()?;
        self.internal_struct.read(reader)?;
        Ok(())
    }
}

/// A tag structure of its own: the sixteen bytes that every main struct of
/// a tag that is no resource starts with. Reading it as the structure of a
/// tag gives the id that the tag holds of itself, whatever else the tag is
/// made of.
impl TagStructure for AnyTag {
    open spec fn spec_size() -> u64 {
        16
    }

    open spec fn decoded_from(&self, bytes: Seq<u8>, pos: int) -> bool {
        &&& self.vtable_space == u64_at(bytes, pos)
        &&& self.internal_struct.decoded_from(bytes, pos + 8)
    }

    open spec fn read_from(&self, bytes: Seq<u8>, pos: u64) -> (Self, u64, Result<()>) {
        if pos + 16 <= bytes.len() {
            (
                AnyTag {
                    vtable_space: u64_at(bytes, pos as int),
                    internal_struct: AnyTagGuts {
                        tag_id: i32_at(bytes, pos + 8),
                        local_tag_handle: i32_at(bytes, pos + 12),
                    },
                },
                (pos + 16) as u64,
                Ok(()),
            )
        } else {
            (*self, pos, Err(eof()))
        }
    }

    open spec fn loaded(
        &self,
        source_index: i32,
        parent_index: nat,
        adjusted_base: u64,
        bytes: Seq<u8>,
        pos: u64,
        tag: crate::tag::loader::TagFileView,
    ) -> (Self, u64, Result<()>) {
        (*self, pos, Ok(()))
    }

    fn size(&mut self) -> (r: u64) {
        16
    }

    /// Reads the sixteen bytes at the reader's position. Where they are
    /// not all there, nothing is read and nothing changes.
    fn read(&mut self, reader: &mut ByteReader) -> (r: Result<()>)
        ensures
            r is Ok <==> old(reader).has(16),
    {
        let total: usize = reader.len();
        let position: u64 = reader.stream_position();
        if position > total as u64 || total as u64 - position < 16 {
            return Err(Error::ReadError(ReadFailure::UnexpectedEof));
        }
        self.vtable_space = reader.read_u64()?;
        self.internal_struct.read(reader)?;
        Ok(())
    }

    fn offsets(&self) -> (r: Vec<(String, u64)>)
        ensures
            r@.len() == 2,
            r@[0].1 == 0,
            r@[1].1 == 8,
    {
        let mut pairs: Vec<(String, u64)> = Vec::new();
        pairs.push((String::from_str("vtable_space"), 0));
        pairs.push((String::from_str("internal_struct"), 8));
        pairs
    }

    fn load_field_blocks(
        &mut self,
        source_index: i32,
        parent_index: usize,
        adjusted_base: u64,
        reader: &mut ByteReader,
        tag_file: &TagFile,
    ) -> (r: Result<()>)
        ensures
            r is Ok,
            *final(self) == *old(self),
            final(reader).pos() == old(reader).pos(),
    {
        Ok(())
    }
}

/// The id that an `AnyTag` at the start of a main struct holds is the one
/// that the four bytes at offset 8 of the struct store: it agrees with the
/// tag id of a file entry exactly where those bytes store that id.
pub proof fn lemma_any_tag_id(any_tag: AnyTag, bytes: Seq<u8>, pos: int, tag_id: i32)
    requires
        any_tag.decoded_from(bytes, pos),
    ensures
        any_tag.internal_struct.tag_id == tag_id <==> i32_at(bytes, pos + 8) == tag_id,
{
}

} // verus!
