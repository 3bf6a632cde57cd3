//! The basic serializer

use vstd::prelude::*;
use crate::argument::{
    be_bytes, byte_at, calculate_argument_placement, head_bytes, lemma_one_byte,
    ArgumentPlacement,
};
use crate::common::{initial_byte, MajorType, BREAK};
use crate::error::EncodeError;
use crate::float::{float_item, single_to_double, widen_single};
use crate::item::{
    char_to_string, integer_encodable, integer_item, item_bytes, Item, ItemView,
};

verus! {

/// The basic serializer type: it writes single data items.
/// # Considerations
/// - This type is buffered, read [BasicSerializer::flush]
pub struct BasicSerializer {
    buffer: Vec<u8>,
    variants_by_index: bool,
}

impl View for BasicSerializer {
    type V = Seq<u8>;

    /// The bytes that were written and not yet handed over.
    closed spec fn view(&self) -> Seq<u8> {
        self.buffer@
    }
}

/// The byte of `value` at position `position`, position 0 being the lowest.
fn byte_of(value: u64, position: usize) -> (byte: u8)
    requires
        position < 8,
    ensures
        byte == byte_at(value, position as nat),
{
    let byte: u64 = if position == 0 {
        let low = value & 0xFF;
        assert(low == value % 256 && low < 256) by (bit_vector)
            requires
                low == value & 0xFF,
        ;
        low
    } else if position == 1 {
        let low = (value >> 8) & 0xFF;
        assert(low == (value / 0x100) % 256 && low < 256) by (bit_vector)
            requires
                low == (value >> 8) & 0xFF,
        ;
        low
    } else if position == 2 {
        let low = (value >> 16) & 0xFF;
        assert(low == (value / 0x1_0000) % 256 && low < 256) by (bit_vector)
            requires
                low == (value >> 16) & 0xFF,
        ;
        low
    } else if position == 3 {
        let low = (value >> 24) & 0xFF;
        assert(low == (value / 0x100_0000) % 256 && low < 256) by (bit_vector)
            requires
                low == (value >> 24) & 0xFF,
        ;
        low
    } else if position == 4 {
        let low = (value >> 32) & 0xFF;
        assert(low == (value / 0x1_0000_0000) % 256 && low < 256) by (bit_vector)
            requires
                low == (value >> 32) & 0xFF,
        ;
        low
    } else if position == 5 {
        let low = (value >> 40) & 0xFF;
        assert(low == (value / 0x100_0000_0000) % 256 && low < 256) by (bit_vector)
            requires
                low == (value >> 40) & 0xFF,
        ;
        low
    } else if position == 6 {
        let low = (value >> 48) & 0xFF;
        assert(low == (value / 0x1_0000_0000_0000) % 256 && low < 256) by (bit_vector)
            requires
                low == (value >> 48) & 0xFF,
        ;
        low
    } else {
        let low = (value >> 56) & 0xFF;
        assert(low == (value / 0x100_0000_0000_0000) % 256 && low < 256) by (bit_vector)
            requires
                low == (value >> 56) & 0xFF,
        ;
        low
    };
    byte as u8
}

impl BasicSerializer {
    /// Whether an enumerated variant without payload is written as its index
    /// (an unsigned integer) and not as its name (a text string).
    pub closed spec fn variants_by_index(&self) -> bool {
        self.variants_by_index
    }

    /// Construct a new basic serializer with nothing written. It writes
    /// enumerated variants by name.
    pub fn new() -> (serializer: Self)
        ensures
            serializer@ == Seq::<u8>::empty(),
            !serializer.variants_by_index(),
    {
        Self { buffer: Vec::new(), variants_by_index: false }
    }

    /// Chooses whether enumerated variants are written by index or by name.
    pub fn with_variants_by_index(self, by_index: bool) -> (serializer: Self)
        ensures
            serializer@ == self@,
            serializer.variants_by_index() == by_index,
    {
        Self { buffer: self.buffer, variants_by_index: by_index }
    }

    /// The [BasicSerializer] is buffered, this means that while you might have finished
    /// serializing data, this inner buffer holds CBOR data pending to be written
    /// to the output. This method hands over all pending data, in the order in
    /// which it was written, and leaves the buffer empty; the caller delivers
    /// the data to its destination.
    pub fn flush(&mut self) -> (pending: Vec<u8>)
        ensures
            pending@ == old(self)@,
            final(self)@ == Seq::<u8>::empty(),
            final(self).variants_by_index() == old(self).variants_by_index(),
    {
        let mut pending: Vec<u8> = Vec::new();
        std::mem::swap(&mut pending, &mut self.buffer);
        pending
    }

    /// The number of bytes pending.
    pub fn pending_len(&self) -> (len: usize)
        ensures
            len == self@.len(),
    {
        self.buffer.len()
    }

    /// Writes one byte.
    pub fn write_u8(&mut self, data: u8) -> (result: Result<(), EncodeError>)
        ensures
            result is Ok,
            final(self)@ == old(self)@.push(data),
            final(self).variants_by_index() == old(self).variants_by_index(),
    {
        self.buffer.push(data);
        Ok(())
    }

    /// Writes the two bytes of `data`, highest first.
    pub fn write_u16(&mut self, data: u16) -> (result: Result<(), EncodeError>)
        ensures
            result is Ok,
            final(self)@ == old(self)@ + be_bytes(data as u64, 2),
            final(self).variants_by_index() == old(self).variants_by_index(),
    {
        self.buffer.push(byte_of(data as u64, 1));
        self.buffer.push(byte_of(data as u64, 0));
        assert(self.buffer@ =~= old(self).buffer@ + be_bytes(data as u64, 2));
        Ok(())
    }

    /// Writes the four bytes of `data`, highest first.
    pub fn write_u32(&mut self, data: u32) -> (result: Result<(), EncodeError>)
        ensures
            result is Ok,
            final(self)@ == old(self)@ + be_bytes(data as u64, 4),
            final(self).variants_by_index() == old(self).variants_by_index(),
    {
        self.buffer.push(byte_of(data as u64, 3));
        self.buffer.push(byte_of(data as u64, 2));
        self.buffer.push(byte_of(data as u64, 1));
        self.buffer.push(byte_of(data as u64, 0));
        assert(self.buffer@ =~= old(self).buffer@ + be_bytes(data as u64, 4));
        Ok(())
    }

    /// Writes the eight bytes of `data`, highest first.
    pub fn write_u64(&mut self, data: u64) -> (result: Result<(), EncodeError>)
        ensures
            result is Ok,
            final(self)@ == old(self)@ + be_bytes(data, 8),
            final(self).variants_by_index() == old(self).variants_by_index(),
    {
        self.buffer.push(byte_of(data, 7));
        self.buffer.push(byte_of(data, 6));
        self.buffer.push(byte_of(data, 5));
        self.buffer.push(byte_of(data, 4));
        self.buffer.push(byte_of(data, 3));
        self.buffer.push(byte_of(data, 2));
        self.buffer.push(byte_of(data, 1));
        self.buffer.push(byte_of(data, 0));
        assert(self.buffer@ =~= old(self).buffer@ + be_bytes(data, 8));
        Ok(())
    }

    /// Writes the bytes of `data` as they stand.
    pub fn write_bytes(&mut self, data: &[u8]) -> (result: Result<(), EncodeError>)
        ensures
            result is Ok,
            final(self)@ == old(self)@ + data@,
            final(self).variants_by_index() == old(self).variants_by_index(),
    {
        self.buffer.extend_from_slice(data);
        Ok(())
    }

    /// Writes an unsigned integer in the smallest form that holds it.
    pub fn serialize_u8(&mut self, v: u8) -> (result: Result<(), EncodeError>)
        ensures
            result is Ok,
            final(self)@ == old(self)@ + item_bytes(ItemView::Unsigned(v as u64)),
            final(self).variants_by_index() == old(self).variants_by_index(),
    {
        proof {
            lemma_one_byte(v as u64);
        }
        if v < 24 {
            // No major type bits to add: those of an unsigned integer are zero
            let result = self.write_u8(v);
            assert(self@ =~= old(self)@ + item_bytes(ItemView::Unsigned(v as u64)));
            result
        } else {
            // 0x18 = unsigned integer in the next byte
            self.write_u8(0x18)?;
            let result = self.write_u8(v);
            assert(self@ =~= old(self)@ + item_bytes(ItemView::Unsigned(v as u64)));
            result
        }
    }

    /// Writes an unsigned integer in the smallest form that holds it.
    pub fn serialize_u16(&mut self, v: u16) -> (result: Result<(), EncodeError>)
        ensures
            result is Ok,
            final(self)@ == old(self)@ + item_bytes(ItemView::Unsigned(v as u64)),
            final(self).variants_by_index() == old(self).variants_by_index(),
    {
        if v <= u8::MAX as u16 {
            // Forward if v fits in u8
            self.serialize_u8(v as u8)
        } else {
            // 0x19 = unsigned integer in the next two bytes
            self.write_u8(0x19)?;
            let result = self.write_u16(v);
            assert(self@ =~= old(self)@ + item_bytes(ItemView::Unsigned(v as u64)));
            result
        }
    }

    /// Writes an unsigned integer in the smallest form that holds it.
    pub fn serialize_u32(&mut self, v: u32) -> (result: Result<(), EncodeError>)
        ensures
            result is Ok,
            final(self)@ == old(self)@ + item_bytes(ItemView::Unsigned(v as u64)),
            final(self).variants_by_index() == old(self).variants_by_index(),
    {
        if v <= u16::MAX as u32 {
            // Forward if v fits in u16
            self.serialize_u16(v as u16)
        } else {
            // 0x1A = unsigned integer in the next four bytes
            self.write_u8(0x1A)?;
            let result = self.write_u32(v);
            assert(self@ =~= old(self)@ + item_bytes(ItemView::Unsigned(v as u64)));
            result
        }
    }

    /// Writes an unsigned integer in the smallest form that holds it.
    pub fn serialize_u64(&mut self, v: u64) -> (result: Result<(), EncodeError>)
        ensures
            result is Ok,
            final(self)@ == old(self)@ + item_bytes(ItemView::Unsigned(v)),
            final(self).variants_by_index() == old(self).variants_by_index(),
    {
        if v <= u32::MAX as u64 {
            // Forward if v fits in u32
            self.serialize_u32(v as u32)
        } else {
            // 0x1B = unsigned integer in the next eight bytes
            self.write_u8(0x1B)?;
            let result = self.write_u64(v);
            assert(self@ =~= old(self)@ + item_bytes(ItemView::Unsigned(v)));
            result
        }
    }

    /// Writes the head of an item: the initial byte and the argument, in the
    /// smallest placement that holds it.
    pub fn write_head(&mut self, major: MajorType, argument: u64) -> (result: Result<
        (),
        EncodeError,
    >)
        ensures
            result is Ok,
            final(self)@ == old(self)@ + head_bytes(major, argument),
            final(self).variants_by_index() == old(self).variants_by_index(),
    {
        let placement = match calculate_argument_placement(argument) {
            Ok(placement) => placement,
            Err(error) => {
                return Err(error);
            },
        };
        let result = match placement {
            ArgumentPlacement::AdditionalInformation => {
                proof {
                    lemma_one_byte(argument);
                }
                self.write_u8(initial_byte(major, argument as u8))
            },
            ArgumentPlacement::NextByte => {
                proof {
                    lemma_one_byte(argument);
                }
                self.write_u8(initial_byte(major, 24))?;
                self.write_u8(argument as u8)
            },
            ArgumentPlacement::NextTwoBytes => {
                self.write_u8(initial_byte(major, 25))?;
                self.write_u16(argument as u16)
            },
            ArgumentPlacement::NextFourBytes => {
                self.write_u8(initial_byte(major, 26))?;
                self.write_u32(argument as u32)
            },
            ArgumentPlacement::NextEightBytes => {
                self.write_u8(initial_byte(major, 27))?;
                self.write_u64(argument)
            },
        };
        assert(self@ =~= old(self)@ + head_bytes(major, argument));
        result
    }

    /// Writes an integer: as an unsigned integer where it is not negative,
    /// else as a negative integer with the argument `-1 - v`.
    pub fn serialize_i64(&mut self, v: i64) -> (result: Result<(), EncodeError>)
        ensures
            result is Ok,
            final(self)@ == old(self)@ + item_bytes(integer_item(v as int)),
            final(self).variants_by_index() == old(self).variants_by_index(),
    {
        if v >= 0 {
            self.serialize_u64(v as u64)
        } else {
            self.write_head(MajorType::NegativeInteger, (-(v + 1)) as u64)
        }
    }

    /// Writes an integer, as [BasicSerializer::serialize_i64] does.
    pub fn serialize_i32(&mut self, v: i32) -> (result: Result<(), EncodeError>)
        ensures
            result is Ok,
            final(self)@ == old(self)@ + item_bytes(integer_item(v as int)),
            final(self).variants_by_index() == old(self).variants_by_index(),
    {
        self.serialize_i64(v as i64)
    }

    /// Writes an integer, as [BasicSerializer::serialize_i64] does.
    pub fn serialize_i16(&mut self, v: i16) -> (result: Result<(), EncodeError>)
        ensures
            result is Ok,
            final(self)@ == old(self)@ + item_bytes(integer_item(v as int)),
            final(self).variants_by_index() == old(self).variants_by_index(),
    {
        self.serialize_i64(v as i64)
    }

    /// Writes an integer, as [BasicSerializer::serialize_i64] does.
    pub fn serialize_i8(&mut self, v: i8) -> (result: Result<(), EncodeError>)
        ensures
            result is Ok,
            final(self)@ == old(self)@ + item_bytes(integer_item(v as int)),
            final(self).variants_by_index() == old(self).variants_by_index(),
    {
        self.serialize_i64(v as i64)
    }

    /// Writes an unsigned integer of up to 128 bits. One of 2^64 or more has
    /// no encoding: it is refused, and nothing is written.
    pub fn serialize_u128(&mut self, v: u128) -> (result: Result<(), EncodeError>)
        ensures
            integer_encodable(v as int) ==> result is Ok && final(self)@ == old(self)@
                + item_bytes(integer_item(v as int)),
            !integer_encodable(v as int) ==> (result matches Err(EncodeError::LengthOutOfBounds))
                && *final(self) == *old(self),
            final(self).variants_by_index() == old(self).variants_by_index(),
    {
        if v > u64::MAX as u128 {
            Err(EncodeError::LengthOutOfBounds)
        } else {
            self.serialize_u64(v as u64)
        }
    }

    /// Writes an integer of up to 128 bits. One whose magnitude takes more
    /// than 64 bits (below -2^64, or 2^64 and above) has no encoding: it is
    /// refused, and nothing is written.
    pub fn serialize_i128(&mut self, v: i128) -> (result: Result<(), EncodeError>)
        ensures
            integer_encodable(v as int) ==> result is Ok && final(self)@ == old(self)@
                + item_bytes(integer_item(v as int)),
            !integer_encodable(v as int) ==> (result matches Err(EncodeError::LengthOutOfBounds))
                && *final(self) == *old(self),
            final(self).variants_by_index() == old(self).variants_by_index(),
    {
        if v >= 0 {
            if v > u64::MAX as i128 {
                Err(EncodeError::LengthOutOfBounds)
            } else {
                self.serialize_u64(v as u64)
            }
        } else {
            let argument: i128 = -(v + 1);
            if argument > u64::MAX as i128 {
                Err(EncodeError::LengthOutOfBounds)
            } else {
                self.write_head(MajorType::NegativeInteger, argument as u64)
            }
        }
    }

    /// Writes a truth value: one byte, false as 20 and true as 21.
    pub fn serialize_bool(&mut self, v: bool) -> (result: Result<(), EncodeError>)
        ensures
            result is Ok,
            final(self)@ == old(self)@ + item_bytes(ItemView::Bool(v)),
            final(self).variants_by_index() == old(self).variants_by_index(),
    {
        let information: u8 = if v {
            21
        } else {
            20
        };
        let result = self.write_u8(initial_byte(MajorType::FloatOrSimple, information));
        assert(self@ =~= old(self)@ + item_bytes(ItemView::Bool(v)));
        result
    }

    /// Writes the marker of an absent value: the undefined value.
    pub fn serialize_none(&mut self) -> (result: Result<(), EncodeError>)
        ensures
            result is Ok,
            final(self)@ == old(self)@ + item_bytes(ItemView::Undefined),
            final(self).variants_by_index() == old(self).variants_by_index(),
    {
        let result = self.write_u8(initial_byte(MajorType::FloatOrSimple, 23));
        assert(self@ =~= old(self)@ + item_bytes(ItemView::Undefined));
        result
    }

    /// Writes a value that is present: the value itself, with nothing around
    /// it.
    pub fn serialize_some(&mut self, value: &Item) -> (result: Result<(), EncodeError>)
        ensures
            result is Ok,
            final(self)@ == old(self)@ + item_bytes(value@),
            final(self).variants_by_index() == old(self).variants_by_index(),
    {
        self.serialize_item(value)
    }

    /// Writes a record of one unnamed field: the value of the field, with
    /// nothing around it, whatever the name of the record.
    pub fn serialize_newtype_struct(&mut self, name: &str, value: &Item) -> (result: Result<
        (),
        EncodeError,
    >)
        ensures
            result is Ok,
            final(self)@ == old(self)@ + item_bytes(value@),
            final(self).variants_by_index() == old(self).variants_by_index(),
    {
        self.serialize_item(value)
    }

    /// Writes the unit value: null.
    pub fn serialize_unit(&mut self) -> (result: Result<(), EncodeError>)
        ensures
            result is Ok,
            final(self)@ == old(self)@ + item_bytes(ItemView::Null),
            final(self).variants_by_index() == old(self).variants_by_index(),
    {
        let result = self.write_u8(initial_byte(MajorType::FloatOrSimple, 22));
        assert(self@ =~= old(self)@ + item_bytes(ItemView::Null));
        result
    }

    /// Writes a record without fields: null, whatever its name.
    pub fn serialize_unit_struct(&mut self, name: &str) -> (result: Result<(), EncodeError>)
        ensures
            result is Ok,
            final(self)@ == old(self)@ + item_bytes(ItemView::Null),
            final(self).variants_by_index() == old(self).variants_by_index(),
    {
        self.serialize_unit()
    }

    /// Writes a byte string: the head with its length, then its bytes.
    pub fn serialize_bytes(&mut self, v: &[u8]) -> (result: Result<(), EncodeError>)
        ensures
            result is Ok,
            final(self)@ == old(self)@ + item_bytes(ItemView::Bytes(v@)),
            final(self).variants_by_index() == old(self).variants_by_index(),
    {
        self.write_head(MajorType::ByteString, v.len() as u64)?;
        let result = self.write_bytes(v);
        assert(self@ =~= old(self)@ + item_bytes(ItemView::Bytes(v@)));
        result
    }

    /// Writes a text string: the head with its length in bytes, then its
    /// bytes in UTF-8.
    pub fn serialize_str(&mut self, v: &str) -> (result: Result<(), EncodeError>)
        ensures
            result is Ok,
            final(self)@ == old(self)@ + item_bytes(ItemView::Text(v@)),
            final(self).variants_by_index() == old(self).variants_by_index(),
    {
        let bytes = v.as_bytes();
        self.write_head(MajorType::TextString, bytes.len() as u64)?;
        let result = self.write_bytes(bytes);
        assert(self@ =~= old(self)@ + item_bytes(ItemView::Text(v@)));
        result
    }

    /// Writes a character: the text string that holds it alone.
    pub fn serialize_char(&mut self, v: char) -> (result: Result<(), EncodeError>)
        ensures
            result is Ok,
            final(self)@ == old(self)@ + item_bytes(ItemView::Text(seq![v])),
            final(self).variants_by_index() == old(self).variants_by_index(),
    {
        let text = char_to_string(v);
        self.serialize_str(text.as_str())
    }

    /// Writes an enumerated variant without payload: its index as an unsigned
    /// integer, or its name as a text string, as the serializer was told.
    pub fn serialize_unit_variant(&mut self, name: &str, variant_index: u32, variant: &str) -> (result:
        Result<(), EncodeError>)
        ensures
            result is Ok,
            final(self)@ == old(self)@ + item_bytes(
                if old(self).variants_by_index() {
                    ItemView::Unsigned(variant_index as u64)
                } else {
                    ItemView::Text(variant@)
                },
            ),
            final(self).variants_by_index() == old(self).variants_by_index(),
    {
        if self.variants_by_index {
            self.serialize_u32(variant_index)
        } else {
            self.serialize_str(variant)
        }
    }

    /// Writes a number of double precision, given by its bits, in the
    /// narrowest of half, single and double precision that holds exactly
    /// that number.
    pub fn serialize_f64(&mut self, bits: u64) -> (result: Result<(), EncodeError>)
        ensures
            result is Ok,
            final(self)@ == old(self)@ + item_bytes(float_item(bits)),
            final(self).variants_by_index() == old(self).variants_by_index(),
    {
        let item = Item::float(bits);
        self.serialize_item(&item)
    }

    /// Writes a number of single precision, given by its bits, in the
    /// narrower of half and single precision that holds exactly that number.
    pub fn serialize_f32(&mut self, bits: u32) -> (result: Result<(), EncodeError>)
        ensures
            result is Ok,
            final(self)@ == old(self)@ + item_bytes(float_item(widen_single(bits))),
            final(self).variants_by_index() == old(self).variants_by_index(),
    {
        self.serialize_f64(single_to_double(bits))
    }

    /// Writes the break that ends an aggregate of indefinite length.
    pub fn serialize_break(&mut self) -> (result: Result<(), EncodeError>)
        ensures
            result is Ok,
            final(self)@ == old(self)@ + item_bytes(ItemView::Break),
            final(self).variants_by_index() == old(self).variants_by_index(),
    {
        let result = self.write_u8(BREAK);
        assert(self@ =~= old(self)@ + item_bytes(ItemView::Break));
        result
    }

    /// Writes the head that opens an aggregate or a string of the given major
    /// type: with the count where one is given, else with an indefinite length.
    pub fn serialize_opening(&mut self, major: MajorType, count: Option<u64>) -> (result: Result<
        (),
        EncodeError,
    >)
        ensures
            result is Ok,
            final(self)@ == old(self)@ + crate::item::opening_bytes(major, count),
            final(self).variants_by_index() == old(self).variants_by_index(),
    {
        match count {
            Some(count) => self.write_head(major, count),
            None => {
                let result = self.write_u8(initial_byte(major, 31));
                assert(self@ =~= old(self)@ + crate::item::opening_bytes(major, count));
                result
            },
        }
    }

    /// Writes one item, whatever its kind.
    pub fn serialize_item(&mut self, item: &Item) -> (result: Result<(), EncodeError>)
        ensures
            result is Ok,
            final(self)@ == old(self)@ + item_bytes(item@),
            final(self).variants_by_index() == old(self).variants_by_index(),
    {
        match item {
            Item::Unsigned(n) => self.serialize_u64(*n),
            Item::Negative(n) => self.write_head(MajorType::NegativeInteger, *n),
            Item::Bytes(bytes) => self.serialize_bytes(bytes.as_slice()),
            Item::Text(text) => self.serialize_str(text.as_str()),
            Item::ArrayStart(count) => self.serialize_opening(MajorType::ArrayOfItems, *count),
            Item::MapStart(count) => self.serialize_opening(MajorType::MapOfItems, *count),
            Item::Tag(tag) => self.write_head(MajorType::Tag, *tag),
            Item::Bool(b) => self.serialize_bool(*b),
            Item::Null => self.serialize_unit(),
            Item::Undefined => self.serialize_none(),
            Item::Float16(bits) => {
                self.write_u8(initial_byte(MajorType::FloatOrSimple, 25))?;
                let result = self.write_u16(*bits);
                assert(self@ =~= old(self)@ + item_bytes(item@));
                result
            },
            Item::Float32(bits) => {
                self.write_u8(initial_byte(MajorType::FloatOrSimple, 26))?;
                let result = self.write_u32(*bits);
                assert(self@ =~= old(self)@ + item_bytes(item@));
                result
            },
            Item::Float64(bits) => {
                self.write_u8(initial_byte(MajorType::FloatOrSimple, 27))?;
                let result = self.write_u64(*bits);
                assert(self@ =~= old(self)@ + item_bytes(item@));
                result
            },
            Item::Break => self.serialize_break(),
        }
    }
}

} // verus!
