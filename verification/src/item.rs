//! The data items that the codec writes and reads, and their bytes.
//!
//! An [Item] is one unit of the stream: a scalar with its payload, the head
//! that opens an aggregate, a tag, or the break. [item_bytes] says which bytes
//! stand for an item and [parse_item] which item stands at the start of some
//! bytes; [lemma_item_round_trip] ties the two together.

use vstd::prelude::*;
use vstd::utf8::{decode_utf8, encode_utf8, valid_utf8};
use crate::argument::{
    be_bytes, head_bytes, indefinite_head_bytes, parse_head, Head, lemma_be_round_trip,
    lemma_head_round_trip, lemma_indefinite_head_round_trip, ArgumentPlacement,
};
use crate::common::{spec_initial_byte, MajorType, lemma_initial_byte_parts};
use crate::error::{DecodeError, EncodeError};
use vstd::string::StrSliceExecFns;

verus! {

/// One data item of a stream.
#[derive(Clone, Debug, PartialEq, Eq)]
pub enum Item {
    /// An unsigned integer.
    Unsigned(u64),
    /// A negative integer; the number held is the argument `-1 - n` of the
    /// integer `n`.
    Negative(u64),
    /// A byte string.
    Bytes(Vec<u8>),
    /// A text string.
    Text(String),
    /// The head of an array, with the number of its elements where it is
    /// declared.
    ArrayStart(Option<u64>),
    /// The head of a map, with the number of its pairs where it is declared.
    MapStart(Option<u64>),
    /// A tag; it applies to the item that follows it.
    Tag(u64),
    /// One of the two truth values.
    Bool(bool),
    /// The null value.
    Null,
    /// The undefined, or absent, value.
    Undefined,
    /// The bits of a half-precision number.
    Float16(u16),
    /// The bits of a single-precision number.
    Float32(u32),
    /// The bits of a double-precision number.
    Float64(u64),
    /// The end of an aggregate.
    Break,
}

/// What an [Item] is to a contract: the same item, with its payload as a
/// sequence.
pub enum ItemView {
    Unsigned(u64),
    Negative(u64),
    Bytes(Seq<u8>),
    Text(Seq<char>),
    ArrayStart(Option<u64>),
    MapStart(Option<u64>),
    Tag(u64),
    Bool(bool),
    Null,
    Undefined,
    Float16(u16),
    Float32(u32),
    Float64(u64),
    Break,
}

impl View for Item {
    type V = ItemView;

    open spec fn view(&self) -> ItemView {
        match self {
            Item::Unsigned(n) => ItemView::Unsigned(*n),
            Item::Negative(n) => ItemView::Negative(*n),
            Item::Bytes(bytes) => ItemView::Bytes(bytes@),
            Item::Text(text) => ItemView::Text(text@),
            Item::ArrayStart(count) => ItemView::ArrayStart(*count),
            Item::MapStart(count) => ItemView::MapStart(*count),
            Item::Tag(tag) => ItemView::Tag(*tag),
            Item::Bool(b) => ItemView::Bool(*b),
            Item::Null => ItemView::Null,
            Item::Undefined => ItemView::Undefined,
            Item::Float16(bits) => ItemView::Float16(*bits),
            Item::Float32(bits) => ItemView::Float32(*bits),
            Item::Float64(bits) => ItemView::Float64(*bits),
            Item::Break => ItemView::Break,
        }
    }
}

impl ItemView {
    /// Whether the item can be written: the length of its payload fits in 64
    /// bits. An [Item] always can.
    pub open spec fn encodable(self) -> bool {
        match self {
            ItemView::Bytes(bytes) => bytes.len() <= u64::MAX,
            ItemView::Text(text) => encode_utf8(text).len() <= u64::MAX,
            _ => true,
        }
    }

    /// Whether the item opens an aggregate.
    pub open spec fn opens_aggregate(self) -> bool {
        self is ArrayStart || self is MapStart
    }
}

/// Whether an integer can be written: it lies between -2^64 and 2^64 - 1.
pub open spec fn integer_encodable(v: int) -> bool {
    -0x1_0000_0000_0000_0000 <= v <= 0xFFFF_FFFF_FFFF_FFFF
}

/// The item that stands for an integer: the integer itself where it is not
/// negative, else the negative item with the argument `-1 - v`.
pub open spec fn integer_item(v: int) -> ItemView {
    if v >= 0 {
        ItemView::Unsigned(v as u64)
    } else {
        ItemView::Negative((-1 - v) as u64)
    }
}

/// The bytes of a simple value or of the break: one initial byte under
/// [MajorType::FloatOrSimple].
pub open spec fn simple_bytes(information: u8) -> Seq<u8> {
    seq![spec_initial_byte(MajorType::FloatOrSimple, information)]
}

/// The bytes of the head of an aggregate or of a string with the given count,
/// or with an indefinite length where no count is given.
pub open spec fn opening_bytes(major: MajorType, count: Option<u64>) -> Seq<u8> {
    match count {
        Some(count) => head_bytes(major, count),
        None => indefinite_head_bytes(major),
    }
}

/// The bytes that stand for an item.
///
/// Integers, tags and the heads of aggregates are a head with the argument in
/// its smallest placement. A string is the head with its length in bytes, then
/// its bytes; a text string is spelled in UTF-8. Simple values are one byte
/// (false 20, true 21, null 22, undefined 23), numbers in binary floating
/// point the initial byte (25, 26, 27) and their bits, highest byte first, and
/// the break is the byte 0xFF.
pub open spec fn item_bytes(item: ItemView) -> Seq<u8> {
    match item {
        ItemView::Unsigned(n) => head_bytes(MajorType::UnsignedInteger, n),
        ItemView::Negative(n) => head_bytes(MajorType::NegativeInteger, n),
        ItemView::Bytes(bytes) => head_bytes(MajorType::ByteString, bytes.len() as u64) + bytes,
        ItemView::Text(text) => head_bytes(MajorType::TextString, encode_utf8(text).len() as u64)
            + encode_utf8(text),
        ItemView::ArrayStart(count) => opening_bytes(MajorType::ArrayOfItems, count),
        ItemView::MapStart(count) => opening_bytes(MajorType::MapOfItems, count),
        ItemView::Tag(tag) => head_bytes(MajorType::Tag, tag),
        ItemView::Bool(b) => simple_bytes(
            if b {
                21
            } else {
                20
            },
        ),
        ItemView::Null => simple_bytes(22),
        ItemView::Undefined => simple_bytes(23),
        ItemView::Float16(bits) => simple_bytes(25) + be_bytes(bits as u64, 2),
        ItemView::Float32(bits) => simple_bytes(26) + be_bytes(bits as u64, 4),
        ItemView::Float64(bits) => simple_bytes(27) + be_bytes(bits, 8),
        ItemView::Break => simple_bytes(31),
    }
}

/// The chunks of a string of indefinite length, up to and including the break
/// that ends them: the bytes of all chunks in order, and the number of bytes
/// read. Each chunk is a string of the same major type with a declared length
/// in its smallest placement. `None` where the bytes are no such run of chunks.
pub open spec fn parse_chunks(bytes: Seq<u8>, major: MajorType) -> Option<(Seq<u8>, nat)>
    decreases bytes.len(),
{
    match parse_head(bytes) {
        None => None,
        Some(head) => {
            if head.major == MajorType::FloatOrSimple && head.information == 31 {
                Some((Seq::empty(), 1))
            } else if head.major == major && !head.spec_is_indefinite() && head.spec_is_minimal()
                && head.spec_size() + head.argument <= bytes.len() {
                let end = head.spec_size() + head.argument;
                match parse_chunks(bytes.skip(end as int), major) {
                    None => None,
                    Some((more, used)) => Some(
                        (bytes.subrange(head.spec_size() as int, end as int) + more, (end + used) as nat),
                    ),
                }
            } else {
                None
            }
        },
    }
}

/// The payload of the string whose head stands at the start of `bytes`, and
/// the number of bytes that head and payload take. With a declared length the
/// payload is that many bytes after the head; with an indefinite length it is
/// what the chunks hold.
pub open spec fn parse_payload(bytes: Seq<u8>, head: Head) -> Option<(Seq<u8>, nat)> {
    if head.spec_is_indefinite() {
        match parse_chunks(bytes.skip(1), head.major) {
            None => None,
            Some((payload, used)) => Some((payload, 1 + used)),
        }
    } else if head.spec_is_minimal() && head.spec_size() + head.argument <= bytes.len() {
        Some(
            (
                bytes.subrange(head.spec_size() as int, head.spec_size() + head.argument),
                (head.spec_size() + head.argument) as nat,
            ),
        )
    } else {
        None
    }
}

/// The simple value or number that a head under [MajorType::FloatOrSimple]
/// stands for, or `None` for a simple value that this codec does not know.
pub open spec fn parse_simple(head: Head) -> Option<ItemView> {
    if head.information == 20 {
        Some(ItemView::Bool(false))
    } else if head.information == 21 {
        Some(ItemView::Bool(true))
    } else if head.information == 22 {
        Some(ItemView::Null)
    } else if head.information == 23 {
        Some(ItemView::Undefined)
    } else if head.information == 25 {
        Some(ItemView::Float16(head.argument as u16))
    } else if head.information == 26 {
        Some(ItemView::Float32(head.argument as u32))
    } else if head.information == 27 {
        Some(ItemView::Float64(head.argument))
    } else if head.information == 31 {
        Some(ItemView::Break)
    } else {
        None
    }
}

/// The head of an aggregate, a tag or an integer: the count or number that it
/// declares, `None` for an indefinite length. The argument must stand in its
/// smallest placement.
pub open spec fn parse_count(head: Head) -> Option<Option<u64>> {
    if head.spec_is_indefinite() {
        Some(None)
    } else if head.spec_is_minimal() {
        Some(Some(head.argument))
    } else {
        None
    }
}

/// The item that stands at the start of `bytes`, and the number of bytes that
/// it takes; `None` where the bytes are malformed: no head can be read, an
/// argument does not stand in its smallest placement, the input ends inside a
/// payload, a text is no UTF-8, or a simple value is unknown.
pub open spec fn parse_item(bytes: Seq<u8>) -> Option<(ItemView, nat)> {
    match parse_head(bytes) {
        None => None,
        Some(head) => match head.major {
            MajorType::UnsignedInteger => match parse_count(head) {
                Some(Some(n)) => Some((ItemView::Unsigned(n), head.spec_size())),
                _ => None,
            },
            MajorType::NegativeInteger => match parse_count(head) {
                Some(Some(n)) => Some((ItemView::Negative(n), head.spec_size())),
                _ => None,
            },
            MajorType::ByteString => match parse_payload(bytes, head) {
                Some((payload, used)) => Some((ItemView::Bytes(payload), used)),
                None => None,
            },
            MajorType::TextString => match parse_payload(bytes, head) {
                Some((payload, used)) => if valid_utf8(payload) {
                    Some((ItemView::Text(decode_utf8(payload)), used))
                } else {
                    None
                },
                None => None,
            },
            MajorType::ArrayOfItems => match parse_count(head) {
                Some(count) => Some((ItemView::ArrayStart(count), head.spec_size())),
                None => None,
            },
            MajorType::MapOfItems => match parse_count(head) {
                Some(count) => Some((ItemView::MapStart(count), head.spec_size())),
                None => None,
            },
            MajorType::Tag => match parse_count(head) {
                Some(Some(tag)) => Some((ItemView::Tag(tag), head.spec_size())),
                _ => None,
            },
            MajorType::FloatOrSimple => match parse_simple(head) {
                Some(item) => Some((item, head.spec_size())),
                None => None,
            },
        },
    }
}

/// The bytes of a number in binary floating point are read back as its bits.
proof fn lemma_bits_round_trip(information: u8, bits: u64, rest: Seq<u8>)
    requires
        information == 25 && bits <= 0xFFFF || information == 26 && bits <= 0xFFFF_FFFF
            || information == 27,
    ensures
        parse_head(
            simple_bytes(information) + be_bytes(
                bits,
                crate::argument::following_bytes(information),
            ) + rest,
        ) == Some(Head { major: MajorType::FloatOrSimple, information, argument: bits }),
{
    let width = crate::argument::following_bytes(information);
    let bytes = simple_bytes(information) + be_bytes(bits, width) + rest;
    lemma_initial_byte_parts(MajorType::FloatOrSimple, information);
    assert(bytes[0] == spec_initial_byte(MajorType::FloatOrSimple, information));
    let placement = if information == 25 {
        ArgumentPlacement::NextTwoBytes
    } else if information == 26 {
        ArgumentPlacement::NextFourBytes
    } else {
        ArgumentPlacement::NextEightBytes
    };
    lemma_be_round_trip(bits, placement);
    assert(bytes.subrange(1, 1 + width as int) =~= be_bytes(bits, width));
}

/// The bytes of a string with a declared length are read back as its payload.
proof fn lemma_payload_round_trip(major: MajorType, payload: Seq<u8>, rest: Seq<u8>)
    requires
        payload.len() <= u64::MAX,
    ensures
        ({
            let bytes = head_bytes(major, payload.len() as u64) + payload + rest;
            let head = Head {
                major,
                information: crate::argument::placement_of(
                    payload.len() as u64,
                ).spec_information(payload.len() as u64),
                argument: payload.len() as u64,
            };
            &&& parse_head(bytes) == Some(head)
            &&& parse_payload(bytes, head) == Some(
                (payload, (head_bytes(major, payload.len() as u64) + payload).len()),
            )
        }),
{
    let written = head_bytes(major, payload.len() as u64);
    let bytes = written + payload + rest;
    assert(bytes =~= written + (payload + rest));
    lemma_head_round_trip(major, payload.len() as u64, payload + rest);
    assert(bytes.subrange(written.len() as int, (written.len() + payload.len()) as int)
        =~= payload);
}

/// What was written for an item is read back as that item, whatever follows
/// it, and the reading takes exactly the bytes that were written.
pub proof fn lemma_item_round_trip(item: ItemView, rest: Seq<u8>)
    requires
        item.encodable(),
    ensures
        parse_item(item_bytes(item) + rest) == Some((item, item_bytes(item).len())),
{
    let bytes = item_bytes(item) + rest;
    match item {
        ItemView::Unsigned(n) => {
            lemma_head_round_trip(MajorType::UnsignedInteger, n, rest);
        },
        ItemView::Negative(n) => {
            lemma_head_round_trip(MajorType::NegativeInteger, n, rest);
        },
        ItemView::Bytes(payload) => {
            lemma_payload_round_trip(MajorType::ByteString, payload, rest);
        },
        ItemView::Text(text) => {
            let payload = encode_utf8(text);
            lemma_payload_round_trip(MajorType::TextString, payload, rest);
            assert(valid_utf8(payload)) by {
                vstd::utf8::encode_utf8_valid_utf8(text);
            }
            assert(decode_utf8(payload) == text) by {
                vstd::utf8::encode_utf8_decode_utf8(text);
            }
        },
        ItemView::ArrayStart(count) => {
            match count {
                Some(n) => lemma_head_round_trip(MajorType::ArrayOfItems, n, rest),
                None => lemma_indefinite_head_round_trip(MajorType::ArrayOfItems, rest),
            }
        },
        ItemView::MapStart(count) => {
            match count {
                Some(n) => lemma_head_round_trip(MajorType::MapOfItems, n, rest),
                None => lemma_indefinite_head_round_trip(MajorType::MapOfItems, rest),
            }
        },
        ItemView::Tag(tag) => {
            lemma_head_round_trip(MajorType::Tag, tag, rest);
        },
        ItemView::Bool(b) => {
            let information: u8 = if b {
                21
            } else {
                20
            };
            lemma_initial_byte_parts(MajorType::FloatOrSimple, information);
            assert(bytes[0] == spec_initial_byte(MajorType::FloatOrSimple, information));
        },
        ItemView::Null => {
            lemma_initial_byte_parts(MajorType::FloatOrSimple, 22);
            assert(bytes[0] == spec_initial_byte(MajorType::FloatOrSimple, 22));
        },
        ItemView::Undefined => {
            lemma_initial_byte_parts(MajorType::FloatOrSimple, 23);
            assert(bytes[0] == spec_initial_byte(MajorType::FloatOrSimple, 23));
        },
        ItemView::Float16(bits) => {
            lemma_bits_round_trip(25, bits as u64, rest);
        },
        ItemView::Float32(bits) => {
            lemma_bits_round_trip(26, bits as u64, rest);
        },
        ItemView::Float64(bits) => {
            lemma_bits_round_trip(27, bits, rest);
        },
        ItemView::Break => {
            lemma_indefinite_head_round_trip(MajorType::FloatOrSimple, rest);
        },
    }
}

impl ItemView {
    /// The integer that the item stands for, where it is an integer: the
    /// number of an unsigned item, and `-1 - n` for the argument `n` of a
    /// negative one.
    pub open spec fn integer_value(self) -> Option<int> {
        match self {
            ItemView::Unsigned(n) => Some(n as int),
            ItemView::Negative(n) => Some(-1 - n),
            _ => None,
        }
    }
}

/// The integer of an item for a receiver that takes the integers from `min`
/// to `max`: a mismatch where the item is no integer, an overflow where its
/// integer lies outside.
pub open spec fn narrowed(item: ItemView, min: int, max: int) -> Result<int, DecodeError> {
    match item.integer_value() {
        None => Err(DecodeError::TypeMismatch),
        Some(v) => if min <= v <= max {
            Ok(v)
        } else {
            Err(DecodeError::Overflow)
        },
    }
}

/// Sign folding is undone by reading: the item of an integer stands for that
/// integer.
pub proof fn lemma_integer_round_trip(v: int)
    requires
        integer_encodable(v),
    ensures
        integer_item(v).integer_value() == Some(v),
        integer_item(v).encodable(),
{
}

/// `char::to_string` of std: the text that holds the one character and
/// nothing else.
#[verifier::external_body]
pub(crate) fn char_to_string(c: char) -> (text: String)
    ensures
        text@ == seq![c],
{
    c.to_string()
}

/// The count that a head declares for a length that is known, and none for
/// one that is not.
pub open spec fn declared_count(len: Option<usize>) -> Option<u64> {
    match len {
        Some(len) => Some(len as u64),
        None => None,
    }
}

impl Item {
    /// The item of an absent value: the undefined value.
    pub fn none() -> (item: Item)
        ensures
            item@ == ItemView::Undefined,
    {
        Item::Undefined
    }

    /// The item of the unit value, and of every record without fields: null.
    pub fn unit() -> (item: Item)
        ensures
            item@ == ItemView::Null,
    {
        Item::Null
    }

    /// The item of a character: the text string that holds it alone.
    pub fn character(c: char) -> (item: Item)
        ensures
            item@ == ItemView::Text(seq![c]),
    {
        Item::Text(char_to_string(c))
    }

    /// The item of a text string.
    pub fn text(text: &str) -> (item: Item)
        ensures
            item@ == ItemView::Text(text@),
    {
        Item::Text(text.to_owned())
    }

    /// The item of a byte string.
    pub fn bytes(bytes: &[u8]) -> (item: Item)
        ensures
            item@ == ItemView::Bytes(bytes@),
    {
        Item::Bytes(vstd::slice::slice_to_vec(bytes))
    }

    /// The head of a sequence: with the count of its elements where the
    /// length is known, else of indefinite length.
    pub fn array_start(len: Option<usize>) -> (item: Item)
        ensures
            item@ == ItemView::ArrayStart(declared_count(len)),
    {
        match len {
            Some(len) => Item::ArrayStart(Some(len as u64)),
            None => Item::ArrayStart(None),
        }
    }

    /// The head of a map: with the count of its pairs where the length is
    /// known, else of indefinite length.
    pub fn map_start(len: Option<usize>) -> (item: Item)
        ensures
            item@ == ItemView::MapStart(declared_count(len)),
    {
        match len {
            Some(len) => Item::MapStart(Some(len as u64)),
            None => Item::MapStart(None),
        }
    }

    /// The item of an integer of up to 64 bits.
    pub fn from_i64(v: i64) -> (item: Item)
        ensures
            item@ == integer_item(v as int),
    {
        if v >= 0 {
            Item::Unsigned(v as u64)
        } else {
            Item::Negative((-(v + 1)) as u64)
        }
    }

    /// The item of an integer of up to 128 bits; one whose magnitude takes
    /// more than 64 bits has none.
    pub fn from_i128(v: i128) -> (item: Result<Item, EncodeError>)
        ensures
            match item {
                Ok(item) => integer_encodable(v as int) && item@ == integer_item(v as int),
                Err(error) => !integer_encodable(v as int) && error is LengthOutOfBounds,
            },
    {
        if v >= 0 {
            if v > u64::MAX as i128 {
                Err(EncodeError::LengthOutOfBounds)
            } else {
                Ok(Item::Unsigned(v as u64))
            }
        } else {
            let argument: i128 = -(v + 1);
            if argument > u64::MAX as i128 {
                Err(EncodeError::LengthOutOfBounds)
            } else {
                Ok(Item::Negative(argument as u64))
            }
        }
    }

    /// The item of an unsigned integer of up to 128 bits; one of 2^64 or more
    /// has none.
    pub fn from_u128(v: u128) -> (item: Result<Item, EncodeError>)
        ensures
            match item {
                Ok(item) => integer_encodable(v as int) && item@ == integer_item(v as int),
                Err(error) => !integer_encodable(v as int) && error is LengthOutOfBounds,
            },
    {
        if v > u64::MAX as u128 {
            Err(EncodeError::LengthOutOfBounds)
        } else {
            Ok(Item::Unsigned(v as u64))
        }
    }

    /// The integer of the item, for a receiver that takes the integers from
    /// `min` to `max`.
    pub fn as_integer(&self, min: i128, max: i128) -> (value: Result<i128, DecodeError>)
        ensures
            match narrowed(self@, min as int, max as int) {
                Ok(v) => value == Ok::<i128, DecodeError>(v as i128),
                Err(error) => value == Err::<i128, DecodeError>(error),
            },
    {
        let v: i128 = match self {
            Item::Unsigned(n) => *n as i128,
            Item::Negative(n) => -1 - (*n as i128),
            _ => {
                return Err(DecodeError::TypeMismatch);
            },
        };
        if min <= v && v <= max {
            Ok(v)
        } else {
            Err(DecodeError::Overflow)
        }
    }

    /// The truth value of the item; a mismatch where it is none.
    pub fn as_bool(&self) -> (value: Result<bool, DecodeError>)
        ensures
            match self@ {
                ItemView::Bool(b) => value == Ok::<bool, DecodeError>(b),
                _ => value == Err::<bool, DecodeError>(DecodeError::TypeMismatch),
            },
    {
        match self {
            Item::Bool(b) => Ok(*b),
            _ => Err(DecodeError::TypeMismatch),
        }
    }

    /// The unit value, where the item is null; a mismatch where it is not.
    pub fn as_unit(&self) -> (value: Result<(), DecodeError>)
        ensures
            match self@ {
                ItemView::Null => value is Ok,
                _ => value == Err::<(), DecodeError>(DecodeError::TypeMismatch),
            },
    {
        match self {
            Item::Null => Ok(()),
            _ => Err(DecodeError::TypeMismatch),
        }
    }

    /// Whether the item is the marker of an absent value.
    pub fn is_absent(&self) -> (absent: bool)
        ensures
            absent == (self@ is Undefined),
    {
        match self {
            Item::Undefined => true,
            _ => false,
        }
    }

    /// The text of the item; a mismatch where it is no text string.
    pub fn into_text(self) -> (value: Result<String, DecodeError>)
        ensures
            match self@ {
                ItemView::Text(text) => value matches Ok(found) && found@ == text,
                _ => value matches Err(DecodeError::TypeMismatch),
            },
    {
        match self {
            Item::Text(text) => Ok(text),
            _ => Err(DecodeError::TypeMismatch),
        }
    }

    /// The bytes of the item; a mismatch where it is no byte string.
    pub fn into_bytes(self) -> (value: Result<Vec<u8>, DecodeError>)
        ensures
            match self@ {
                ItemView::Bytes(bytes) => value matches Ok(found) && found@ == bytes,
                _ => value matches Err(DecodeError::TypeMismatch),
            },
    {
        match self {
            Item::Bytes(bytes) => Ok(bytes),
            _ => Err(DecodeError::TypeMismatch),
        }
    }

    /// The character of the item: that of a text string of one character; a
    /// mismatch for every other item.
    pub fn as_char(&self) -> (value: Result<char, DecodeError>)
        ensures
            match self@ {
                ItemView::Text(text) => if text.len() == 1 {
                    value == Ok::<char, DecodeError>(text[0])
                } else {
                    value == Err::<char, DecodeError>(DecodeError::TypeMismatch)
                },
                _ => value == Err::<char, DecodeError>(DecodeError::TypeMismatch),
            },
    {
        match self {
            Item::Text(text) => {
                let text = text.as_str();
                if text.unicode_len() == 1 {
                    Ok(text.get_char(0))
                } else {
                    Err(DecodeError::TypeMismatch)
                }
            },
            _ => Err(DecodeError::TypeMismatch),
        }
    }
}

} // verus!
