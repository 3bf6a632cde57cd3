//! The basic deserializer

use vstd::prelude::*;
use vstd::utf8::{decode_utf8, valid_utf8};
use crate::argument::{parse_head, read_head, tail, Head};
use crate::common::MajorType;
use crate::error::DecodeError;
use crate::float::{float_value, single_value};
use crate::item::{narrowed, parse_chunks, parse_item, parse_payload, Item, ItemView};

verus! {

/// The basic deserializer type: it reads single data items from bytes that
/// it holds, front to back.
pub struct BasicDeserializer {
    input: Vec<u8>,
    position: usize,
}

impl View for BasicDeserializer {
    type V = Seq<u8>;

    /// The bytes that are not read yet.
    closed spec fn view(&self) -> Seq<u8> {
        tail(self.input@, self.position as int)
    }
}

/// `String::from_utf8` of std: the text that the bytes spell in UTF-8, and
/// nothing where they are no UTF-8.
#[verifier::external_body]
fn text_from_utf8(bytes: Vec<u8>) -> (text: Option<String>)
    ensures
        text is Some <==> valid_utf8(bytes@),
        text matches Some(spelled) ==> spelled@ == decode_utf8(bytes@),
{
    String::from_utf8(bytes).ok()
}

/// What the chunks read so far and the chunks still to read make together.
spec fn chunks_joined(read: Seq<u8>, taken: nat, rest: Option<(Seq<u8>, nat)>) -> Option<
    (Seq<u8>, nat),
> {
    match rest {
        None => None,
        Some((more, used)) => Some((read + more, taken + used)),
    }
}

/// Reads the head of the chunk that stands at `cursor` and says where its
/// bytes lie; `None` for the break that ends the chunks.
fn read_chunk(input: &[u8], cursor: usize, major: MajorType) -> (chunk: Result<
    Option<(usize, usize)>,
    DecodeError,
>)
    ensures
        match chunk {
            Ok(Some((start, end))) => cursor < start <= end <= input@.len() && parse_chunks(
                tail(input@, cursor as int),
                major,
            ) == chunks_joined(
                input@.subrange(start as int, end as int),
                (end - cursor) as nat,
                parse_chunks(tail(input@, end as int), major),
            ),
            Ok(None) => cursor < input@.len() && parse_chunks(tail(input@, cursor as int), major)
                == Some((Seq::<u8>::empty(), 1nat)),
            Err(error) => error is Malformed && parse_chunks(tail(input@, cursor as int), major)
                is None,
        },
{
    let ghost here = tail(input@, cursor as int);
    let chunk = match read_head(input, cursor) {
        Ok(chunk) => chunk,
        Err(error) => {
            return Err(error);
        },
    };
    if chunk.major == MajorType::FloatOrSimple && chunk.information == 31 {
        return Ok(None);
    }
    let size = chunk.size();
    if chunk.major != major || chunk.is_indefinite() || !chunk.is_minimal() {
        return Err(DecodeError::Malformed);
    }
    if chunk.argument > (input.len() - cursor - size) as u64 {
        return Err(DecodeError::Malformed);
    }
    let start: usize = cursor + size;
    let end: usize = start + chunk.argument as usize;
    proof {
        assert(here.subrange(size as int, size + chunk.argument) =~= input@.subrange(
            start as int,
            end as int,
        ));
        assert(here.skip(size + chunk.argument) =~= tail(input@, end as int));
    }
    Ok(Some((start, end)))
}

/// Reads the payload of the string whose head stands at `position`.
fn read_payload(input: &[u8], position: usize, head: Head) -> (payload: Result<(Vec<u8>, usize), DecodeError>)
    requires
        parse_head(tail(input@, position as int)) == Some(head),
    ensures
        match parse_payload(tail(input@, position as int), head) {
            Some((bytes, used)) => payload matches Ok((read, taken)) && read@ == bytes
                && taken == used,
            None => payload matches Err(DecodeError::Malformed),
        },
{
    let len = input.len();
    let size = head.size();
    assert(position < len);
    assert(size <= len - position);
    if head.is_indefinite() {
        let mut read: Vec<u8> = Vec::new();
        let mut cursor: usize = position + 1;
        let ghost whole = parse_chunks(tail(input@, position as int).skip(1), head.major);
        assert(tail(input@, position as int).skip(1) =~= tail(input@, cursor as int));
        loop
            invariant_except_break
                position < cursor <= len,
                whole == chunks_joined(
                    read@,
                    (cursor - position - 1) as nat,
                    parse_chunks(tail(input@, cursor as int), head.major),
                ),
            invariant
                len == input@.len(),
                head.spec_is_indefinite(),
                whole == parse_chunks(tail(input@, position as int).skip(1), head.major),
            ensures
                match whole {
                    Some((bytes, used)) => read@ == bytes && cursor - position == 1
                        + used && cursor <= len,
                    None => false,
                },
            decreases len - cursor,
        {
            match read_chunk(input, cursor, head.major) {
                Ok(Some((start, end))) => {
                    let ghost before = read@;
                    read.extend_from_slice(&input[start..end]);
                    assert(read@ =~= before + input@.subrange(start as int, end as int));
                    cursor = end;
                },
                Ok(None) => {
                    assert(read@ + Seq::<u8>::empty() =~= read@);
                    cursor = cursor + 1;
                    break ;
                },
                Err(error) => {
                    return Err(error);
                },
            }
        }
        Ok((read, cursor - position))
    } else if head.is_minimal() {
        if head.argument > (len - position - size) as u64 {
            return Err(DecodeError::Malformed);
        }
        let start: usize = position + size;
        let end: usize = start + head.argument as usize;
        let read = vstd::slice::slice_to_vec(&input[start..end]);
        assert(read@ =~= tail(input@, position as int).subrange(size as int, size + head.argument));
        Ok((read, size + head.argument as usize))
    } else {
        Err(DecodeError::Malformed)
    }
}

/// Reads the item that stands at `position` of `input`: the item, and the
/// number of bytes that it takes.
pub fn read_item(input: &[u8], position: usize) -> (result: Result<(Item, usize), DecodeError>)
    ensures
        match parse_item(tail(input@, position as int)) {
            Some((item, used)) => result matches Ok((found, taken)) && found@ == item
                && taken == used,
            None => result matches Err(DecodeError::Malformed),
        },
{
    let head = match read_head(input, position) {
        Ok(head) => head,
        Err(error) => {
            return Err(error);
        },
    };
    let size = head.size();
    match head.major {
        MajorType::UnsignedInteger => {
            if !head.is_indefinite() && head.is_minimal() {
                Ok((Item::Unsigned(head.argument), size))
            } else {
                Err(DecodeError::Malformed)
            }
        },
        MajorType::NegativeInteger => {
            if !head.is_indefinite() && head.is_minimal() {
                Ok((Item::Negative(head.argument), size))
            } else {
                Err(DecodeError::Malformed)
            }
        },
        MajorType::ByteString => {
            match read_payload(input, position, head) {
                Ok((payload, used)) => Ok((Item::Bytes(payload), used)),
                Err(error) => Err(error),
            }
        },
        MajorType::TextString => {
            match read_payload(input, position, head) {
                Ok((payload, used)) => match text_from_utf8(payload) {
                    Some(text) => Ok((Item::Text(text), used)),
                    None => Err(DecodeError::Malformed),
                },
                Err(error) => Err(error),
            }
        },
        MajorType::ArrayOfItems => {
            if head.is_indefinite() {
                Ok((Item::ArrayStart(None), size))
            } else if head.is_minimal() {
                Ok((Item::ArrayStart(Some(head.argument)), size))
            } else {
                Err(DecodeError::Malformed)
            }
        },
        MajorType::MapOfItems => {
            if head.is_indefinite() {
                Ok((Item::MapStart(None), size))
            } else if head.is_minimal() {
                Ok((Item::MapStart(Some(head.argument)), size))
            } else {
                Err(DecodeError::Malformed)
            }
        },
        MajorType::Tag => {
            if !head.is_indefinite() && head.is_minimal() {
                Ok((Item::Tag(head.argument), size))
            } else {
                Err(DecodeError::Malformed)
            }
        },
        MajorType::FloatOrSimple => {
            if head.information == 20 {
                Ok((Item::Bool(false), size))
            } else if head.information == 21 {
                Ok((Item::Bool(true), size))
            } else if head.information == 22 {
                Ok((Item::Null, size))
            } else if head.information == 23 {
                Ok((Item::Undefined, size))
            } else if head.information == 25 {
                Ok((Item::Float16(head.argument as u16), size))
            } else if head.information == 26 {
                Ok((Item::Float32(head.argument as u32), size))
            } else if head.information == 27 {
                Ok((Item::Float64(head.argument), size))
            } else if head.information == 31 {
                Ok((Item::Break, size))
            } else {
                Err(DecodeError::Malformed)
            }
        },
    }
}

impl BasicDeserializer {
    /// Construct a new basic deserializer that reads `input` from its start.
    pub fn new(input: Vec<u8>) -> (deserializer: Self)
        ensures
            deserializer@ == input@,
    {
        let deserializer = Self { input, position: 0 };
        assert(deserializer@ =~= input@);
        deserializer
    }

    /// The number of bytes that are not read yet.
    pub fn remaining(&self) -> (len: usize)
        ensures
            len == self@.len(),
    {
        if self.position <= self.input.len() {
            self.input.len() - self.position
        } else {
            0
        }
    }

    /// Whether every byte is read.
    pub fn is_at_end(&self) -> (at_end: bool)
        ensures
            at_end == (self@.len() == 0),
    {
        self.position >= self.input.len()
    }

    /// Reads the head of the next item and leaves it in place.
    pub fn peek_head(&self) -> (head: Result<Head, DecodeError>)
        ensures
            match parse_head(self@) {
                Some(parsed) => head == Ok::<Head, DecodeError>(parsed),
                None => head matches Err(DecodeError::Malformed),
            },
    {
        read_head(self.input.as_slice(), self.position)
    }

    /// Says of which major type the next item is, and leaves it in place.
    pub fn peek_kind(&self) -> (kind: Result<MajorType, DecodeError>)
        ensures
            match parse_head(self@) {
                Some(parsed) => kind == Ok::<MajorType, DecodeError>(parsed.major),
                None => kind matches Err(DecodeError::Malformed),
            },
    {
        match self.peek_head() {
            Ok(head) => Ok(head.major),
            Err(error) => Err(error),
        }
    }

    /// Reads the next item and leaves it in place: the item, and the number
    /// of bytes that it takes.
    pub fn peek_item(&self) -> (result: Result<(Item, usize), DecodeError>)
        ensures
            match parse_item(self@) {
                Some((item, used)) => result matches Ok((found, taken)) && found@ == item
                    && taken == used,
                None => result matches Err(DecodeError::Malformed),
            },
    {
        read_item(self.input.as_slice(), self.position)
    }

    /// Reads the item that stands `skip` bytes after the next one, and leaves
    /// everything in place.
    pub fn peek_item_after(&self, skip: usize) -> (result: Result<(Item, usize), DecodeError>)
        ensures
            match parse_item(tail(self@, skip as int)) {
                Some((item, used)) => result matches Ok((found, taken)) && found@ == item
                    && taken == used,
                None => result matches Err(DecodeError::Malformed),
            },
    {
        if self.position <= self.input.len() && skip <= self.input.len() - self.position {
            assert(tail(self@, skip as int) =~= tail(self.input@, self.position + skip));
            read_item(self.input.as_slice(), self.position + skip)
        } else {
            Err(DecodeError::Malformed)
        }
    }

    /// Passes over `count` bytes, or over all that are left where they are
    /// fewer.
    pub fn advance(&mut self, count: usize)
        ensures
            final(self)@ == old(self)@.skip(
                if count <= old(self)@.len() {
                    count as int
                } else {
                    old(self)@.len() as int
                },
            ),
    {
        let left = self.remaining();
        if count <= left {
            assert(count == 0 || self.position + count <= self.input.len());
            self.position = self.position + count;
            assert(self@ =~= old(self)@.skip(count as int));
        } else {
            self.position = self.input.len();
            assert(self@ =~= old(self)@.skip(old(self)@.len() as int));
        }
    }

    /// Reads the next item and passes over it. Where the bytes are malformed
    /// nothing is passed over.
    pub fn next_item(&mut self) -> (result: Result<Item, DecodeError>)
        ensures
            match parse_item(old(self)@) {
                Some((item, used)) => result matches Ok(found) && found@ == item && final(self)@
                    == old(self)@.skip(used as int),
                None => (result matches Err(DecodeError::Malformed)) && *final(self) == *old(self),
            },
    {
        match self.peek_item() {
            Ok((item, used)) => {
                proof {
                    lemma_parse_item_within(self@);
                }
                self.advance(used);
                Ok(item)
            },
            Err(error) => Err(error),
        }
    }
}

/// The integer that stands at the start of `bytes`, for a receiver that
/// takes the integers from `min` to `max`, and the number of bytes that it
/// takes: malformed where no item can be read, a mismatch where the item is no
/// integer, an overflow where the integer lies outside.
pub open spec fn read_integer(bytes: Seq<u8>, min: int, max: int) -> Result<
    (int, nat),
    DecodeError,
> {
    match parse_item(bytes) {
        None => Err(DecodeError::Malformed),
        Some((item, used)) => match narrowed(item, min, max) {
            Ok(v) => Ok((v, used)),
            Err(error) => Err(error),
        },
    }
}

impl BasicDeserializer {
    /// Reads an integer for a receiver that takes the integers from `min` to
    /// `max`, and passes over it. Where it refuses, nothing is passed over.
    pub fn deserialize_integer(&mut self, min: i128, max: i128) -> (result: Result<
        i128,
        DecodeError,
    >)
        ensures
            match read_integer(old(self)@, min as int, max as int) {
                Ok((v, used)) => result == Ok::<i128, DecodeError>(v as i128) && final(self)@
                    == old(self)@.skip(used as int),
                Err(error) => result == Err::<i128, DecodeError>(error) && *final(self) == *old(self),
            },
    {
        let (item, used) = match self.peek_item() {
            Ok(found) => found,
            Err(error) => {
                return Err(error);
            },
        };
        match item.as_integer(min, max) {
            Ok(v) => {
                proof {
                    lemma_parse_item_within(self@);
                }
                self.advance(used);
                Ok(v)
            },
            Err(error) => Err(error),
        }
    }

    /// Reads an unsigned integer of 8 bits.
    pub fn deserialize_u8(&mut self) -> (result: Result<u8, DecodeError>)
        ensures
            match read_integer(old(self)@, 0, u8::MAX as int) {
                Ok((v, used)) => result == Ok::<u8, DecodeError>(v as u8) && final(self)@ == old(self)@.skip(used as int),
                Err(error) => result == Err::<u8, DecodeError>(error) && *final(self) == *old(self),
            },
    {
        match self.deserialize_integer(0, u8::MAX as i128) {
            Ok(v) => Ok(v as u8),
            Err(error) => Err(error),
        }
    }

    /// Reads an unsigned integer of 16 bits.
    pub fn deserialize_u16(&mut self) -> (result: Result<u16, DecodeError>)
        ensures
            match read_integer(old(self)@, 0, u16::MAX as int) {
                Ok((v, used)) => result == Ok::<u16, DecodeError>(v as u16) && final(self)@
                    == old(self)@.skip(used as int),
                Err(error) => result == Err::<u16, DecodeError>(error) && *final(self) == *old(self),
            },
    {
        match self.deserialize_integer(0, u16::MAX as i128) {
            Ok(v) => Ok(v as u16),
            Err(error) => Err(error),
        }
    }

    /// Reads an unsigned integer of 32 bits.
    pub fn deserialize_u32(&mut self) -> (result: Result<u32, DecodeError>)
        ensures
            match read_integer(old(self)@, 0, u32::MAX as int) {
                Ok((v, used)) => result == Ok::<u32, DecodeError>(v as u32) && final(self)@
                    == old(self)@.skip(used as int),
                Err(error) => result == Err::<u32, DecodeError>(error) && *final(self) == *old(self),
            },
    {
        match self.deserialize_integer(0, u32::MAX as i128) {
            Ok(v) => Ok(v as u32),
            Err(error) => Err(error),
        }
    }

    /// Reads an unsigned integer of 64 bits.
    pub fn deserialize_u64(&mut self) -> (result: Result<u64, DecodeError>)
        ensures
            match read_integer(old(self)@, 0, u64::MAX as int) {
                Ok((v, used)) => result == Ok::<u64, DecodeError>(v as u64) && final(self)@
                    == old(self)@.skip(used as int),
                Err(error) => result == Err::<u64, DecodeError>(error) && *final(self) == *old(self),
            },
    {
        match self.deserialize_integer(0, u64::MAX as i128) {
            Ok(v) => Ok(v as u64),
            Err(error) => Err(error),
        }
    }

    /// Reads a signed integer of 8 bits.
    pub fn deserialize_i8(&mut self) -> (result: Result<i8, DecodeError>)
        ensures
            match read_integer(old(self)@, i8::MIN as int, i8::MAX as int) {
                Ok((v, used)) => result == Ok::<i8, DecodeError>(v as i8) && final(self)@ == old(self)@.skip(used as int),
                Err(error) => result == Err::<i8, DecodeError>(error) && *final(self) == *old(self),
            },
    {
        match self.deserialize_integer(i8::MIN as i128, i8::MAX as i128) {
            Ok(v) => Ok(v as i8),
            Err(error) => Err(error),
        }
    }

    /// Reads a signed integer of 16 bits.
    pub fn deserialize_i16(&mut self) -> (result: Result<i16, DecodeError>)
        ensures
            match read_integer(old(self)@, i16::MIN as int, i16::MAX as int) {
                Ok((v, used)) => result == Ok::<i16, DecodeError>(v as i16) && final(self)@
                    == old(self)@.skip(used as int),
                Err(error) => result == Err::<i16, DecodeError>(error) && *final(self) == *old(self),
            },
    {
        match self.deserialize_integer(i16::MIN as i128, i16::MAX as i128) {
            Ok(v) => Ok(v as i16),
            Err(error) => Err(error),
        }
    }

    /// Reads a signed integer of 32 bits.
    pub fn deserialize_i32(&mut self) -> (result: Result<i32, DecodeError>)
        ensures
            match read_integer(old(self)@, i32::MIN as int, i32::MAX as int) {
                Ok((v, used)) => result == Ok::<i32, DecodeError>(v as i32) && final(self)@
                    == old(self)@.skip(used as int),
                Err(error) => result == Err::<i32, DecodeError>(error) && *final(self) == *old(self),
            },
    {
        match self.deserialize_integer(i32::MIN as i128, i32::MAX as i128) {
            Ok(v) => Ok(v as i32),
            Err(error) => Err(error),
        }
    }

    /// Reads a signed integer of 64 bits.
    pub fn deserialize_i64(&mut self) -> (result: Result<i64, DecodeError>)
        ensures
            match read_integer(old(self)@, i64::MIN as int, i64::MAX as int) {
                Ok((v, used)) => result == Ok::<i64, DecodeError>(v as i64) && final(self)@
                    == old(self)@.skip(used as int),
                Err(error) => result == Err::<i64, DecodeError>(error) && *final(self) == *old(self),
            },
    {
        match self.deserialize_integer(i64::MIN as i128, i64::MAX as i128) {
            Ok(v) => Ok(v as i64),
            Err(error) => Err(error),
        }
    }

    /// Reads a truth value. Where the next item is none, this is a mismatch
    /// and nothing is passed over.
    pub fn deserialize_bool(&mut self) -> (result: Result<bool, DecodeError>)
        ensures
            match parse_item(old(self)@) {
                Some((ItemView::Bool(b), used)) => result == Ok::<bool, DecodeError>(b) && final(self)@ == old(self)@.skip(used as int),
                Some(_) => result == Err::<bool, DecodeError>(DecodeError::TypeMismatch)
                    && *final(self) == *old(self),
                None => result == Err::<bool, DecodeError>(DecodeError::Malformed) && *final(self)
                    == *old(self),
            },
    {
        let (item, used) = match self.peek_item() {
            Ok(found) => found,
            Err(error) => {
                return Err(error);
            },
        };
        match item.as_bool() {
            Ok(b) => {
                proof {
                    lemma_parse_item_within(self@);
                }
                self.advance(used);
                Ok(b)
            },
            Err(error) => Err(error),
        }
    }

    /// Reads the unit value, which is written as null.
    pub fn deserialize_unit(&mut self) -> (result: Result<(), DecodeError>)
        ensures
            match parse_item(old(self)@) {
                Some((ItemView::Null, used)) => result is Ok && final(self)@ == old(self)@.skip(
                    used as int,
                ),
                Some(_) => result == Err::<(), DecodeError>(DecodeError::TypeMismatch) && *final(self) == *old(self),
                None => result == Err::<(), DecodeError>(DecodeError::Malformed) && *final(self)
                    == *old(self),
            },
    {
        let (item, used) = match self.peek_item() {
            Ok(found) => found,
            Err(error) => {
                return Err(error);
            },
        };
        match item.as_unit() {
            Ok(()) => {
                proof {
                    lemma_parse_item_within(self@);
                }
                self.advance(used);
                Ok(())
            },
            Err(error) => Err(error),
        }
    }

    /// Says whether a value is present: where the next item is the marker of
    /// an absent value it is passed over and the answer is no; every other
    /// item stays in place, to be read as the value.
    pub fn deserialize_option(&mut self) -> (result: Result<bool, DecodeError>)
        ensures
            match parse_item(old(self)@) {
                Some((ItemView::Undefined, used)) => result == Ok::<bool, DecodeError>(false)
                    && final(self)@ == old(self)@.skip(used as int),
                Some(_) => result == Ok::<bool, DecodeError>(true) && *final(self) == *old(self),
                None => result == Err::<bool, DecodeError>(DecodeError::Malformed) && *final(self)
                    == *old(self),
            },
    {
        let (item, used) = match self.peek_item() {
            Ok(found) => found,
            Err(error) => {
                return Err(error);
            },
        };
        if item.is_absent() {
            proof {
                lemma_parse_item_within(self@);
            }
            self.advance(used);
            Ok(false)
        } else {
            Ok(true)
        }
    }

    /// Reads a text string, whole: with a declared length, or in chunks up to
    /// their break.
    pub fn deserialize_str(&mut self) -> (result: Result<String, DecodeError>)
        ensures
            match parse_item(old(self)@) {
                Some((ItemView::Text(text), used)) => result matches Ok(found) && found@ == text
                    && final(self)@ == old(self)@.skip(used as int),
                Some(_) => (result matches Err(DecodeError::TypeMismatch)) && *final(self) == *old(self),
                None => (result matches Err(DecodeError::Malformed)) && *final(self) == *old(self),
            },
    {
        let (item, used) = match self.peek_item() {
            Ok(found) => found,
            Err(error) => {
                return Err(error);
            },
        };
        match item.into_text() {
            Ok(text) => {
                proof {
                    lemma_parse_item_within(self@);
                }
                self.advance(used);
                Ok(text)
            },
            Err(error) => Err(error),
        }
    }

    /// Reads a byte string, whole: with a declared length, or in chunks up to
    /// their break.
    pub fn deserialize_bytes(&mut self) -> (result: Result<Vec<u8>, DecodeError>)
        ensures
            match parse_item(old(self)@) {
                Some((ItemView::Bytes(bytes), used)) => result matches Ok(found) && found@
                    == bytes && final(self)@ == old(self)@.skip(used as int),
                Some(_) => (result matches Err(DecodeError::TypeMismatch)) && *final(self) == *old(self),
                None => (result matches Err(DecodeError::Malformed)) && *final(self) == *old(self),
            },
    {
        let (item, used) = match self.peek_item() {
            Ok(found) => found,
            Err(error) => {
                return Err(error);
            },
        };
        match item.into_bytes() {
            Ok(bytes) => {
                proof {
                    lemma_parse_item_within(self@);
                }
                self.advance(used);
                Ok(bytes)
            },
            Err(error) => Err(error),
        }
    }

    /// Reads a number in binary floating point of any of the three widths,
    /// and gives its bits in double precision.
    pub fn deserialize_f64(&mut self) -> (result: Result<u64, DecodeError>)
        ensures
            match parse_item(old(self)@) {
                Some((item, used)) => match float_value(item) {
                    Some(bits) => result == Ok::<u64, DecodeError>(bits) && final(self)@ == old(
                        self,
                    )@.skip(used as int),
                    None => result == Err::<u64, DecodeError>(DecodeError::TypeMismatch)
                        && *final(self) == *old(self),
                },
                None => result == Err::<u64, DecodeError>(DecodeError::Malformed) && *final(self)
                    == *old(self),
            },
    {
        let (item, used) = match self.peek_item() {
            Ok(found) => found,
            Err(error) => {
                return Err(error);
            },
        };
        match item.as_float() {
            Ok(bits) => {
                proof {
                    lemma_parse_item_within(self@);
                }
                self.advance(used);
                Ok(bits)
            },
            Err(error) => Err(error),
        }
    }

    /// Reads a number in binary floating point of any of the three widths,
    /// and gives its bits in single precision. A number that single
    /// precision cannot hold exactly is an overflow.
    pub fn deserialize_f32(&mut self) -> (result: Result<u32, DecodeError>)
        ensures
            match parse_item(old(self)@) {
                Some((item, used)) => match single_value(item) {
                    Ok(bits) => result == Ok::<u32, DecodeError>(bits) && final(self)@ == old(
                        self,
                    )@.skip(used as int),
                    Err(error) => result == Err::<u32, DecodeError>(error) && *final(self) == *old(
                        self,
                    ),
                },
                None => result == Err::<u32, DecodeError>(DecodeError::Malformed) && *final(self)
                    == *old(self),
            },
    {
        let (item, used) = match self.peek_item() {
            Ok(found) => found,
            Err(error) => {
                return Err(error);
            },
        };
        match item.as_single() {
            Ok(bits) => {
                proof {
                    lemma_parse_item_within(self@);
                }
                self.advance(used);
                Ok(bits)
            },
            Err(error) => Err(error),
        }
    }

    /// Reads a character: a text string of one character.
    pub fn deserialize_char(&mut self) -> (result: Result<char, DecodeError>)
        ensures
            match parse_item(old(self)@) {
                Some((ItemView::Text(text), used)) => if text.len() == 1 {
                    result == Ok::<char, DecodeError>(text[0]) && final(self)@ == old(self)@.skip(
                        used as int,
                    )
                } else {
                    result == Err::<char, DecodeError>(DecodeError::TypeMismatch) && *final(self)
                        == *old(self)
                },
                Some(_) => result == Err::<char, DecodeError>(DecodeError::TypeMismatch)
                    && *final(self) == *old(self),
                None => result == Err::<char, DecodeError>(DecodeError::Malformed) && *final(self)
                    == *old(self),
            },
    {
        let (item, used) = match self.peek_item() {
            Ok(found) => found,
            Err(error) => {
                return Err(error);
            },
        };
        match item.as_char() {
            Ok(c) => {
                proof {
                    lemma_parse_item_within(self@);
                }
                self.advance(used);
                Ok(c)
            },
            Err(error) => Err(error),
        }
    }
}

/// The chunks that are read lie within the bytes.
pub proof fn lemma_parse_chunks_within(bytes: Seq<u8>, major: MajorType)
    ensures
        parse_chunks(bytes, major) matches Some((payload, used)) ==> 1 <= used <= bytes.len(),
    decreases bytes.len(),
{
    if let Some(head) = parse_head(bytes) {
        if !(head.major == MajorType::FloatOrSimple && head.information == 31) && head.major
            == major && !head.spec_is_indefinite() && head.spec_is_minimal() && head.spec_size()
            + head.argument <= bytes.len() {
            lemma_parse_chunks_within(bytes.skip(head.spec_size() + head.argument), major);
        }
    }
}

/// The item that is read lies within the bytes, and takes at least one byte.
pub proof fn lemma_parse_item_within(bytes: Seq<u8>)
    ensures
        parse_item(bytes) matches Some((item, used)) ==> 1 <= used <= bytes.len(),
{
    if let Some(head) = parse_head(bytes) {
        if head.spec_is_indefinite() {
            lemma_parse_chunks_within(bytes.skip(1), head.major);
        }
    }
}

} // verus!
