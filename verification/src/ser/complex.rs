//! The complex serializer

use vstd::prelude::*;
use crate::error::EncodeError;
use crate::item::{declared_count, item_bytes, Item, ItemView};
use crate::nesting::{Nesting, NestingView};
use crate::ser::basic::BasicSerializer;

verus! {

/// The complex serializer type: it writes items through a [BasicSerializer]
/// and keeps the account of the aggregates that are open, so that what it
/// writes is framed as it must be.
pub struct ComplexSerializer {
    encoder: BasicSerializer,
    nesting: Nesting,
}

/// The item that names an enumerated variant: its index as an unsigned
/// integer, or its name as a text string.
pub open spec fn variant_item(by_index: bool, variant_index: u32, variant: Seq<char>) -> ItemView {
    if by_index {
        ItemView::Unsigned(variant_index as u64)
    } else {
        ItemView::Text(variant)
    }
}

/// The account after a variant was opened: a map of one pair whose key is
/// written and whose value is owed.
pub open spec fn variant_opened(state: NestingView) -> NestingView {
    state.after(ItemView::MapStart(Some(1))).after(ItemView::Null)
}

impl ComplexSerializer {
    /// The bytes that were written and not yet handed over.
    pub closed spec fn output(&self) -> Seq<u8> {
        self.encoder@
    }

    /// The account of the aggregates that are open.
    pub closed spec fn nesting(&self) -> NestingView {
        self.nesting@
    }

    /// Whether enumerated variants are written by index and not by name.
    pub closed spec fn variants_by_index(&self) -> bool {
        self.encoder.variants_by_index()
    }

    /// Whether the element may be written: an array is open and takes it.
    pub open spec fn takes_element(&self, value: ItemView) -> bool {
        &&& self.nesting().frames.len() > 0
        &&& !self.nesting().frames.last().is_map
        &&& !(value is Break)
        &&& self.nesting().accepts(value)
    }

    /// Whether the key may be written: a map is open, no key stands without
    /// its value, and the map takes one more pair.
    pub open spec fn takes_key(&self, key: ItemView) -> bool {
        &&& self.nesting().frames.len() > 0
        &&& self.nesting().frames.last().is_map
        &&& !self.nesting().frames.last().awaiting_value
        &&& !(key is Break)
        &&& self.nesting().accepts(key)
    }

    /// Whether the value may be written: a map is open and a key stands
    /// without its value.
    pub open spec fn takes_value(&self, value: ItemView) -> bool {
        &&& self.nesting().frames.len() > 0
        &&& self.nesting().frames.last().is_map
        &&& self.nesting().frames.last().awaiting_value
        &&& !(value is Break)
    }

    /// A complex serializer that writes through `encoder`, with no aggregate
    /// open.
    pub fn new(encoder: BasicSerializer) -> (serializer: Self)
        ensures
            serializer.output() == encoder@,
            serializer.nesting() == NestingView::empty(),
            serializer.variants_by_index() == encoder.variants_by_index(),
    {
        ComplexSerializer { encoder, nesting: Nesting::new() }
    }

    /// The number of aggregates that are open.
    pub fn depth(&self) -> (depth: usize)
        ensures
            depth == self.nesting().frames.len(),
    {
        self.nesting.depth()
    }

    /// Whether everything that was opened is closed.
    pub fn is_complete(&self) -> (complete: bool)
        ensures
            complete == self.nesting().is_complete(),
    {
        self.nesting.is_complete()
    }

    /// Hands over all bytes that are pending, as [BasicSerializer::flush]
    /// does. The account of the open aggregates stays.
    pub fn flush(&mut self) -> (pending: Vec<u8>)
        ensures
            pending@ == old(self).output(),
            final(self).output() == Seq::<u8>::empty(),
            final(self).nesting() == old(self).nesting(),
            final(self).variants_by_index() == old(self).variants_by_index(),
    {
        self.encoder.flush()
    }

    /// Gives back the basic serializer when everything that was opened is
    /// closed; else it refuses.
    pub fn finish(self) -> (result: Result<BasicSerializer, EncodeError>)
        ensures
            match result {
                Ok(encoder) => self.nesting().is_complete() && encoder@ == self.output()
                    && encoder.variants_by_index() == self.variants_by_index(),
                Err(error) => !self.nesting().is_complete() && error is Serialization,
            },
    {
        if self.nesting.is_complete() {
            Ok(self.encoder)
        } else {
            Err(EncodeError::custom("an aggregate is still open"))
        }
    }

    /// Writes one item where it may stand, and takes it into the account:
    /// the head of an aggregate opens it, and a break ends the innermost one.
    /// The break of an aggregate with a declared count is the check that
    /// the count was kept, and writes nothing. An item that may not stand
    /// here is refused, and nothing is written.
    pub fn serialize_item(&mut self, item: &Item) -> (result: Result<(), EncodeError>)
        ensures
            old(self).nesting().accepts(item@) ==> result is Ok && final(self).output() == old(
                self,
            ).output() + old(self).nesting().event_bytes(item@) && final(self).nesting() == old(
                self,
            ).nesting().after(item@),
            !old(self).nesting().accepts(item@) ==> (result matches Err(
                EncodeError::Serialization(_),
            )) && *final(self) == *old(self),
            final(self).variants_by_index() == old(self).variants_by_index(),
    {
        let silent = match item {
            Item::Break => self.nesting.ends_silently(),
            _ => false,
        };
        if !self.nesting.take(item) {
            return Err(EncodeError::custom("the item may not stand here"));
        }
        if silent {
            assert(self.encoder@ + Seq::<u8>::empty() =~= self.encoder@);
            Ok(())
        } else {
            self.encoder.serialize_item(item)
        }
    }

    /// Ends the innermost aggregate: with a declared count this checks that
    /// exactly that many elements or pairs were written, and writes nothing;
    /// with an indefinite length it writes the break. Refused where nothing is
    /// open, a count was not kept, or a key stands without its value.
    pub fn end(&mut self) -> (result: Result<(), EncodeError>)
        ensures
            old(self).nesting().accepts(ItemView::Break) ==> result is Ok && final(self).output()
                == old(self).output() + old(self).nesting().event_bytes(ItemView::Break)
                && final(self).nesting() == old(self).nesting().after(ItemView::Break),
            !old(self).nesting().accepts(ItemView::Break) ==> (result matches Err(
                EncodeError::Serialization(_),
            )) && *final(self) == *old(self),
            final(self).variants_by_index() == old(self).variants_by_index(),
    {
        self.serialize_item(&Item::Break)
    }

    /// Writes an element of the array that is open. The head of an aggregate
    /// as element opens that aggregate, whose elements follow.
    pub fn serialize_element(&mut self, value: &Item) -> (result: Result<(), EncodeError>)
        ensures
            old(self).takes_element(value@) ==> result is Ok && final(self).output() == old(
                self,
            ).output() + item_bytes(value@) && final(self).nesting() == old(
                self,
            ).nesting().after(value@),
            !old(self).takes_element(value@) ==> (result matches Err(
                EncodeError::Serialization(_),
            )) && *final(self) == *old(self),
            final(self).variants_by_index() == old(self).variants_by_index(),
    {
        let in_array = match self.nesting.innermost() {
            Some(frame) => !frame.is_map,
            None => false,
        };
        let is_break = match value {
            Item::Break => true,
            _ => false,
        };
        if !in_array || is_break {
            return Err(EncodeError::custom("no array takes an element here"));
        }
        self.serialize_item(value)
    }

    /// Writes a key of the map that is open.
    pub fn serialize_key(&mut self, key: &Item) -> (result: Result<(), EncodeError>)
        ensures
            old(self).takes_key(key@) ==> result is Ok && final(self).output() == old(
                self,
            ).output() + item_bytes(key@) && final(self).nesting() == old(self).nesting().after(
                key@,
            ),
            !old(self).takes_key(key@) ==> (result matches Err(EncodeError::Serialization(_)))
                && *final(self) == *old(self),
            final(self).variants_by_index() == old(self).variants_by_index(),
    {
        let at_key = match self.nesting.innermost() {
            Some(frame) => frame.is_map && !frame.awaiting_value,
            None => false,
        };
        let is_break = match key {
            Item::Break => true,
            _ => false,
        };
        if !at_key || is_break {
            return Err(EncodeError::custom("no map takes a key here"));
        }
        self.serialize_item(key)
    }

    /// Writes the value of the key that was written last.
    pub fn serialize_value(&mut self, value: &Item) -> (result: Result<(), EncodeError>)
        ensures
            old(self).takes_value(value@) ==> result is Ok && final(self).output() == old(
                self,
            ).output() + item_bytes(value@) && final(self).nesting() == old(
                self,
            ).nesting().after(value@),
            !old(self).takes_value(value@) ==> (result matches Err(
                EncodeError::Serialization(_),
            )) && *final(self) == *old(self),
            final(self).variants_by_index() == old(self).variants_by_index(),
    {
        let at_value = match self.nesting.innermost() {
            Some(frame) => frame.is_map && frame.awaiting_value,
            None => false,
        };
        let is_break = match value {
            Item::Break => true,
            _ => false,
        };
        if !at_value || is_break {
            return Err(EncodeError::custom("no key awaits a value here"));
        }
        self.serialize_item(value)
    }

    /// Writes a field of the record that is open: its name as a text string,
    /// then its value. Fields stand in the order in which they are written.
    pub fn serialize_field(&mut self, key: &str, value: &Item) -> (result: Result<
        (),
        EncodeError,
    >)
        ensures
            old(self).takes_key(ItemView::Text(key@)) && !(value@ is Break) ==> result is Ok
                && final(self).output() == old(self).output() + item_bytes(ItemView::Text(key@))
                + item_bytes(value@) && final(self).nesting() == old(self).nesting().after(
                ItemView::Text(key@),
            ).after(value@),
            !(old(self).takes_key(ItemView::Text(key@)) && !(value@ is Break)) ==> (
            result matches Err(EncodeError::Serialization(_))) && *final(self) == *old(self),
            final(self).variants_by_index() == old(self).variants_by_index(),
    {
        let at_key = match self.nesting.innermost() {
            Some(frame) => frame.is_map && !frame.awaiting_value && (frame.indefinite_length
                || frame.remaining > 0),
            None => false,
        };
        let is_break = match value {
            Item::Break => true,
            _ => false,
        };
        if !at_key || is_break {
            return Err(EncodeError::custom("no record takes a field here"));
        }
        let accepted = self.nesting.take(&Item::Null);
        assert(accepted);
        assert(self.nesting@ == old(self).nesting().after(ItemView::Text(key@)));
        self.encoder.serialize_str(key)?;
        let accepted = self.nesting.take(value);
        assert(accepted);
        let result = self.encoder.serialize_item(value);
        assert(self.encoder@ =~= old(self).output() + item_bytes(ItemView::Text(key@))
            + item_bytes(value@));
        result
    }

    /// Writes an enumerated variant without payload where an item may stand:
    /// its index as an unsigned integer, or its name as a text string, as the
    /// serializer was told.
    pub fn serialize_unit_variant(&mut self, name: &str, variant_index: u32, variant: &str) -> (result:
        Result<(), EncodeError>)
        ensures
            old(self).nesting().takes_item() ==> result is Ok && final(self).output() == old(
                self,
            ).output() + item_bytes(
                variant_item(old(self).variants_by_index(), variant_index, variant@),
            ) && final(self).nesting() == old(self).nesting().after(ItemView::Null),
            !old(self).nesting().takes_item() ==> (result matches Err(
                EncodeError::Serialization(_),
            )) && *final(self) == *old(self),
            final(self).variants_by_index() == old(self).variants_by_index(),
    {
        if !self.nesting.take(&Item::Null) {
            return Err(EncodeError::custom("the item may not stand here"));
        }
        self.encoder.serialize_unit_variant(name, variant_index, variant)
    }

    /// Opens an enumerated variant with payload: a map of one pair whose key
    /// names the variant, by index or by name as the serializer was told. The
    /// payload follows as the value, and [ComplexSerializer::end] closes the
    /// map after it.
    pub fn serialize_variant(&mut self, name: &str, variant_index: u32, variant: &str) -> (result:
        Result<(), EncodeError>)
        ensures
            old(self).nesting().takes_item() ==> result is Ok && final(self).output() == old(
                self,
            ).output() + item_bytes(ItemView::MapStart(Some(1))) + item_bytes(
                variant_item(old(self).variants_by_index(), variant_index, variant@),
            ) && final(self).nesting() == variant_opened(old(self).nesting()),
            !old(self).nesting().takes_item() ==> (result matches Err(
                EncodeError::Serialization(_),
            )) && *final(self) == *old(self),
            final(self).variants_by_index() == old(self).variants_by_index(),
    {
        if !self.nesting.take(&Item::MapStart(Some(1))) {
            return Err(EncodeError::custom("the item may not stand here"));
        }
        let accepted = self.nesting.take(&Item::Null);
        assert(accepted);
        self.encoder.serialize_item(&Item::MapStart(Some(1)))?;
        let result = self.encoder.serialize_unit_variant(name, variant_index, variant);
        assert(self.encoder@ =~= old(self).output() + item_bytes(ItemView::MapStart(Some(1)))
            + item_bytes(variant_item(old(self).variants_by_index(), variant_index, variant@)));
        result
    }

    /// Ends the aggregate that is the payload of an enumerated variant, and
    /// the map of one pair around it.
    pub fn end_variant(&mut self) -> (result: Result<(), EncodeError>)
        ensures
            ({
                let state = old(self).nesting();
                let outer = state.after(ItemView::Break);
                if state.accepts(ItemView::Break) && outer.accepts(ItemView::Break) {
                    &&& result is Ok
                    &&& final(self).output() == old(self).output() + state.event_bytes(
                        ItemView::Break,
                    ) + outer.event_bytes(ItemView::Break)
                    &&& final(self).nesting() == outer.after(ItemView::Break)
                } else {
                    &&& result matches Err(EncodeError::Serialization(_))
                    &&& *final(self) == *old(self)
                }
            }),
            final(self).variants_by_index() == old(self).variants_by_index(),
    {
        if !self.nesting.ends_twice() {
            return Err(EncodeError::custom("no variant ends here"));
        }
        self.end()?;
        self.end()
    }
}

impl BasicSerializer {
    /// Opens an aggregate at the top level, and hands the serializer over to
    /// the complex serializer that writes its elements.
    fn open_aggregate(self, opening: &Item) -> (result: Result<ComplexSerializer, EncodeError>)
        requires
            opening@.opens_aggregate(),
        ensures
            result matches Ok(aggregate) && aggregate.output() == self@ + item_bytes(opening@)
                && aggregate.nesting() == NestingView::empty().after(opening@)
                && aggregate.variants_by_index() == self.variants_by_index(),
    {
        let mut aggregate = ComplexSerializer::new(self);
        match aggregate.serialize_item(opening) {
            Ok(()) => Ok(aggregate),
            Err(error) => Err(error),
        }
    }

    /// Opens a sequence: an array with the count of its elements where the
    /// length is known, else one of indefinite length.
    pub fn serialize_seq(self, len: Option<usize>) -> (result: Result<
        ComplexSerializer,
        EncodeError,
    >)
        ensures
            result matches Ok(aggregate) && aggregate.output() == self@ + item_bytes(
                ItemView::ArrayStart(declared_count(len)),
            ) && aggregate.nesting() == NestingView::empty().after(
                ItemView::ArrayStart(declared_count(len)),
            ) && aggregate.variants_by_index() == self.variants_by_index(),
    {
        self.open_aggregate(&Item::array_start(len))
    }

    /// Opens a tuple: an array of `len` elements.
    pub fn serialize_tuple(self, len: usize) -> (result: Result<ComplexSerializer, EncodeError>)
        ensures
            result matches Ok(aggregate) && aggregate.output() == self@ + item_bytes(
                ItemView::ArrayStart(Some(len as u64)),
            ) && aggregate.nesting() == NestingView::empty().after(
                ItemView::ArrayStart(Some(len as u64)),
            ) && aggregate.variants_by_index() == self.variants_by_index(),
    {
        self.open_aggregate(&Item::ArrayStart(Some(len as u64)))
    }

    /// Opens a record with unnamed fields: an array of `len` elements,
    /// whatever its name.
    pub fn serialize_tuple_struct(self, name: &str, len: usize) -> (result: Result<
        ComplexSerializer,
        EncodeError,
    >)
        ensures
            result matches Ok(aggregate) && aggregate.output() == self@ + item_bytes(
                ItemView::ArrayStart(Some(len as u64)),
            ) && aggregate.nesting() == NestingView::empty().after(
                ItemView::ArrayStart(Some(len as u64)),
            ) && aggregate.variants_by_index() == self.variants_by_index(),
    {
        self.open_aggregate(&Item::ArrayStart(Some(len as u64)))
    }

    /// Opens a map: with the count of its pairs where the length is known,
    /// else one of indefinite length.
    pub fn serialize_map(self, len: Option<usize>) -> (result: Result<
        ComplexSerializer,
        EncodeError,
    >)
        ensures
            result matches Ok(aggregate) && aggregate.output() == self@ + item_bytes(
                ItemView::MapStart(declared_count(len)),
            ) && aggregate.nesting() == NestingView::empty().after(
                ItemView::MapStart(declared_count(len)),
            ) && aggregate.variants_by_index() == self.variants_by_index(),
    {
        self.open_aggregate(&Item::map_start(len))
    }

    /// Opens a record with named fields: a map of `len` pairs, whatever its
    /// name. Its fields are written with [ComplexSerializer::serialize_field].
    pub fn serialize_struct(self, name: &str, len: usize) -> (result: Result<
        ComplexSerializer,
        EncodeError,
    >)
        ensures
            result matches Ok(aggregate) && aggregate.output() == self@ + item_bytes(
                ItemView::MapStart(Some(len as u64)),
            ) && aggregate.nesting() == NestingView::empty().after(
                ItemView::MapStart(Some(len as u64)),
            ) && aggregate.variants_by_index() == self.variants_by_index(),
    {
        self.open_aggregate(&Item::MapStart(Some(len as u64)))
    }

    /// Opens an enumerated variant with one value as payload: a map of one
    /// pair whose key names the variant. The value follows, then
    /// [ComplexSerializer::end].
    pub fn serialize_newtype_variant(self, name: &str, variant_index: u32, variant: &str) -> (result:
        Result<ComplexSerializer, EncodeError>)
        ensures
            result matches Ok(aggregate) && aggregate.output() == self@ + item_bytes(
                ItemView::MapStart(Some(1)),
            ) + item_bytes(variant_item(self.variants_by_index(), variant_index, variant@))
                && aggregate.nesting() == variant_opened(NestingView::empty())
                && aggregate.variants_by_index() == self.variants_by_index(),
    {
        let mut aggregate = ComplexSerializer::new(self);
        match aggregate.serialize_variant(name, variant_index, variant) {
            Ok(()) => Ok(aggregate),
            Err(error) => Err(error),
        }
    }

    /// Opens an enumerated variant with unnamed fields: a map of one pair
    /// whose key names the variant and whose value is an array of `len`
    /// elements. The elements follow, then [ComplexSerializer::end_variant].
    pub fn serialize_tuple_variant(
        self,
        name: &str,
        variant_index: u32,
        variant: &str,
        len: usize,
    ) -> (result: Result<ComplexSerializer, EncodeError>)
        ensures
            result matches Ok(aggregate) && aggregate.output() == self@ + item_bytes(
                ItemView::MapStart(Some(1)),
            ) + item_bytes(variant_item(self.variants_by_index(), variant_index, variant@))
                + item_bytes(ItemView::ArrayStart(Some(len as u64))) && aggregate.nesting()
                == variant_opened(NestingView::empty()).after(
                ItemView::ArrayStart(Some(len as u64)),
            ) && aggregate.variants_by_index() == self.variants_by_index(),
    {
        let mut aggregate = ComplexSerializer::new(self);
        match aggregate.serialize_variant(name, variant_index, variant) {
            Ok(()) => {},
            Err(error) => {
                return Err(error);
            },
        }
        match aggregate.serialize_item(&Item::ArrayStart(Some(len as u64))) {
            Ok(()) => Ok(aggregate),
            Err(error) => Err(error),
        }
    }

    /// Opens an enumerated variant with named fields: a map of one pair whose
    /// key names the variant and whose value is a map of `len` pairs. The
    /// fields follow, then [ComplexSerializer::end_variant].
    pub fn serialize_struct_variant(
        self,
        name: &str,
        variant_index: u32,
        variant: &str,
        len: usize,
    ) -> (result: Result<ComplexSerializer, EncodeError>)
        ensures
            result matches Ok(aggregate) && aggregate.output() == self@ + item_bytes(
                ItemView::MapStart(Some(1)),
            ) + item_bytes(variant_item(self.variants_by_index(), variant_index, variant@))
                + item_bytes(ItemView::MapStart(Some(len as u64))) && aggregate.nesting()
                == variant_opened(NestingView::empty()).after(
                ItemView::MapStart(Some(len as u64)),
            ) && aggregate.variants_by_index() == self.variants_by_index(),
    {
        let mut aggregate = ComplexSerializer::new(self);
        match aggregate.serialize_variant(name, variant_index, variant) {
            Ok(()) => {},
            Err(error) => {
                return Err(error);
            },
        }
        match aggregate.serialize_item(&Item::MapStart(Some(len as u64))) {
            Ok(()) => Ok(aggregate),
            Err(error) => Err(error),
        }
    }
}

} // verus!
