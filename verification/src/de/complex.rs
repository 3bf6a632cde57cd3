//! The complex deserializer

use vstd::prelude::*;
use crate::de::basic::{lemma_parse_item_within, BasicDeserializer};
use crate::error::DecodeError;
use crate::item::{Item, ItemView};
use crate::nesting::{decode_event, Nesting, NestingView};

verus! {

/// The number of aggregates that may be open at once where no other ceiling
/// is given.
pub const DEFAULT_MAX_DEPTH: usize = 128;

/// The complex deserializer type: it reads items through a
/// [BasicDeserializer] and keeps the account of the aggregates that are open,
/// so that it knows where each of them ends and refuses what is not framed
/// as it must be.
pub struct ComplexDeserializer {
    decoder: BasicDeserializer,
    nesting: Nesting,
    max_depth: usize,
}

/// What [ComplexDeserializer::next_element] makes of an item: the end of an
/// aggregate is no element.
pub open spec fn element_of(item: ItemView) -> Option<ItemView> {
    if item is Break {
        None
    } else {
        Some(item)
    }
}

/// Whether the item can name an enumerated variant: it is an unsigned
/// integer, the index, or a text string, the name.
pub open spec fn names_variant(item: ItemView) -> bool {
    item is Unsigned || item is Text
}

/// The enumerated variant that follows: the item that names it, whether a
/// payload follows, the number of bytes read, and the account after them. A
/// variant without payload is the item that names it. A variant with payload
/// is a map of one pair whose key names it; the head of the map and the key
/// are read, and the payload follows as the value. Malformed where one of
/// the two items cannot be read or may not stand where it does; a mismatch
/// where they can be read and are none of this.
pub open spec fn decode_variant(state: NestingView, bytes: Seq<u8>, max_depth: nat) -> Result<
    (ItemView, bool, nat, NestingView),
    DecodeError,
> {
    match decode_event(state, bytes, max_depth) {
        None => Err(DecodeError::Malformed),
        Some((first, used, next)) => if names_variant(first) {
            Ok((first, false, used, next))
        } else if first == ItemView::MapStart(Some(1)) {
            match decode_event(next, bytes.skip(used as int), max_depth) {
                None => Err(DecodeError::Malformed),
                Some((key, more, opened)) => if names_variant(key) {
                    Ok((key, true, (used + more) as nat, opened))
                } else {
                    Err(DecodeError::TypeMismatch)
                },
            }
        } else {
            Err(DecodeError::TypeMismatch)
        },
    }
}

impl ComplexDeserializer {
    /// The bytes that are not read yet.
    pub closed spec fn input(&self) -> Seq<u8> {
        self.decoder@
    }

    /// The account of the aggregates that are open.
    pub closed spec fn nesting(&self) -> NestingView {
        self.nesting@
    }

    /// The number of aggregates that may be open at once.
    pub closed spec fn max_depth(&self) -> nat {
        self.max_depth as nat
    }

    /// A complex deserializer that reads through `decoder`, with no aggregate
    /// open and the default ceiling on nesting.
    pub fn new(decoder: BasicDeserializer) -> (deserializer: Self)
        ensures
            deserializer.input() == decoder@,
            deserializer.nesting() == NestingView::empty(),
            deserializer.max_depth() == DEFAULT_MAX_DEPTH,
    {
        ComplexDeserializer { decoder, nesting: Nesting::new(), max_depth: DEFAULT_MAX_DEPTH }
    }

    /// A complex deserializer that lets at most `max_depth` aggregates be
    /// open at once.
    pub fn with_max_depth(decoder: BasicDeserializer, max_depth: usize) -> (deserializer: Self)
        ensures
            deserializer.input() == decoder@,
            deserializer.nesting() == NestingView::empty(),
            deserializer.max_depth() == max_depth,
    {
        ComplexDeserializer { decoder, nesting: Nesting::new(), max_depth }
    }

    /// The number of aggregates that are open.
    pub fn depth(&self) -> (depth: usize)
        ensures
            depth == self.nesting().frames.len(),
    {
        self.nesting.depth()
    }

    /// Whether everything that was opened is closed.
    pub fn is_complete(&self) -> (complete: bool)
        ensures
            complete == self.nesting().is_complete(),
    {
        self.nesting.is_complete()
    }

    /// The number of bytes that are not read yet.
    pub fn remaining(&self) -> (len: usize)
        ensures
            len == self.input().len(),
    {
        self.decoder.remaining()
    }

    /// Gives back the basic deserializer when everything that was opened is
    /// closed; else it refuses.
    pub fn finish(self) -> (result: Result<BasicDeserializer, DecodeError>)
        ensures
            match result {
                Ok(decoder) => self.nesting().is_complete() && decoder@ == self.input(),
                Err(error) => !self.nesting().is_complete() && error is Malformed,
            },
    {
        if self.nesting.is_complete() {
            Ok(self.decoder)
        } else {
            Err(DecodeError::Malformed)
        }
    }

    /// Says what follows, how many bytes it takes, and leaves everything in
    /// place.
    fn peek_event(&self) -> (result: Result<(Item, usize), DecodeError>)
        ensures
            match decode_event(self.nesting(), self.input(), self.max_depth()) {
                Some((item, used, state)) => result matches Ok((found, taken)) && found@ == item
                    && taken == used && used <= self.input().len() && self.nesting().accepts(item)
                    && state == self.nesting().after(item),
                None => result matches Err(DecodeError::Malformed),
            },
    {
        reveal(decode_event);
        if self.nesting.ends_by_count() {
            return Ok((Item::Break, 0));
        }
        match self.decoder.peek_item() {
            Ok((item, used)) => {
                let opens = match item {
                    Item::ArrayStart(_) | Item::MapStart(_) => true,
                    _ => false,
                };
                if opens && self.nesting.depth() >= self.max_depth {
                    return Err(DecodeError::Malformed);
                }
                if !self.nesting.accepts(&item) {
                    return Err(DecodeError::Malformed);
                }
                proof {
                    lemma_parse_item_within(self.decoder@);
                }
                Ok((item, used))
            },
            Err(error) => Err(error),
        }
    }

    /// Says which key follows the head of a map of one pair that stands
    /// next and takes `used` bytes, and leaves everything in place.
    fn peek_key(&self, used: usize) -> (result: Result<(Item, usize), DecodeError>)
        requires
            used <= self.input().len(),
            self.nesting().takes_item(),
        ensures
            ({
                let opened = self.nesting().after(ItemView::MapStart(Some(1)));
                match decode_event(opened, self.input().skip(used as int), self.max_depth()) {
                    Some((item, more, state)) => result matches Ok((found, taken)) && found@
                        == item && taken == more && more <= self.input().skip(used as int).len()
                        && opened.accepts(item) && state == opened.after(item),
                    None => result matches Err(DecodeError::Malformed),
                }
            }),
    {
        reveal(decode_event);
        let ghost opened = self.nesting().after(ItemView::MapStart(Some(1)));
        assert(opened.frames.last() == crate::nesting::Frame::opened(true, Some(1)));
        match self.decoder.peek_item_after(used) {
            Ok((item, more)) => {
                let refused = match item {
                    Item::Break => true,
                    Item::ArrayStart(_) | Item::MapStart(_) => self.max_depth == 0
                        || self.nesting.depth() >= self.max_depth - 1,
                    _ => false,
                };
                if refused {
                    return Err(DecodeError::Malformed);
                }
                proof {
                    lemma_parse_item_within(self.decoder@.skip(used as int));
                }
                Ok((item, more))
            },
            Err(error) => Err(error),
        }
    }

    /// Takes the item that was found to follow, and passes over its bytes.
    fn commit(&mut self, item: &Item, used: usize)
        requires
            old(self).nesting().accepts(item@),
            used <= old(self).input().len(),
        ensures
            final(self).input() == old(self).input().skip(used as int),
            final(self).nesting() == old(self).nesting().after(item@),
            final(self).max_depth() == old(self).max_depth(),
    {
        let accepted = self.nesting.take(item);
        assert(accepted);
        self.decoder.advance(used);
    }

    /// Reads what follows: the next item, or the end of the innermost
    /// aggregate, which is given as [Item::Break]. An aggregate with a
    /// declared count ends when it is full, without a byte being read; one of
    /// indefinite length ends at its break. The head of an aggregate opens
    /// it. Where the bytes are malformed, the item may not stand here (a
    /// break at the top level, in an aggregate that is not full, or between a
    /// key and its value), or the nesting would go beyond the ceiling, the
    /// reading is refused and nothing is passed over.
    pub fn next_item(&mut self) -> (result: Result<Item, DecodeError>)
        ensures
            match decode_event(old(self).nesting(), old(self).input(), old(self).max_depth()) {
                Some((item, used, state)) => result matches Ok(found) && found@ == item
                    && final(self).input() == old(self).input().skip(used as int)
                    && final(self).nesting() == state,
                None => (result matches Err(DecodeError::Malformed)) && *final(self) == *old(
                    self,
                ),
            },
            final(self).max_depth() == old(self).max_depth(),
    {
        match self.peek_event() {
            Ok((item, used)) => {
                self.commit(&item, used);
                Ok(item)
            },
            Err(error) => Err(error),
        }
    }

    /// Reads the next element of the innermost aggregate, or says that the
    /// aggregate has ended: what [ComplexDeserializer::next_item] reads, with
    /// `None` in place of the end.
    pub fn next_element(&mut self) -> (result: Result<Option<Item>, DecodeError>)
        ensures
            match decode_event(old(self).nesting(), old(self).input(), old(self).max_depth()) {
                Some((item, used, state)) => result matches Ok(found) && (match found {
                    Some(element) => Some(element@),
                    None => None,
                }) == element_of(item) && final(self).input() == old(self).input().skip(
                    used as int,
                ) && final(self).nesting() == state,
                None => (result matches Err(DecodeError::Malformed)) && *final(self) == *old(
                    self,
                ),
            },
            final(self).max_depth() == old(self).max_depth(),
    {
        match self.next_item() {
            Ok(Item::Break) => Ok(None),
            Ok(item) => Ok(Some(item)),
            Err(error) => Err(error),
        }
    }

    /// Says what follows, as [ComplexDeserializer::next_item] would read it,
    /// and leaves everything in place.
    pub fn peek(&self) -> (result: Result<Item, DecodeError>)
        ensures
            match decode_event(self.nesting(), self.input(), self.max_depth()) {
                Some((item, used, state)) => result matches Ok(found) && found@ == item,
                None => result matches Err(DecodeError::Malformed),
            },
    {
        match self.peek_event() {
            Ok((item, _)) => Ok(item),
            Err(error) => Err(error),
        }
    }

    /// Reads the enumerated variant that follows: the item that names it, by
    /// index or by name, and whether a payload follows. For a variant with
    /// payload the map of one pair around it is opened and its key read; the
    /// payload is what follows, and after it the map ends. Where this
    /// refuses, nothing is passed over.
    pub fn next_variant(&mut self) -> (result: Result<(Item, bool), DecodeError>)
        ensures
            match decode_variant(old(self).nesting(), old(self).input(), old(self).max_depth()) {
                Ok((name, payload, used, state)) => result matches Ok((found, follows))
                    && found@ == name && follows == payload && final(self).input() == old(
                    self,
                ).input().skip(used as int) && final(self).nesting() == state,
                Err(error) => result matches Err(found) && found == error && *final(self) == *old(
                    self,
                ),
            },
            final(self).max_depth() == old(self).max_depth(),
    {
        let (first, used) = match self.peek_event() {
            Ok(found) => found,
            Err(error) => {
                return Err(error);
            },
        };
        match first {
            Item::Unsigned(_) | Item::Text(_) => {
                self.commit(&first, used);
                Ok((first, false))
            },
            Item::MapStart(Some(1)) => {
                let (key, more) = match self.peek_key(used) {
                    Ok(found) => found,
                    Err(error) => {
                        return Err(error);
                    },
                };
                match key {
                    Item::Unsigned(_) | Item::Text(_) => {},
                    _ => {
                        return Err(DecodeError::TypeMismatch);
                    },
                }
                self.commit(&first, used);
                self.commit(&key, more);
                assert(old(self).input().skip(used as int).skip(more as int) =~= old(
                    self,
                ).input().skip(used + more));
                Ok((key, true))
            },
            _ => Err(DecodeError::TypeMismatch),
        }
    }
}

} // verus!
