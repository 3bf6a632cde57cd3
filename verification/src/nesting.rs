//! The framing of aggregates: which item may stand where.
//!
//! A stream is a run of items. The head of an array or a map opens a frame,
//! the items that follow are counted in it, and a break closes it. With a
//! declared count the break takes no byte: the frame is full and ends by
//! itself. With an indefinite length the break is the byte 0xFF. A map takes
//! keys and values in turn and can only end after a value. A tag belongs to
//! the item after it and is not counted by itself.
//!
//! The serializer and the deserializer keep the same account, so what the one
//! accepts the other reads back.

use vstd::prelude::*;
use crate::item::{item_bytes, parse_item, Item, ItemView, lemma_item_round_trip};

verus! {

/// The account of one open aggregate.
#[derive(Clone, Copy, Debug, PartialEq, Eq, Structural)]
pub struct Frame {
    /// Whether the aggregate is a map, which takes keys and values in turn.
    pub is_map: bool,
    /// Whether the aggregate declared no count and ends at a break.
    pub indefinite_length: bool,
    /// With a declared count, the elements (of a map: the pairs) that are
    /// still to begin.
    pub remaining: u64,
    /// Whether a key of a map stands without its value.
    pub awaiting_value: bool,
}

impl Frame {
    /// The frame of an aggregate that was just opened.
    pub open spec fn opened(is_map: bool, count: Option<u64>) -> Frame {
        Frame {
            is_map,
            indefinite_length: count is None,
            remaining: match count {
                Some(count) => count,
                None => 0,
            },
            awaiting_value: false,
        }
    }

    /// Whether one more item may stand in the aggregate.
    pub open spec fn takes_item(self) -> bool {
        self.awaiting_value || self.indefinite_length || self.remaining > 0
    }

    /// The frame after one more item: a value completes its pair, anything
    /// else begins an element or a pair, which a declared count is charged for.
    pub open spec fn after_item(self) -> Frame {
        if self.awaiting_value {
            Frame { awaiting_value: false, ..self }
        } else {
            Frame {
                remaining: if self.indefinite_length {
                    self.remaining
                } else {
                    (self.remaining - 1) as u64
                },
                awaiting_value: self.is_map,
                ..self
            }
        }
    }

    /// Whether the aggregate may end here: no key stands without its value,
    /// and a declared count is used up.
    pub open spec fn may_end(self) -> bool {
        !self.awaiting_value && (self.indefinite_length || self.remaining == 0)
    }

    /// Whether the aggregate is full: it declared a count, and may end.
    pub open spec fn is_full(self) -> bool {
        !self.indefinite_length && self.may_end()
    }
}

/// The account of all open aggregates, as contracts see it.
pub struct NestingView {
    /// The open aggregates, the innermost last.
    pub frames: Seq<Frame>,
    /// Whether a tag stands without the item that it applies to.
    pub tagged: bool,
}

impl NestingView {
    /// The account of a stream in which nothing is open.
    pub open spec fn empty() -> NestingView {
        NestingView { frames: Seq::empty(), tagged: false }
    }

    /// Whether one more item may stand here: at the top level always, inside
    /// an aggregate where its frame takes one.
    pub open spec fn takes_item(self) -> bool {
        self.frames.len() == 0 || self.frames.last().takes_item()
    }

    /// Whether the innermost aggregate is full, so that it ends here without
    /// a byte being written or read.
    pub open spec fn ends_by_count(self) -> bool {
        self.frames.len() > 0 && !self.tagged && self.frames.last().is_full()
    }

    /// Whether the item may stand here. A break needs an open aggregate that
    /// may end, and no tag before it; every other item needs room.
    pub open spec fn accepts(self, item: ItemView) -> bool {
        match item {
            ItemView::Break => !self.tagged && self.frames.len() > 0
                && self.frames.last().may_end(),
            _ => self.takes_item(),
        }
    }

    /// The frames after the innermost one has counted one more item.
    pub open spec fn counted(self) -> Seq<Frame> {
        if self.frames.len() == 0 {
            self.frames
        } else {
            self.frames.drop_last().push(self.frames.last().after_item())
        }
    }

    /// The account after the item.
    pub open spec fn after(self, item: ItemView) -> NestingView {
        match item {
            ItemView::Break => NestingView { frames: self.frames.drop_last(), tagged: false },
            ItemView::Tag(_) => NestingView { frames: self.frames, tagged: true },
            ItemView::ArrayStart(count) => NestingView {
                frames: self.counted().push(Frame::opened(false, count)),
                tagged: false,
            },
            ItemView::MapStart(count) => NestingView {
                frames: self.counted().push(Frame::opened(true, count)),
                tagged: false,
            },
            _ => NestingView { frames: self.counted(), tagged: false },
        }
    }

    /// The bytes that the item takes here: those of the item, but for the
    /// break of an aggregate with a declared count, which takes none.
    pub open spec fn event_bytes(self, item: ItemView) -> Seq<u8> {
        if item is Break && self.frames.len() > 0 && !self.frames.last().indefinite_length {
            Seq::empty()
        } else {
            item_bytes(item)
        }
    }

    /// Whether everything that was opened is closed, and no tag is left
    /// without its item.
    pub open spec fn is_complete(self) -> bool {
        self.frames.len() == 0 && !self.tagged
    }
}

/// The account of all open aggregates.
#[derive(Debug)]
pub struct Nesting {
    frames: Vec<Frame>,
    tagged: bool,
}

impl View for Nesting {
    type V = NestingView;

    closed spec fn view(&self) -> NestingView {
        NestingView { frames: self.frames@, tagged: self.tagged }
    }
}

impl Nesting {
    /// The account of a stream in which nothing is open.
    pub fn new() -> (nesting: Self)
        ensures
            nesting@ == NestingView::empty(),
    {
        Nesting { frames: Vec::new(), tagged: false }
    }

    /// The number of open aggregates.
    pub fn depth(&self) -> (depth: usize)
        ensures
            depth == self@.frames.len(),
    {
        self.frames.len()
    }

    /// The frame of the innermost open aggregate.
    pub fn innermost(&self) -> (frame: Option<Frame>)
        ensures
            frame == if self@.frames.len() > 0 {
                Some(self@.frames.last())
            } else {
                None
            },
    {
        let depth = self.frames.len();
        if depth > 0 {
            Some(self.frames[depth - 1])
        } else {
            None
        }
    }

    /// Whether a tag stands without the item that it applies to.
    pub fn is_tagged(&self) -> (tagged: bool)
        ensures
            tagged == self@.tagged,
    {
        self.tagged
    }

    /// Whether everything that was opened is closed.
    pub fn is_complete(&self) -> (complete: bool)
        ensures
            complete == self@.is_complete(),
    {
        self.frames.len() == 0 && !self.tagged
    }

    /// Whether the innermost aggregate is full and ends here by itself.
    pub fn ends_by_count(&self) -> (full: bool)
        ensures
            full == self@.ends_by_count(),
    {
        match self.innermost() {
            Some(frame) => !self.tagged && !frame.indefinite_length && !frame.awaiting_value
                && frame.remaining == 0,
            None => false,
        }
    }

    /// Whether a break takes no byte here: the innermost aggregate declared
    /// its count.
    pub fn ends_silently(&self) -> (silent: bool)
        ensures
            silent == (self@.frames.len() > 0 && !self@.frames.last().indefinite_length),
    {
        match self.innermost() {
            Some(frame) => !frame.indefinite_length,
            None => false,
        }
    }

    /// Whether the two innermost aggregates may end here, one after the
    /// other.
    pub fn ends_twice(&self) -> (twice: bool)
        ensures
            twice == (self@.accepts(ItemView::Break) && self@.after(ItemView::Break).accepts(
                ItemView::Break,
            )),
    {
        let depth = self.frames.len();
        if depth < 2 || self.tagged {
            return false;
        }
        let inner = self.frames[depth - 1];
        let outer = self.frames[depth - 2];
        assert(self@.after(ItemView::Break).frames.last() == outer);
        !inner.awaiting_value && (inner.indefinite_length || inner.remaining == 0)
            && !outer.awaiting_value && (outer.indefinite_length || outer.remaining == 0)
    }

    /// Whether the item may stand here.
    pub fn accepts(&self, item: &Item) -> (accepted: bool)
        ensures
            accepted == self@.accepts(item@),
    {
        match self.innermost() {
            Some(frame) => match item {
                Item::Break => !self.tagged && !frame.awaiting_value && (frame.indefinite_length
                    || frame.remaining == 0),
                _ => frame.awaiting_value || frame.indefinite_length || frame.remaining > 0,
            },
            None => match item {
                Item::Break => false,
                _ => true,
            },
        }
    }

    /// Counts one more item in the innermost aggregate.
    fn count_item(&mut self)
        requires
            old(self)@.takes_item(),
        ensures
            final(self)@.frames == old(self)@.counted(),
            final(self)@.tagged == old(self)@.tagged,
    {
        match self.frames.pop() {
            Some(frame) => {
                let counted = if frame.awaiting_value {
                    Frame { awaiting_value: false, ..frame }
                } else {
                    Frame {
                        remaining: if frame.indefinite_length {
                            frame.remaining
                        } else {
                            frame.remaining - 1
                        },
                        awaiting_value: frame.is_map,
                        ..frame
                    }
                };
                self.frames.push(counted);
                assert(self.frames@ =~= old(self)@.counted());
            },
            None => {},
        }
    }

    /// Takes the item into the account where it may stand here, and says
    /// whether it did; where it may not, the account stays as it was.
    pub fn take(&mut self, item: &Item) -> (accepted: bool)
        ensures
            accepted == old(self)@.accepts(item@),
            accepted ==> final(self)@ == old(self)@.after(item@),
            !accepted ==> *final(self) == *old(self),
    {
        if !self.accepts(item) {
            return false;
        }
        match item {
            Item::Break => {
                self.frames.pop();
                self.tagged = false;
                assert(self.frames@ =~= old(self)@.frames.drop_last());
            },
            Item::Tag(_) => {
                self.tagged = true;
            },
            Item::ArrayStart(count) => {
                self.count_item();
                self.frames.push(
                    Frame {
                        is_map: false,
                        indefinite_length: count.is_none(),
                        remaining: match count {
                            Some(count) => *count,
                            None => 0,
                        },
                        awaiting_value: false,
                    },
                );
                self.tagged = false;
            },
            Item::MapStart(count) => {
                self.count_item();
                self.frames.push(
                    Frame {
                        is_map: true,
                        indefinite_length: count.is_none(),
                        remaining: match count {
                            Some(count) => *count,
                            None => 0,
                        },
                        awaiting_value: false,
                    },
                );
                self.tagged = false;
            },
            _ => {
                self.count_item();
                self.tagged = false;
            },
        }
        true
    }
}

/// What follows at the start of `bytes` in a stream with the given account:
/// the item, the number of bytes that it takes, and the account after it.
/// Where the innermost aggregate is full, that is its end, and no byte is
/// read. Else it is the item that the bytes spell, if it may stand here and,
/// where it opens an aggregate, fewer than `max_depth` are open. `None` where
/// the bytes are malformed, the item may not stand here, or the nesting would
/// go beyond the ceiling.
#[verifier::opaque]
pub open spec fn decode_event(state: NestingView, bytes: Seq<u8>, max_depth: nat) -> Option<
    (ItemView, nat, NestingView),
> {
    if state.ends_by_count() {
        Some((ItemView::Break, 0, state.after(ItemView::Break)))
    } else {
        match parse_item(bytes) {
            None => None,
            Some((item, used)) => if state.accepts(item) && (item.opens_aggregate()
                ==> state.frames.len() < max_depth) {
                Some((item, used, state.after(item)))
            } else {
                None
            },
        }
    }
}

/// An item that was written where it may stand is read back as that item,
/// whatever follows it: the reading takes exactly its bytes and leaves the
/// same account as the writing did.
pub proof fn lemma_event_round_trip(
    state: NestingView,
    item: ItemView,
    rest: Seq<u8>,
    max_depth: nat,
)
    requires
        state.accepts(item),
        item.encodable(),
        item.opens_aggregate() ==> state.frames.len() < max_depth,
    ensures
        decode_event(state, state.event_bytes(item) + rest, max_depth) == Some(
            (item, state.event_bytes(item).len(), state.after(item)),
        ),
{
    reveal(decode_event);
    if state.ends_by_count() {
        assert(item is Break);
    } else {
        lemma_item_round_trip(item, rest);
    }
}

/// The head of an aggregate opens one more aggregate.
pub proof fn lemma_depth_after(state: NestingView, item: ItemView)
    ensures
        item.opens_aggregate() ==> state.after(item).frames.len() == state.frames.len() + 1,
{
}

} // verus!
