//! What holds of the codec as a whole: streams of items are read back as
//! they were written, strings are framed like numbers, a map cannot end
//! between a key and its value, and reserved initial bytes are refused
//! wherever they stand.

use vstd::prelude::*;
use crate::argument::{head_bytes, parse_head, placement_of, ArgumentPlacement, lemma_head_round_trip};
use crate::common::{spec_additional_information, spec_initial_byte, MajorType};
use crate::item::{item_bytes, parse_item, ItemView};
use crate::nesting::{decode_event, lemma_depth_after, lemma_event_round_trip, Frame, NestingView};

verus! {

/// The bytes of a run of items that is written from the given account on,
/// and the account after it; `None` where one of the items may not stand
/// where it comes, or cannot be written at all.
pub open spec fn encode_events(state: NestingView, items: Seq<ItemView>) -> Option<
    (Seq<u8>, NestingView),
>
    decreases items.len(),
{
    if items.len() == 0 {
        Some((Seq::empty(), state))
    } else if !state.accepts(items[0]) || !items[0].encodable() {
        None
    } else {
        match encode_events(state.after(items[0]), items.drop_first()) {
            None => None,
            Some((bytes, end)) => Some((state.event_bytes(items[0]) + bytes, end)),
        }
    }
}

/// The next `count` items that are read from `bytes` from the given account
/// on, the number of bytes that they take, and the account after them; `None`
/// where the reading of one of them is refused.
pub open spec fn decode_events(
    state: NestingView,
    bytes: Seq<u8>,
    count: nat,
    max_depth: nat,
) -> Option<(Seq<ItemView>, nat, NestingView)>
    decreases count,
{
    if count == 0 {
        Some((Seq::empty(), 0, state))
    } else {
        match decode_event(state, bytes, max_depth) {
            None => None,
            Some((item, used, next)) => match decode_events(
                next,
                bytes.skip(used as int),
                (count - 1) as nat,
                max_depth,
            ) {
                None => None,
                Some((items, more, end)) => Some((seq![item] + items, used + more, end)),
            },
        }
    }
}

/// The largest number of aggregates that are open at once while the items
/// are written from the given account on.
pub open spec fn deepest(state: NestingView, items: Seq<ItemView>) -> nat
    decreases items.len(),
{
    if items.len() == 0 {
        state.frames.len()
    } else {
        let later = deepest(state.after(items[0]), items.drop_first());
        if later > state.frames.len() {
            later
        } else {
            state.frames.len()
        }
    }
}

/// Round trip: a run of items that can be written is read back as the same
/// items, whatever follows it. The reading takes exactly the bytes that were
/// written and ends with the same account, provided that the nesting stays
/// within the ceiling of the reader.
pub proof fn lemma_stream_round_trip(
    state: NestingView,
    items: Seq<ItemView>,
    rest: Seq<u8>,
    max_depth: nat,
)
    requires
        encode_events(state, items) is Some,
        deepest(state, items) <= max_depth,
    ensures
        decode_events(
            state,
            encode_events(state, items).unwrap().0 + rest,
            items.len(),
            max_depth,
        ) == Some(
            (
                items,
                encode_events(state, items).unwrap().0.len(),
                encode_events(state, items).unwrap().1,
            ),
        ),
    decreases items.len(),
{
    if items.len() > 0 {
        let first = items[0];
        let next = state.after(first);
        let later = items.drop_first();
        let written = state.event_bytes(first);
        let (bytes, end) = encode_events(next, later).unwrap();
        let whole = written + bytes + rest;
        assert(whole =~= written + (bytes + rest));
        lemma_depth_after(state, first);
        assert(deepest(next, later) >= next.frames.len());
        lemma_event_round_trip(state, first, bytes + rest, max_depth);
        assert(whole.skip(written.len() as int) =~= bytes + rest);
        lemma_stream_round_trip(next, later, rest, max_depth);
        assert(seq![first] + later =~= items);
    }
}

/// String framing: a byte string of some length is the head of an unsigned
/// integer of that value, with the major type of byte strings in the three
/// high bits of the initial byte, followed by exactly the bytes of the string.
pub proof fn lemma_string_framing(payload: Seq<u8>)
    requires
        payload.len() <= u64::MAX,
    ensures
        ({
            let number = item_bytes(ItemView::Unsigned(payload.len() as u64));
            let string = item_bytes(ItemView::Bytes(payload));
            &&& string.len() == number.len() + payload.len()
            &&& string[0] == number[0] + MajorType::ByteString.spec_bits()
            &&& string.subrange(1, number.len() as int) == number.skip(1)
            &&& string.skip(number.len() as int) == payload
        }),
{
    let length = payload.len() as u64;
    let number = head_bytes(MajorType::UnsignedInteger, length);
    let framing = head_bytes(MajorType::ByteString, length);
    let string = item_bytes(ItemView::Bytes(payload));
    assert(placement_of(length).spec_information(length) < 32);
    assert(string.subrange(1, number.len() as int) =~= number.skip(1));
    assert(string.skip(number.len() as int) =~= payload);
}

/// Map parity: while a key stands without its value the map cannot end.
/// Neither does the reader take the map for full, nor does it accept a break;
/// what it reads next, if anything, is the value.
pub proof fn lemma_no_end_between_key_and_value(
    state: NestingView,
    bytes: Seq<u8>,
    max_depth: nat,
)
    requires
        state.frames.len() > 0,
        state.frames.last().awaiting_value,
    ensures
        !state.accepts(ItemView::Break),
        decode_event(state, bytes, max_depth) matches Some((item, used, next)) ==> !(
        item is Break),
        parse_item(bytes) matches Some((item, used)) && item is Break ==> decode_event(
            state,
            bytes,
            max_depth,
        ) is None,
{
    reveal(decode_event);
}

/// Reserved initial bytes: where the additional information is 28, 29 or 30
/// nothing is read, under every major type and whatever follows, unless the
/// innermost aggregate is full, so that no byte is looked at.
pub proof fn lemma_reserved_information_refused(
    state: NestingView,
    bytes: Seq<u8>,
    max_depth: nat,
)
    requires
        bytes.len() > 0,
        28 <= spec_additional_information(bytes[0]) <= 30,
    ensures
        parse_head(bytes) is None,
        parse_item(bytes) is None,
        !state.ends_by_count() ==> decode_event(state, bytes, max_depth) is None,
{
    reveal(decode_event);
}

/// Every major type has such initial bytes: the byte made of a major type and
/// one of 28, 29 and 30 is refused.
pub proof fn lemma_reserved_initial_byte(major: MajorType, information: u8, rest: Seq<u8>)
    requires
        28 <= information <= 30,
    ensures
        parse_item(seq![spec_initial_byte(major, information)] + rest) is None,
{
    let bytes = seq![spec_initial_byte(major, information)] + rest;
    crate::common::lemma_initial_byte_parts(major, information);
    assert(bytes[0] == spec_initial_byte(major, information));
}

/// Minimality: the head of an item takes the initial byte and the bytes of
/// the smallest placement that holds its argument; no placement that holds
/// the argument would take fewer.
pub proof fn lemma_head_is_minimal(major: MajorType, argument: u64, other: ArgumentPlacement)
    requires
        other.holds(argument as nat),
    ensures
        head_bytes(major, argument).len() == 1 + placement_of(argument).spec_width(),
        placement_of(argument).holds(argument as nat),
        head_bytes(major, argument).len() <= 1 + other.spec_width(),
{
    lemma_head_round_trip(major, argument, Seq::empty());
}

/// Whether the item is a value by itself: it neither opens nor ends an
/// aggregate, and is no tag.
pub open spec fn is_scalar(item: ItemView) -> bool {
    !(item is Break) && !item.opens_aggregate() && !(item is Tag)
}

/// The bytes of the items, one after the other.
pub open spec fn concat_bytes(items: Seq<ItemView>) -> Seq<u8>
    decreases items.len(),
{
    if items.len() == 0 {
        Seq::empty()
    } else {
        item_bytes(items[0]) + concat_bytes(items.drop_first())
    }
}

/// The bytes that end an array: the break where its length is indefinite,
/// nothing where its count is declared.
pub open spec fn ending_bytes(count: Option<u64>) -> Seq<u8> {
    match count {
        Some(_) => Seq::empty(),
        None => item_bytes(ItemView::Break),
    }
}

/// The elements of an open array and its end are written as the bytes of the
/// elements in order, followed by the break where the length is indefinite
/// and by nothing where the count is declared and kept.
proof fn lemma_elements_then_end(base: Seq<Frame>, frame: Frame, elements: Seq<ItemView>)
    requires
        !frame.is_map,
        !frame.awaiting_value,
        frame.indefinite_length || frame.remaining == elements.len(),
        forall|i: int| 0 <= i < elements.len() ==> is_scalar(elements[i]) && (
        #[trigger] elements[i]).encodable(),
    ensures
        encode_events(
            NestingView { frames: base.push(frame), tagged: false },
            elements + seq![ItemView::Break],
        ) == Some(
            (
                concat_bytes(elements) + if frame.indefinite_length {
                    item_bytes(ItemView::Break)
                } else {
                    Seq::empty()
                },
                NestingView { frames: base, tagged: false },
            ),
        ),
    decreases elements.len(),
{
    let state = NestingView { frames: base.push(frame), tagged: false };
    let items = elements + seq![ItemView::Break];
    let closed = NestingView { frames: base, tagged: false };
    assert(state.frames.last() == frame);
    if elements.len() == 0 {
        assert(items[0] == ItemView::Break);
        assert(state.frames.drop_last() =~= base);
        assert(items.drop_first() =~= Seq::<ItemView>::empty());
        assert(encode_events(closed, items.drop_first()) == Some((Seq::<u8>::empty(), closed)));
        assert(state.event_bytes(ItemView::Break) + Seq::<u8>::empty() =~= concat_bytes(elements)
            + state.event_bytes(ItemView::Break));
    } else {
        let first = elements[0];
        assert(items[0] == first);
        assert(is_scalar(first) && first.encodable());
        let counted = frame.after_item();
        assert(state.counted() =~= base.push(counted));
        assert(state.after(first) == NestingView { frames: base.push(counted), tagged: false });
        assert(items.drop_first() =~= elements.drop_first() + seq![ItemView::Break]);
        lemma_elements_then_end(base, counted, elements.drop_first());
        let tail_bytes = concat_bytes(elements.drop_first()) + if frame.indefinite_length {
            item_bytes(ItemView::Break)
        } else {
            Seq::empty()
        };
        assert(item_bytes(first) + tail_bytes =~= concat_bytes(elements) + if frame.indefinite_length {
            item_bytes(ItemView::Break)
        } else {
            Seq::empty()
        });
    }
}

/// Aggregates: an array of values that are written one by one is its head,
/// then the bytes of its elements in order, then its end. With a declared
/// count the head holds the number of the elements and the end takes no byte;
/// with an indefinite length the end is the break. Nothing is left open.
pub proof fn lemma_array_of_scalars(count: Option<u64>, elements: Seq<ItemView>)
    requires
        count matches Some(declared) ==> declared == elements.len(),
        forall|i: int| 0 <= i < elements.len() ==> is_scalar(elements[i]) && (
        #[trigger] elements[i]).encodable(),
    ensures
        encode_events(
            NestingView::empty(),
            seq![ItemView::ArrayStart(count)] + elements + seq![ItemView::Break],
        ) == Some(
            (
                item_bytes(ItemView::ArrayStart(count)) + concat_bytes(elements) + ending_bytes(
                    count,
                ),
                NestingView::empty(),
            ),
        ),
{
    let state = NestingView::empty();
    let opening = ItemView::ArrayStart(count);
    let items = seq![opening] + elements + seq![ItemView::Break];
    let frame = Frame::opened(false, count);
    assert(items[0] == opening);
    assert(items.drop_first() =~= elements + seq![ItemView::Break]);
    assert(state.counted() =~= Seq::<Frame>::empty());
    assert(state.after(opening) == NestingView {
        frames: Seq::<Frame>::empty().push(frame),
        tagged: false,
    });
    lemma_elements_then_end(Seq::empty(), frame, elements);
    assert(item_bytes(opening) + (concat_bytes(elements) + ending_bytes(count)) =~= item_bytes(
        opening,
    ) + concat_bytes(elements) + ending_bytes(count));
}

} // verus!
