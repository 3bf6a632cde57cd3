//! The argument of a data item: where it is placed, how it is laid out in
//! bytes, and how the head of an item (initial byte and argument) is read back.

use vstd::prelude::*;
use crate::common::{MajorType, spec_major_type, spec_additional_information, spec_initial_byte, major_type, additional_information};
use crate::error::{DecodeError, EncodeError};

verus! {

/// Where the argument of a data item stands: in the five low bits of the
/// initial byte, or in the 1, 2, 4 or 8 bytes that follow it.
#[derive(Clone, Copy, Debug, PartialEq, Eq, Structural)]
pub enum ArgumentPlacement {
    AdditionalInformation,
    NextByte,
    NextTwoBytes,
    NextFourBytes,
    NextEightBytes,
}

impl ArgumentPlacement {
    /// The number of bytes that follow the initial byte.
    pub open spec fn spec_width(self) -> nat {
        match self {
            ArgumentPlacement::AdditionalInformation => 0,
            ArgumentPlacement::NextByte => 1,
            ArgumentPlacement::NextTwoBytes => 2,
            ArgumentPlacement::NextFourBytes => 4,
            ArgumentPlacement::NextEightBytes => 8,
        }
    }

    /// The number of bytes that follow the initial byte.
    pub fn width(self) -> (width: usize)
        ensures
            width == self.spec_width(),
    {
        match self {
            ArgumentPlacement::AdditionalInformation => 0,
            ArgumentPlacement::NextByte => 1,
            ArgumentPlacement::NextTwoBytes => 2,
            ArgumentPlacement::NextFourBytes => 4,
            ArgumentPlacement::NextEightBytes => 8,
        }
    }

    /// The largest magnitude that this placement can hold.
    pub open spec fn capacity(self) -> nat {
        match self {
            ArgumentPlacement::AdditionalInformation => 23,
            ArgumentPlacement::NextByte => 0xFF,
            ArgumentPlacement::NextTwoBytes => 0xFFFF,
            ArgumentPlacement::NextFourBytes => 0xFFFF_FFFF,
            ArgumentPlacement::NextEightBytes => 0xFFFF_FFFF_FFFF_FFFF,
        }
    }

    /// Whether this placement can hold the magnitude exactly.
    pub open spec fn holds(self, magnitude: nat) -> bool {
        magnitude <= self.capacity()
    }

    /// The additional information that announces this placement for the
    /// magnitude: the magnitude itself where it stands in the initial byte,
    /// else 24, 25, 26 or 27.
    pub open spec fn spec_information(self, magnitude: u64) -> u8 {
        match self {
            ArgumentPlacement::AdditionalInformation => (magnitude % 32) as u8,
            ArgumentPlacement::NextByte => 24,
            ArgumentPlacement::NextTwoBytes => 25,
            ArgumentPlacement::NextFourBytes => 26,
            ArgumentPlacement::NextEightBytes => 27,
        }
    }
}

/// The smallest placement that holds the magnitude.
pub open spec fn placement_of(magnitude: u64) -> ArgumentPlacement {
    if magnitude <= 23 {
        ArgumentPlacement::AdditionalInformation
    } else if magnitude <= 0xFF {
        ArgumentPlacement::NextByte
    } else if magnitude <= 0xFFFF {
        ArgumentPlacement::NextTwoBytes
    } else if magnitude <= 0xFFFF_FFFF {
        ArgumentPlacement::NextFourBytes
    } else {
        ArgumentPlacement::NextEightBytes
    }
}

/// Chooses the smallest placement that holds the magnitude. Each placement
/// takes the magnitudes up to and including the largest that it can hold, so
/// every 64-bit magnitude has one; a magnitude of 2^64 or more never reaches
/// this function, since its callers refuse it first.
pub fn calculate_argument_placement(length: u64) -> (placement: Result<
    ArgumentPlacement,
    EncodeError,
>)
    ensures
        placement == Ok::<ArgumentPlacement, EncodeError>(placement_of(length)),
{
    if length < 24 {
        Ok(ArgumentPlacement::AdditionalInformation)
    } else if length <= 0xFF {
        Ok(ArgumentPlacement::NextByte)
    } else if length <= 0xFFFF {
        Ok(ArgumentPlacement::NextTwoBytes)
    } else if length <= 0xFFFF_FFFF {
        Ok(ArgumentPlacement::NextFourBytes)
    } else {
        Ok(ArgumentPlacement::NextEightBytes)
    }
}

/// The chosen placement holds the magnitude, and no placement that holds the
/// magnitude is narrower.
pub proof fn lemma_placement_is_minimal(magnitude: u64, other: ArgumentPlacement)
    ensures
        placement_of(magnitude).holds(magnitude as nat),
        other.holds(magnitude as nat) ==> placement_of(magnitude).spec_width()
            <= other.spec_width(),
{
}

/// 256 to the power `k`, for the eight byte positions of a 64-bit number.
pub open spec fn weight(k: nat) -> nat {
    if k == 0 {
        1
    } else if k == 1 {
        0x100
    } else if k == 2 {
        0x1_0000
    } else if k == 3 {
        0x100_0000
    } else if k == 4 {
        0x1_0000_0000
    } else if k == 5 {
        0x100_0000_0000
    } else if k == 6 {
        0x1_0000_0000_0000
    } else {
        0x100_0000_0000_0000
    }
}

/// The byte of `value` at position `k`, position 0 being the lowest.
pub open spec fn byte_at(value: u64, k: nat) -> u8 {
    ((value as nat / weight(k)) % 256) as u8
}

/// The `width` low bytes of `value`, highest first (network byte order).
pub open spec fn be_bytes(value: u64, width: nat) -> Seq<u8> {
    Seq::new(width, |i: int| byte_at(value, (width - 1 - i) as nat))
}

/// The number that up to eight bytes spell, highest first.
pub open spec fn be_value(bytes: Seq<u8>) -> nat {
    if bytes.len() == 1 {
        bytes[0] as nat
    } else if bytes.len() == 2 {
        bytes[0] as nat * weight(1) + bytes[1] as nat
    } else if bytes.len() == 4 {
        bytes[0] as nat * weight(3) + bytes[1] as nat * weight(2) + bytes[2] as nat * weight(1)
            + bytes[3] as nat
    } else if bytes.len() == 8 {
        bytes[0] as nat * weight(7) + bytes[1] as nat * weight(6) + bytes[2] as nat * weight(5)
            + bytes[3] as nat * weight(4) + bytes[4] as nat * weight(3) + bytes[5] as nat * weight(
            2,
        ) + bytes[6] as nat * weight(1) + bytes[7] as nat
    } else {
        0
    }
}

/// A number below 256 is spelled by one byte, itself; no number takes a byte
/// where none is asked for.
pub proof fn lemma_one_byte(value: u64)
    requires
        value <= 0xFF,
    ensures
        be_bytes(value, 1) == seq![value as u8],
        be_bytes(value, 0) == Seq::<u8>::empty(),
{
    assert(weight(0) == 1);
    assert(value as nat / 1 == value as nat);
    assert(byte_at(value, 0) == value as u8);
    assert(be_bytes(value, 1) =~= seq![value as u8]);
    assert(be_bytes(value, 0) =~= Seq::<u8>::empty());
}

/// A number that fits in `width` bytes is the number that its bytes spell.
pub proof fn lemma_be_round_trip(value: u64, placement: ArgumentPlacement)
    requires
        placement != ArgumentPlacement::AdditionalInformation,
        placement.holds(value as nat),
    ensures
        be_bytes(value, placement.spec_width()).len() == placement.spec_width(),
        be_value(be_bytes(value, placement.spec_width())) == value,
{
    let v = value;
    match placement {
        ArgumentPlacement::NextByte => {
            assert(v % 256 == v) by (bit_vector)
                requires
                    v <= 0xFF,
            ;
        },
        ArgumentPlacement::NextTwoBytes => {
            assert(((v / 0x100) % 256) * 0x100 + (v % 256) == v) by (bit_vector)
                requires
                    v <= 0xFFFF,
            ;
        },
        ArgumentPlacement::NextFourBytes => {
            assert(((v / 0x100_0000) % 256) * 0x100_0000 + ((v / 0x1_0000) % 256) * 0x1_0000 + ((v
                / 0x100) % 256) * 0x100 + (v % 256) == v) by (bit_vector)
                requires
                    v <= 0xFFFF_FFFF,
            ;
        },
        _ => {
            assert(((v / 0x100_0000_0000_0000) % 256) * 0x100_0000_0000_0000 + ((v
                / 0x1_0000_0000_0000) % 256) * 0x1_0000_0000_0000 + ((v / 0x100_0000_0000) % 256)
                * 0x100_0000_0000 + ((v / 0x1_0000_0000) % 256) * 0x1_0000_0000 + ((v
                / 0x100_0000) % 256) * 0x100_0000 + ((v / 0x1_0000) % 256) * 0x1_0000 + ((v
                / 0x100) % 256) * 0x100 + (v % 256) == v) by (bit_vector);
        },
    }
}

/// The head of a data item: what its initial byte declares, and the argument.
#[derive(Clone, Copy, Debug, PartialEq, Eq, Structural)]
pub struct Head {
    /// The major type, from the three high bits of the initial byte.
    pub major: MajorType,
    /// The additional information, the five low bits of the initial byte.
    pub information: u8,
    /// The argument: the additional information itself below 24, the number
    /// that the following bytes spell for 24 to 27, and 0 for 31.
    pub argument: u64,
}

/// The number of bytes that follow an initial byte with this additional
/// information.
pub open spec fn following_bytes(information: u8) -> nat {
    if information == 24 {
        1
    } else if information == 25 {
        2
    } else if information == 26 {
        4
    } else if information == 27 {
        8
    } else {
        0
    }
}

impl Head {
    /// Whether the head declares an indefinite length or is the break.
    pub open spec fn spec_is_indefinite(self) -> bool {
        self.information == 31
    }

    /// Whether the head declares an indefinite length or is the break.
    #[verifier::when_used_as_spec(spec_is_indefinite)]
    pub fn is_indefinite(self) -> (indefinite: bool)
        ensures
            indefinite == self.spec_is_indefinite(),
    {
        self.information == 31
    }

    /// The number of bytes that the head takes.
    pub open spec fn spec_size(self) -> nat {
        1 + following_bytes(self.information)
    }

    /// The number of bytes that the head takes.
    pub fn size(self) -> (size: usize)
        ensures
            size == self.spec_size(),
    {
        if self.information == 24 {
            2
        } else if self.information == 25 {
            3
        } else if self.information == 26 {
            5
        } else if self.information == 27 {
            9
        } else {
            1
        }
    }

    /// Whether the argument stands in the smallest placement that holds it.
    pub open spec fn spec_is_minimal(self) -> bool {
        self.information == 31 || self.information == placement_of(
            self.argument,
        ).spec_information(self.argument)
    }

    /// Whether the argument stands in the smallest placement that holds it.
    #[verifier::when_used_as_spec(spec_is_minimal)]
    pub fn is_minimal(self) -> (minimal: bool)
        ensures
            minimal == self.spec_is_minimal(),
    {
        if self.information == 31 {
            true
        } else if self.argument < 24 {
            self.information as u64 == self.argument
        } else if self.argument <= 0xFF {
            self.information == 24
        } else if self.argument <= 0xFFFF {
            self.information == 25
        } else if self.argument <= 0xFFFF_FFFF {
            self.information == 26
        } else {
            self.information == 27
        }
    }
}

/// The bytes of a head with a definite argument: the initial byte, and the
/// argument in the smallest placement that holds it.
pub open spec fn head_bytes(major: MajorType, argument: u64) -> Seq<u8> {
    let placement = placement_of(argument);
    seq![spec_initial_byte(major, placement.spec_information(argument))] + be_bytes(
        argument,
        placement.spec_width(),
    )
}

/// The one byte of a head that declares an indefinite length, and under
/// [MajorType::FloatOrSimple] the break.
pub open spec fn indefinite_head_bytes(major: MajorType) -> Seq<u8> {
    seq![spec_initial_byte(major, 31)]
}

/// The bytes from `from` on, and nothing where `from` is no position of `bytes`.
pub open spec fn tail(bytes: Seq<u8>, from: int) -> Seq<u8> {
    if 0 <= from <= bytes.len() {
        bytes.skip(from)
    } else {
        Seq::empty()
    }
}

/// The head that stands at the start of `bytes`, or `None` where there is
/// none: the input is empty or ends inside the argument, the additional
/// information is one of the reserved 28, 29 and 30, or it is 31 under a major
/// type that has neither an indefinite length nor the break.
pub open spec fn parse_head(bytes: Seq<u8>) -> Option<Head> {
    if bytes.len() == 0 {
        None
    } else {
        let major = spec_major_type(bytes[0]);
        let information = spec_additional_information(bytes[0]);
        if information < 24 {
            Some(Head { major, information, argument: information as u64 })
        } else if information <= 27 {
            let width = following_bytes(information);
            if bytes.len() < 1 + width {
                None
            } else {
                Some(
                    Head {
                        major,
                        information,
                        argument: be_value(bytes.subrange(1, 1 + width as int)) as u64,
                    },
                )
            }
        } else if information == 31 && (major.spec_allows_indefinite() || major
            == MajorType::FloatOrSimple) {
            Some(Head { major, information, argument: 0 })
        } else {
            None
        }
    }
}

/// Reads the head that stands at `position` of `input`.
pub fn read_head(input: &[u8], position: usize) -> (head: Result<Head, DecodeError>)
    ensures
        match parse_head(tail(input@, position as int)) {
            Some(parsed) => head == Ok::<Head, DecodeError>(parsed),
            None => head matches Err(DecodeError::Malformed),
        },
{
    if position >= input.len() {
        return Err(DecodeError::Malformed);
    }
    let ghost bytes = tail(input@, position as int);
    let initial: u8 = input[position];
    assert(bytes[0] == initial);
    let major = major_type(initial);
    let information: u8 = additional_information(initial);
    if information < 24 {
        Ok(Head { major, information, argument: information as u64 })
    } else if information <= 27 {
        let available: usize = input.len() - position - 1;
        let width: usize = if information == 24 {
            1
        } else if information == 25 {
            2
        } else if information == 26 {
            4
        } else {
            8
        };
        if available < width {
            return Err(DecodeError::Malformed);
        }
        let ghost spelled = bytes.subrange(1, 1 + width as int);
        assert(forall|k: int| 0 <= k < width ==> spelled[k] == input@[position + 1 + k]);
        let first: usize = position + 1;
        let argument: u64 = if information == 24 {
            input[first] as u64
        } else if information == 25 {
            input[first] as u64 * 0x100 + input[first + 1] as u64
        } else if information == 26 {
            input[first] as u64 * 0x100_0000 + input[first + 1] as u64 * 0x1_0000 + input[first
                + 2] as u64 * 0x100 + input[first + 3] as u64
        } else {
            input[first] as u64 * 0x100_0000_0000_0000 + input[first + 1] as u64
                * 0x1_0000_0000_0000 + input[first + 2] as u64 * 0x100_0000_0000 + input[first
                + 3] as u64 * 0x1_0000_0000 + input[first + 4] as u64 * 0x100_0000 + input[first
                + 5] as u64 * 0x1_0000 + input[first + 6] as u64 * 0x100 + input[first + 7] as u64
        };
        assert(argument == be_value(spelled));
        Ok(Head { major, information, argument })
    } else if information == 31 && (major.allows_indefinite() || major
        == MajorType::FloatOrSimple) {
        Ok(Head { major, information, argument: 0 })
    } else {
        Err(DecodeError::Malformed)
    }
}

/// What was written as a head is read back as that head, whatever follows it:
/// the same major type, the same argument, in the smallest placement.
pub proof fn lemma_head_round_trip(major: MajorType, argument: u64, rest: Seq<u8>)
    ensures
        parse_head(head_bytes(major, argument) + rest) == Some(
            Head {
                major,
                information: placement_of(argument).spec_information(argument),
                argument,
            },
        ),
        parse_head(head_bytes(major, argument) + rest).unwrap().spec_is_minimal(),
        parse_head(head_bytes(major, argument) + rest).unwrap().spec_size() == head_bytes(
            major,
            argument,
        ).len(),
        head_bytes(major, argument).len() == 1 + placement_of(argument).spec_width(),
{
    let placement = placement_of(argument);
    let information = placement.spec_information(argument);
    let bytes = head_bytes(major, argument) + rest;
    crate::common::lemma_initial_byte_parts(major, information);
    assert(bytes[0] == spec_initial_byte(major, information));
    if placement != ArgumentPlacement::AdditionalInformation {
        lemma_be_round_trip(argument, placement);
        assert(bytes.subrange(1, 1 + placement.spec_width() as int) =~= be_bytes(
            argument,
            placement.spec_width(),
        ));
    }
}

/// The head that declares an indefinite length, and the break, are read back
/// as written, whatever follows.
pub proof fn lemma_indefinite_head_round_trip(major: MajorType, rest: Seq<u8>)
    requires
        major.spec_allows_indefinite() || major == MajorType::FloatOrSimple,
    ensures
        parse_head(indefinite_head_bytes(major) + rest) == Some(
            Head { major, information: 31, argument: 0 },
        ),
{
    let bytes = indefinite_head_bytes(major) + rest;
    crate::common::lemma_initial_byte_parts(major, 31);
    assert(bytes[0] == spec_initial_byte(major, 31));
}

/// No head has the additional information 28, 29 or 30, under any major type
/// and whatever follows the initial byte.
pub proof fn lemma_reserved_information_rejected(bytes: Seq<u8>)
    requires
        bytes.len() > 0,
        28 <= spec_additional_information(bytes[0]) <= 30,
    ensures
        parse_head(bytes) is None,
{
}

/// The additional information 31 is refused under the major types that have
/// neither an indefinite length nor the break: the two integer types and the
/// tag.
pub proof fn lemma_indefinite_integer_rejected(bytes: Seq<u8>)
    requires
        bytes.len() > 0,
        spec_additional_information(bytes[0]) == 31,
        spec_major_type(bytes[0]) == MajorType::UnsignedInteger || spec_major_type(bytes[0])
            == MajorType::NegativeInteger || spec_major_type(bytes[0]) == MajorType::Tag,
    ensures
        parse_head(bytes) is None,
{
}

} // verus!
