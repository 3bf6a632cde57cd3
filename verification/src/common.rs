//! Major types and the layout of the initial byte of a data item.
//!
//! The initial byte holds the major type in its three high bits and the
//! additional information in its five low bits.

use vstd::prelude::*;

verus! {

pub const UNSIGNED_INTEGER: u8 = 0b000_00000;

pub const NEGATIVE_INTEGER: u8 = 0b001_00000;

pub const BYTE_STRING: u8 = 0b010_00000;

pub const TEXT_STRING: u8 = 0b011_00000;

pub const ARRAY_OF_ITEMS: u8 = 0b100_00000;

pub const MAP_OF_ITEMS: u8 = 0b101_00000;

pub const TAGGED_ITEM: u8 = 0b110_00000;

pub const FLOAT_SIMPLE_BREAK: u8 = 0b111_00000;

/// The additional information that says that no length is declared, and,
/// under [MajorType::FloatOrSimple], the break that ends such an aggregate.
pub const INDEFINITE: u8 = 31;

/// The initial byte that ends an aggregate of indefinite length.
pub const BREAK: u8 = 0xFF;

/// The category of a data item.
#[derive(Clone, Copy, Debug, PartialEq, Eq, Structural)]
pub enum MajorType {
    UnsignedInteger,
    NegativeInteger,
    ByteString,
    TextString,
    ArrayOfItems,
    MapOfItems,
    Tag,
    FloatOrSimple,
}

impl MajorType {
    /// The number of the major type, from 0 to 7.
    pub open spec fn number(self) -> nat {
        match self {
            MajorType::UnsignedInteger => 0,
            MajorType::NegativeInteger => 1,
            MajorType::ByteString => 2,
            MajorType::TextString => 3,
            MajorType::ArrayOfItems => 4,
            MajorType::MapOfItems => 5,
            MajorType::Tag => 6,
            MajorType::FloatOrSimple => 7,
        }
    }

    /// The major type with the given number; numbers above 7 count as 7.
    pub open spec fn of_number(number: nat) -> MajorType {
        if number == 0 {
            MajorType::UnsignedInteger
        } else if number == 1 {
            MajorType::NegativeInteger
        } else if number == 2 {
            MajorType::ByteString
        } else if number == 3 {
            MajorType::TextString
        } else if number == 4 {
            MajorType::ArrayOfItems
        } else if number == 5 {
            MajorType::MapOfItems
        } else if number == 6 {
            MajorType::Tag
        } else {
            MajorType::FloatOrSimple
        }
    }

    /// The initial byte of this major type with additional information 0.
    pub open spec fn spec_bits(self) -> u8 {
        (32 * self.number()) as u8
    }

    /// The initial byte of this major type with additional information 0.
    #[verifier::when_used_as_spec(spec_bits)]
    pub fn bits(self) -> (pattern: u8)
        ensures
            pattern == self.spec_bits(),
    {
        match self {
            MajorType::UnsignedInteger => UNSIGNED_INTEGER,
            MajorType::NegativeInteger => NEGATIVE_INTEGER,
            MajorType::ByteString => BYTE_STRING,
            MajorType::TextString => TEXT_STRING,
            MajorType::ArrayOfItems => ARRAY_OF_ITEMS,
            MajorType::MapOfItems => MAP_OF_ITEMS,
            MajorType::Tag => TAGGED_ITEM,
            MajorType::FloatOrSimple => FLOAT_SIMPLE_BREAK,
        }
    }

    /// Whether an item of this major type may declare an indefinite length.
    pub open spec fn spec_allows_indefinite(self) -> bool {
        self == MajorType::ByteString || self == MajorType::TextString || self == MajorType::ArrayOfItems
            || self == MajorType::MapOfItems
    }

    /// Whether an item of this major type may declare an indefinite length.
    #[verifier::when_used_as_spec(spec_allows_indefinite)]
    pub fn allows_indefinite(self) -> (allowed: bool)
        ensures
            allowed == self.spec_allows_indefinite(),
    {
        match self {
            MajorType::ByteString | MajorType::TextString | MajorType::ArrayOfItems | MajorType::MapOfItems => true,
            _ => false,
        }
    }
}

/// The major type that an initial byte declares: its three high bits.
pub open spec fn spec_major_type(initial: u8) -> MajorType {
    MajorType::of_number((initial / 32) as nat)
}

/// The major type that an initial byte declares.
#[verifier::when_used_as_spec(spec_major_type)]
pub fn major_type(initial: u8) -> (major: MajorType)
    ensures
        major == spec_major_type(initial),
{
    let number: u8 = initial >> 5;
    assert(number == initial / 32) by (bit_vector)
        requires
            number == initial >> 5,
    ;
    if number == 0 {
        MajorType::UnsignedInteger
    } else if number == 1 {
        MajorType::NegativeInteger
    } else if number == 2 {
        MajorType::ByteString
    } else if number == 3 {
        MajorType::TextString
    } else if number == 4 {
        MajorType::ArrayOfItems
    } else if number == 5 {
        MajorType::MapOfItems
    } else if number == 6 {
        MajorType::Tag
    } else {
        MajorType::FloatOrSimple
    }
}

/// The additional information that an initial byte declares: its five low bits.
pub open spec fn spec_additional_information(initial: u8) -> u8 {
    initial % 32
}

/// The additional information that an initial byte declares.
#[verifier::when_used_as_spec(spec_additional_information)]
pub fn additional_information(initial: u8) -> (info: u8)
    ensures
        info == spec_additional_information(initial),
{
    let info: u8 = initial & 0x1f;
    assert(info == initial % 32) by (bit_vector)
        requires
            info == initial & 0x1f,
    ;
    info
}

/// The initial byte made of a major type and the five low bits of `info`.
pub open spec fn spec_initial_byte(major: MajorType, info: u8) -> u8 {
    (32 * major.number() + info % 32) as u8
}

/// The initial byte made of a major type and the five low bits of `info`.
#[verifier::when_used_as_spec(spec_initial_byte)]
pub fn initial_byte(major: MajorType, info: u8) -> (initial: u8)
    ensures
        initial == spec_initial_byte(major, info),
{
    let high: u8 = major.bits();
    let initial: u8 = high | (info & 0x1f);
    assert(initial == high + info % 32) by (bit_vector)
        requires
            initial == high | (info & 0x1f),
            high == 0 || high == 32 || high == 64 || high == 96 || high == 128 || high == 160
                || high == 192 || high == 224,
    ;
    initial
}

/// An initial byte gives back the major type and the additional information
/// that it was made of.
pub proof fn lemma_initial_byte_parts(major: MajorType, info: u8)
    requires
        info < 32,
    ensures
        spec_major_type(spec_initial_byte(major, info)) == major,
        spec_additional_information(spec_initial_byte(major, info)) == info,
{
}

} // verus!
