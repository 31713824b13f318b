//! The two enumerations that cross the engine boundary as integers, and the
//! range-checked conversions from raw tags.

use vstd::prelude::*;
use crate::error::MetaError;

verus! {

/// The in-memory representation of a scalar value.
///
/// The order of the variants is part of the interface: tags are assigned in
/// this order, starting at 1, and `Id` closes the range.
#[derive(Clone, Copy, Debug, PartialEq, Eq, Hash, Structural)]
pub enum EcsPrimitiveKind {
    Bool,
    Char,
    Byte,
    U8,
    U16,
    U32,
    U64,
    I8,
    I16,
    I32,
    I64,
    F32,
    F64,
    UPtr,
    IPtr,
    String,
    Entity,
    Id,
}

impl EcsPrimitiveKind {
    /// The integer that stands for this kind at the engine boundary.
    pub open spec fn spec_tag(self) -> int {
        match self {
            EcsPrimitiveKind::Bool => 1,
            EcsPrimitiveKind::Char => 2,
            EcsPrimitiveKind::Byte => 3,
            EcsPrimitiveKind::U8 => 4,
            EcsPrimitiveKind::U16 => 5,
            EcsPrimitiveKind::U32 => 6,
            EcsPrimitiveKind::U64 => 7,
            EcsPrimitiveKind::I8 => 8,
            EcsPrimitiveKind::I16 => 9,
            EcsPrimitiveKind::I32 => 10,
            EcsPrimitiveKind::I64 => 11,
            EcsPrimitiveKind::F32 => 12,
            EcsPrimitiveKind::F64 => 13,
            EcsPrimitiveKind::UPtr => 14,
            EcsPrimitiveKind::IPtr => 15,
            EcsPrimitiveKind::String => 16,
            EcsPrimitiveKind::Entity => 17,
            EcsPrimitiveKind::Id => 18,
        }
    }

    /// The kind that closes the range of tags.
    pub open spec fn spec_last_primitive_kind() -> EcsPrimitiveKind {
        EcsPrimitiveKind::Id
    }

    /// Whether `tag` stands for a kind: it lies between 1 and the tag of the
    /// last kind.
    pub open spec fn valid_tag(tag: int) -> bool {
        1 <= tag <= Self::spec_last_primitive_kind().spec_tag()
    }

    /// The sentinel for range checks: no kind has a larger tag.
    #[verifier::when_used_as_spec(spec_last_primitive_kind)]
    pub fn last_primitive_kind() -> (last: EcsPrimitiveKind)
        ensures
            last == EcsPrimitiveKind::Id,
            forall|kind: EcsPrimitiveKind| kind.spec_tag() <= last.spec_tag(),
    {
        EcsPrimitiveKind::Id
    }

    /// The integer that stands for this kind at the engine boundary.
    pub fn tag(&self) -> (tag: i32)
        ensures
            tag == self.spec_tag(),
            Self::valid_tag(tag as int),
    {
        match self {
            EcsPrimitiveKind::Bool => 1,
            EcsPrimitiveKind::Char => 2,
            EcsPrimitiveKind::Byte => 3,
            EcsPrimitiveKind::U8 => 4,
            EcsPrimitiveKind::U16 => 5,
            EcsPrimitiveKind::U32 => 6,
            EcsPrimitiveKind::U64 => 7,
            EcsPrimitiveKind::I8 => 8,
            EcsPrimitiveKind::I16 => 9,
            EcsPrimitiveKind::I32 => 10,
            EcsPrimitiveKind::I64 => 11,
            EcsPrimitiveKind::F32 => 12,
            EcsPrimitiveKind::F64 => 13,
            EcsPrimitiveKind::UPtr => 14,
            EcsPrimitiveKind::IPtr => 15,
            EcsPrimitiveKind::String => 16,
            EcsPrimitiveKind::Entity => 17,
            EcsPrimitiveKind::Id => 18,
        }
    }

    /// Whether a raw integer may be read as a kind.
    pub fn is_valid_tag(tag: i32) -> (valid: bool)
        ensures
            valid == Self::valid_tag(tag as int),
    {
        1 <= tag && tag <= Self::last_primitive_kind().tag()
    }

    /// No two kinds share a tag.
    pub proof fn lemma_tags_are_distinct(first: EcsPrimitiveKind, second: EcsPrimitiveKind)
        requires
            first.spec_tag() == second.spec_tag(),
        ensures
            first == second,
    {
    }

    /// What a raw integer reads as: the kind with that tag, where the tag is
    /// in the range.
    pub open spec fn spec_from_tag(tag: int) -> Result<EcsPrimitiveKind, MetaError> {
        if Self::valid_tag(tag) {
            Ok(choose|kind: EcsPrimitiveKind| kind.spec_tag() == tag)
        } else {
            Err(MetaError::TagOutOfRange)
        }
    }

    /// A raw integer reads as a kind exactly when it lies between 1 and the
    /// tag of the last kind, and then it reads as the kind with that tag.
    pub proof fn lemma_reads_exactly_the_range(tag: int)
        ensures
            Self::spec_from_tag(tag) is Ok <==> 1 <= tag <= Self::last_primitive_kind().spec_tag(),
            Self::spec_from_tag(tag) matches Ok(kind) ==> kind.spec_tag() == tag,
            Self::spec_from_tag(tag) matches Err(error) ==> error == MetaError::TagOutOfRange,
    {
        assert(EcsPrimitiveKind::Bool.spec_tag() == 1);
        assert(EcsPrimitiveKind::Char.spec_tag() == 2);
        assert(EcsPrimitiveKind::Byte.spec_tag() == 3);
        assert(EcsPrimitiveKind::U8.spec_tag() == 4);
        assert(EcsPrimitiveKind::U16.spec_tag() == 5);
        assert(EcsPrimitiveKind::U32.spec_tag() == 6);
        assert(EcsPrimitiveKind::U64.spec_tag() == 7);
        assert(EcsPrimitiveKind::I8.spec_tag() == 8);
        assert(EcsPrimitiveKind::I16.spec_tag() == 9);
        assert(EcsPrimitiveKind::I32.spec_tag() == 10);
        assert(EcsPrimitiveKind::I64.spec_tag() == 11);
        assert(EcsPrimitiveKind::F32.spec_tag() == 12);
        assert(EcsPrimitiveKind::F64.spec_tag() == 13);
        assert(EcsPrimitiveKind::UPtr.spec_tag() == 14);
        assert(EcsPrimitiveKind::IPtr.spec_tag() == 15);
        assert(EcsPrimitiveKind::String.spec_tag() == 16);
        assert(EcsPrimitiveKind::Entity.spec_tag() == 17);
        assert(EcsPrimitiveKind::Id.spec_tag() == 18);
    }

    /// The tag of a kind reads as that kind.
    pub proof fn lemma_tag_reads_back(kind: EcsPrimitiveKind)
        ensures
            Self::valid_tag(kind.spec_tag()),
            Self::spec_from_tag(kind.spec_tag()) == Ok::<EcsPrimitiveKind, MetaError>(kind),
    {
        let chosen = choose|other: EcsPrimitiveKind| other.spec_tag() == kind.spec_tag();
        Self::lemma_tags_are_distinct(chosen, kind);
    }

    /// Reads a raw integer as a kind, after checking it against the range.
    ///
    /// A tag outside the range is refused; it is never read as a
    /// neighbouring kind.
    pub fn from_tag(tag: i32) -> (result: Result<EcsPrimitiveKind, MetaError>)
        ensures
            result == Self::spec_from_tag(tag as int),
            result is Ok <==> Self::valid_tag(tag as int),
            result matches Ok(kind) ==> kind.spec_tag() == tag,
            result matches Err(error) ==> error == MetaError::TagOutOfRange,
    {
        if !Self::is_valid_tag(tag) {
            return Err(MetaError::TagOutOfRange);
        }
        let kind = match tag {
            1 => EcsPrimitiveKind::Bool,
            2 => EcsPrimitiveKind::Char,
            3 => EcsPrimitiveKind::Byte,
            4 => EcsPrimitiveKind::U8,
            5 => EcsPrimitiveKind::U16,
            6 => EcsPrimitiveKind::U32,
            7 => EcsPrimitiveKind::U64,
            8 => EcsPrimitiveKind::I8,
            9 => EcsPrimitiveKind::I16,
            10 => EcsPrimitiveKind::I32,
            11 => EcsPrimitiveKind::I64,
            12 => EcsPrimitiveKind::F32,
            13 => EcsPrimitiveKind::F64,
            14 => EcsPrimitiveKind::UPtr,
            15 => EcsPrimitiveKind::IPtr,
            16 => EcsPrimitiveKind::String,
            17 => EcsPrimitiveKind::Entity,
            _ => EcsPrimitiveKind::Id,
        };
        proof {
            Self::lemma_tag_reads_back(kind);
        }
        Ok(kind)
    }
}

/// Which descriptor describes a reflected type.
///
/// The tags are those of the engine's own enumeration: they start at 0 and
/// follow the order of the variants, and `OpaqueType` closes the range.
#[derive(Clone, Copy, Debug, PartialEq, Eq, Hash, Structural)]
pub enum EcsTypeKind {
    PrimitiveType,
    BitmaskType,
    EnumType,
    StructType,
    ArrayType,
    VectorType,
    OpaqueType,
}

impl EcsTypeKind {
    /// The integer that stands for this kind at the engine boundary.
    pub open spec fn spec_tag(self) -> int {
        match self {
            EcsTypeKind::PrimitiveType => 0,
            EcsTypeKind::BitmaskType => 1,
            EcsTypeKind::EnumType => 2,
            EcsTypeKind::StructType => 3,
            EcsTypeKind::ArrayType => 4,
            EcsTypeKind::VectorType => 5,
            EcsTypeKind::OpaqueType => 6,
        }
    }

    /// The kind that closes the range of tags.
    pub open spec fn spec_last_type_kind() -> EcsTypeKind {
        EcsTypeKind::OpaqueType
    }

    /// Whether `tag` stands for a kind: it lies between 0 and the tag of the
    /// last kind.
    pub open spec fn valid_tag(tag: int) -> bool {
        0 <= tag <= Self::spec_last_type_kind().spec_tag()
    }

    /// The sentinel for range checks: no kind has a larger tag.
    #[verifier::when_used_as_spec(spec_last_type_kind)]
    pub fn last_type_kind() -> (last: EcsTypeKind)
        ensures
            last == EcsTypeKind::OpaqueType,
            forall|kind: EcsTypeKind| kind.spec_tag() <= last.spec_tag(),
    {
        EcsTypeKind::OpaqueType
    }

    /// The integer that stands for this kind at the engine boundary.
    pub fn tag(&self) -> (tag: i32)
        ensures
            tag == self.spec_tag(),
            Self::valid_tag(tag as int),
    {
        match self {
            EcsTypeKind::PrimitiveType => 0,
            EcsTypeKind::BitmaskType => 1,
            EcsTypeKind::EnumType => 2,
            EcsTypeKind::StructType => 3,
            EcsTypeKind::ArrayType => 4,
            EcsTypeKind::VectorType => 5,
            EcsTypeKind::OpaqueType => 6,
        }
    }

    /// Whether a raw integer may be read as a kind.
    pub fn is_valid_tag(tag: i32) -> (valid: bool)
        ensures
            valid == Self::valid_tag(tag as int),
    {
        0 <= tag && tag <= Self::last_type_kind().tag()
    }

    /// No two kinds share a tag.
    pub proof fn lemma_tags_are_distinct(first: EcsTypeKind, second: EcsTypeKind)
        requires
            first.spec_tag() == second.spec_tag(),
        ensures
            first == second,
    {
    }

    /// What a raw integer reads as: the kind with that tag, where the tag is
    /// in the range.
    pub open spec fn spec_from_tag(tag: int) -> Result<EcsTypeKind, MetaError> {
        if Self::valid_tag(tag) {
            Ok(choose|kind: EcsTypeKind| kind.spec_tag() == tag)
        } else {
            Err(MetaError::TagOutOfRange)
        }
    }

    /// A raw integer reads as a kind exactly when it lies between 0 and the
    /// tag of the last kind, and then it reads as the kind with that tag.
    pub proof fn lemma_reads_exactly_the_range(tag: int)
        ensures
            Self::spec_from_tag(tag) is Ok <==> 0 <= tag <= Self::last_type_kind().spec_tag(),
            Self::spec_from_tag(tag) matches Ok(kind) ==> kind.spec_tag() == tag,
            Self::spec_from_tag(tag) matches Err(error) ==> error == MetaError::TagOutOfRange,
    {
        assert(EcsTypeKind::PrimitiveType.spec_tag() == 0);
        assert(EcsTypeKind::BitmaskType.spec_tag() == 1);
        assert(EcsTypeKind::EnumType.spec_tag() == 2);
        assert(EcsTypeKind::StructType.spec_tag() == 3);
        assert(EcsTypeKind::ArrayType.spec_tag() == 4);
        assert(EcsTypeKind::VectorType.spec_tag() == 5);
        assert(EcsTypeKind::OpaqueType.spec_tag() == 6);
    }

    /// The tag of a kind reads as that kind.
    pub proof fn lemma_tag_reads_back(kind: EcsTypeKind)
        ensures
            Self::valid_tag(kind.spec_tag()),
            Self::spec_from_tag(kind.spec_tag()) == Ok::<EcsTypeKind, MetaError>(kind),
    {
        let chosen = choose|other: EcsTypeKind| other.spec_tag() == kind.spec_tag();
        Self::lemma_tags_are_distinct(chosen, kind);
    }

    /// Reads a raw integer as a kind, after checking it against the range.
    ///
    /// A tag outside the range is refused; it is never read as a
    /// neighbouring kind.
    pub fn from_tag(tag: i32) -> (result: Result<EcsTypeKind, MetaError>)
        ensures
            result == Self::spec_from_tag(tag as int),
            result is Ok <==> Self::valid_tag(tag as int),
            result matches Ok(kind) ==> kind.spec_tag() == tag,
            result matches Err(error) ==> error == MetaError::TagOutOfRange,
    {
        if !Self::is_valid_tag(tag) {
            return Err(MetaError::TagOutOfRange);
        }
        let kind = match tag {
            0 => EcsTypeKind::PrimitiveType,
            1 => EcsTypeKind::BitmaskType,
            2 => EcsTypeKind::EnumType,
            3 => EcsTypeKind::StructType,
            4 => EcsTypeKind::ArrayType,
            5 => EcsTypeKind::VectorType,
            _ => EcsTypeKind::OpaqueType,
        };
        proof {
            Self::lemma_tag_reads_back(kind);
        }
        Ok(kind)
    }
}

} // verus!
