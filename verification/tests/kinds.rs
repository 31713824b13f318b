use ecs_meta::error::MetaError;
use ecs_meta::kinds::{EcsPrimitiveKind, EcsTypeKind};

const PRIMITIVES: [EcsPrimitiveKind; 18] = [
    EcsPrimitiveKind::Bool,
    EcsPrimitiveKind::Char,
    EcsPrimitiveKind::Byte,
    EcsPrimitiveKind::U8,
    EcsPrimitiveKind::U16,
    EcsPrimitiveKind::U32,
    EcsPrimitiveKind::U64,
    EcsPrimitiveKind::I8,
    EcsPrimitiveKind::I16,
    EcsPrimitiveKind::I32,
    EcsPrimitiveKind::I64,
    EcsPrimitiveKind::F32,
    EcsPrimitiveKind::F64,
    EcsPrimitiveKind::UPtr,
    EcsPrimitiveKind::IPtr,
    EcsPrimitiveKind::String,
    EcsPrimitiveKind::Entity,
    EcsPrimitiveKind::Id,
];

const TYPE_KINDS: [EcsTypeKind; 7] = [
    EcsTypeKind::PrimitiveType,
    EcsTypeKind::BitmaskType,
    EcsTypeKind::EnumType,
    EcsTypeKind::StructType,
    EcsTypeKind::ArrayType,
    EcsTypeKind::VectorType,
    EcsTypeKind::OpaqueType,
];

#[test]
fn last_primitive_kind_is_id() {
    assert_eq!(EcsPrimitiveKind::last_primitive_kind(), EcsPrimitiveKind::Id);
    assert_eq!(EcsPrimitiveKind::last_primitive_kind().tag(), 18);
}

#[test]
fn last_type_kind_is_opaque() {
    assert_eq!(EcsTypeKind::last_type_kind(), EcsTypeKind::OpaqueType);
    assert_eq!(EcsTypeKind::last_type_kind().tag(), 6);
}

#[test]
fn primitive_tags_follow_the_declaration_order_from_one() {
    for (position, kind) in PRIMITIVES.iter().enumerate() {
        assert_eq!(kind.tag(), position as i32 + 1);
    }
    assert_eq!(EcsPrimitiveKind::Bool.tag(), 1);
    assert_eq!(EcsPrimitiveKind::F32.tag(), 12);
    assert_eq!(EcsPrimitiveKind::F64.tag(), 13);
    assert_eq!(EcsPrimitiveKind::Id.tag(), 18);
}

#[test]
fn type_kind_tags_follow_the_declaration_order_from_zero() {
    for (position, kind) in TYPE_KINDS.iter().enumerate() {
        assert_eq!(kind.tag(), position as i32);
    }
    assert_eq!(EcsTypeKind::PrimitiveType.tag(), 0);
    assert_eq!(EcsTypeKind::StructType.tag(), 3);
    assert_eq!(EcsTypeKind::OpaqueType.tag(), 6);
}

#[test]
fn primitive_tag_is_accepted_exactly_in_the_range() {
    let last = EcsPrimitiveKind::last_primitive_kind().tag();
    for tag in -40..=40 {
        let in_range = 1 <= tag && tag <= last;
        assert_eq!(EcsPrimitiveKind::is_valid_tag(tag), in_range);
        assert_eq!(EcsPrimitiveKind::from_tag(tag).is_ok(), in_range);
    }
}

#[test]
fn type_kind_tag_is_accepted_exactly_in_the_range() {
    let last = EcsTypeKind::last_type_kind().tag();
    for tag in -40..=40 {
        let in_range = 0 <= tag && tag <= last;
        assert_eq!(EcsTypeKind::is_valid_tag(tag), in_range);
        assert_eq!(EcsTypeKind::from_tag(tag).is_ok(), in_range);
    }
}

#[test]
fn primitive_tag_reads_back_as_its_kind() {
    for kind in PRIMITIVES {
        assert_eq!(EcsPrimitiveKind::from_tag(kind.tag()), Ok(kind));
    }
    assert_eq!(EcsPrimitiveKind::from_tag(13), Ok(EcsPrimitiveKind::F64));
}

#[test]
fn type_kind_tag_reads_back_as_its_kind() {
    for kind in TYPE_KINDS {
        assert_eq!(EcsTypeKind::from_tag(kind.tag()), Ok(kind));
    }
    assert_eq!(EcsTypeKind::from_tag(0), Ok(EcsTypeKind::PrimitiveType));
}

#[test]
fn primitive_tag_next_to_the_range_is_refused() {
    assert_eq!(EcsPrimitiveKind::from_tag(0), Err(MetaError::TagOutOfRange));
    assert_eq!(EcsPrimitiveKind::from_tag(19), Err(MetaError::TagOutOfRange));
    assert_eq!(EcsPrimitiveKind::from_tag(-1), Err(MetaError::TagOutOfRange));
    assert_eq!(EcsPrimitiveKind::from_tag(i32::MIN), Err(MetaError::TagOutOfRange));
    assert_eq!(EcsPrimitiveKind::from_tag(i32::MAX), Err(MetaError::TagOutOfRange));
}

#[test]
fn type_kind_tag_next_to_the_range_is_refused() {
    assert_eq!(EcsTypeKind::from_tag(-1), Err(MetaError::TagOutOfRange));
    assert_eq!(EcsTypeKind::from_tag(7), Err(MetaError::TagOutOfRange));
    assert_eq!(EcsTypeKind::from_tag(i32::MIN), Err(MetaError::TagOutOfRange));
    assert_eq!(EcsTypeKind::from_tag(i32::MAX), Err(MetaError::TagOutOfRange));
}
