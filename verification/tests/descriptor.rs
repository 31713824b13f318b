use ecs_meta::constants::{EnumConstant, EnumDescriptor};
use ecs_meta::descriptor::{
    ArrayDescriptor, Descriptor, Element, OpaqueDescriptor, TypeRef, VectorDescriptor,
};
use ecs_meta::error::MetaError;
use ecs_meta::kinds::{EcsPrimitiveKind, EcsTypeKind};
use ecs_meta::structure::{Member, MemberRange, StructDescriptor};
use ecs_meta::unit::{UnitConversion, UnitDescriptor};

fn float_member(name: &str, offset: u32) -> Member {
    Member::new(name.to_string(), offset, TypeRef::Primitive(EcsPrimitiveKind::F32))
}

#[test]
fn member_range_needs_ordered_bounds() {
    assert!(MemberRange::new(3, 2).is_none());
    let point = MemberRange::new(5, 5).unwrap();
    assert_eq!(point.min(), 5);
    assert_eq!(point.max(), 5);
    let range = MemberRange::new(-10, 10).unwrap();
    assert_eq!(range.min(), -10);
    assert_eq!(range.max(), 10);
    assert!(MemberRange::new(i64::MIN, i64::MAX).is_some());
    assert!(MemberRange::new(i64::MAX, i64::MIN).is_none());
}

#[test]
fn member_range_contains_its_bounds_and_what_lies_between() {
    let range = MemberRange::new(-10, 10).unwrap();
    assert!(range.contains(-10));
    assert!(range.contains(0));
    assert!(range.contains(10));
    assert!(!range.contains(-11));
    assert!(!range.contains(11));
}

#[test]
fn member_is_made_without_range_and_takes_one() {
    let member = float_member("x", 4);
    assert_eq!(member.name, "x");
    assert_eq!(member.offset, 4);
    assert_eq!(member.ty, TypeRef::Primitive(EcsPrimitiveKind::F32));
    assert_eq!(member.range, None);
    let range = MemberRange::new(0, 100).unwrap();
    let limited = member.clone().with_range(range);
    assert_eq!(limited.name, "x");
    assert_eq!(limited.offset, 4);
    assert_eq!(limited.ty, TypeRef::Primitive(EcsPrimitiveKind::F32));
    assert_eq!(limited.range, Some(range));
    assert_eq!(member.clone(), member);
}

#[test]
fn struct_descriptor_keeps_members_in_order() {
    let mut descriptor = StructDescriptor::new();
    assert_eq!(descriptor.len(), 0);
    assert!(descriptor.member(0).is_none());
    descriptor.add_member(float_member("x", 0));
    descriptor.add_member(float_member("y", 4));
    descriptor.add_member(Member::new("owner".to_string(), 8, TypeRef::Registered(77)));
    assert_eq!(descriptor.len(), 3);
    assert_eq!(descriptor.member(0), Some(&float_member("x", 0)));
    assert_eq!(descriptor.member(1), Some(&float_member("y", 4)));
    assert_eq!(descriptor.member(2).unwrap().ty, TypeRef::Registered(77));
    assert!(descriptor.member(3).is_none());
    let names: Vec<&str> = descriptor.members().iter().map(|member| member.name.as_str()).collect();
    assert_eq!(names, vec!["x", "y", "owner"]);
}

#[test]
fn struct_descriptor_from_members_and_clone_agree() {
    let built = StructDescriptor::from_members(vec![float_member("x", 0), float_member("y", 4)]);
    let mut grown = StructDescriptor::new();
    grown.add_member(float_member("x", 0));
    grown.add_member(float_member("y", 4));
    assert_eq!(built, grown);
    assert_eq!(built.clone(), built);
    assert_eq!(built.clone().members().len(), 2);
}

#[test]
fn enum_descriptor_takes_repeated_values_unless_asked_otherwise() {
    let mut descriptor = EnumDescriptor::new();
    assert_eq!(descriptor.add_constant("Red".to_string(), 0, true), Ok(()));
    assert_eq!(descriptor.add_constant("Green".to_string(), 1, true), Ok(()));
    assert_eq!(
        descriptor.add_constant("Crimson".to_string(), 0, true),
        Err(MetaError::InvalidConstant)
    );
    assert_eq!(descriptor.len(), 2);
    assert!(descriptor.has_distinct_values());
    assert_eq!(descriptor.add_constant("Crimson".to_string(), 0, false), Ok(()));
    assert_eq!(descriptor.len(), 3);
    assert!(!descriptor.has_distinct_values());
    assert!(descriptor.contains_value(0));
    assert!(descriptor.contains_value(1));
    assert!(!descriptor.contains_value(2));
    assert_eq!(
        descriptor.constant(2),
        Some(&EnumConstant { name: "Crimson".to_string(), value: 0 })
    );
    assert!(descriptor.constant(3).is_none());
    assert_eq!(descriptor.constants()[1].name, "Green");
    assert_eq!(descriptor.clone(), descriptor);
}

#[test]
fn value_is_read_as_the_first_constant_that_has_it() {
    let mut descriptor = EnumDescriptor::new();
    descriptor.add_constant("Red".to_string(), 0, false).unwrap();
    descriptor.add_constant("Green".to_string(), 7, false).unwrap();
    descriptor.add_constant("Crimson".to_string(), 0, false).unwrap();
    assert_eq!(descriptor.position_of(0), Some(0));
    assert_eq!(descriptor.position_of(7), Some(1));
    assert_eq!(descriptor.position_of(1), None);
    assert_eq!(descriptor.constant_for(0).map(|constant| constant.name.as_str()), Ok("Red"));
    assert_eq!(descriptor.constant_for(7).map(|constant| constant.name.as_str()), Ok("Green"));
    // A value next to a constant's is not read as that constant.
    assert_eq!(descriptor.constant_for(1), Err(MetaError::InvalidConstant));
    assert_eq!(descriptor.constant_for(6), Err(MetaError::InvalidConstant));
    assert_eq!(descriptor.constant_for(8), Err(MetaError::InvalidConstant));
    assert_eq!(EnumDescriptor::new().constant_for(0), Err(MetaError::InvalidConstant));
}

#[test]
fn enum_descriptor_without_constants_has_distinct_values() {
    let mut descriptor = EnumDescriptor::new();
    assert!(descriptor.has_distinct_values());
    assert!(!descriptor.contains_value(0));
    descriptor.add_constant("Min".to_string(), i64::MIN, true).unwrap();
    descriptor.add_constant("Max".to_string(), i64::MAX, true).unwrap();
    assert!(descriptor.has_distinct_values());
    assert!(descriptor.contains_value(i64::MIN));
}

#[test]
fn descriptor_reports_its_kind_and_element_count() {
    let mut structure = StructDescriptor::new();
    structure.add_member(float_member("x", 0));
    let element = TypeRef::Primitive(EcsPrimitiveKind::U8);
    let cases = vec![
        (Descriptor::Primitive(EcsPrimitiveKind::Bool), EcsTypeKind::PrimitiveType, 0),
        (Descriptor::Bitmask(Default::default()), EcsTypeKind::BitmaskType, 0),
        (Descriptor::Enum(EnumDescriptor::new()), EcsTypeKind::EnumType, 0),
        (Descriptor::Struct(structure), EcsTypeKind::StructType, 1),
        (Descriptor::Array(ArrayDescriptor { element, count: 16 }), EcsTypeKind::ArrayType, 0),
        (Descriptor::Vector(VectorDescriptor { element }), EcsTypeKind::VectorType, 0),
        (Descriptor::Opaque(OpaqueDescriptor { as_type: element }), EcsTypeKind::OpaqueType, 0),
    ];
    for (descriptor, kind, count) in cases {
        assert_eq!(descriptor.kind(), kind);
        assert_eq!(descriptor.element_count(), count);
        assert_eq!(descriptor.clone(), descriptor);
    }
}

#[test]
fn descriptor_takes_elements_of_its_own_kind_only() {
    let mut structure = Descriptor::Struct(StructDescriptor::new());
    assert_eq!(structure.add_member(float_member("x", 0)), Ok(()));
    assert_eq!(
        structure.add_enum_constant("Red".to_string(), 0, false),
        Err(MetaError::InvalidTransition)
    );
    assert_eq!(
        structure.add_bitmask_constant("Walk".to_string(), 1),
        Err(MetaError::InvalidTransition)
    );
    assert_eq!(structure.element_count(), 1);

    let mut primitive = Descriptor::Primitive(EcsPrimitiveKind::I32);
    assert_eq!(primitive.add_member(float_member("x", 0)), Err(MetaError::InvalidTransition));
    assert_eq!(primitive, Descriptor::Primitive(EcsPrimitiveKind::I32));
}

#[test]
fn element_starts_the_descriptor_of_its_kind() {
    let member = Element::Member(float_member("x", 0));
    let constant = Element::EnumConstant {
        constant: EnumConstant { name: "Red".to_string(), value: 0 },
        distinct: true,
    };
    let flag = Element::BitmaskConstant { name: "Walk".to_string(), value: 1 };
    assert_eq!(member.empty_descriptor().kind(), EcsTypeKind::StructType);
    assert_eq!(constant.empty_descriptor().kind(), EcsTypeKind::EnumType);
    assert_eq!(flag.empty_descriptor().kind(), EcsTypeKind::BitmaskType);
    assert_eq!(member.empty_descriptor().element_count(), 0);

    let mut descriptor = flag.empty_descriptor();
    assert_eq!(descriptor.add_element(flag), Ok(()));
    assert_eq!(descriptor.element_count(), 1);
    assert_eq!(descriptor.add_element(member), Err(MetaError::InvalidTransition));
    assert_eq!(
        descriptor.add_element(Element::BitmaskConstant { name: "Odd".to_string(), value: 6 }),
        Err(MetaError::InvalidConstant)
    );
    assert_eq!(descriptor.element_count(), 1);
}

#[test]
fn unit_descriptor_clone_is_equal() {
    let unit = UnitDescriptor {
        symbol: "km".to_string(),
        quantity: Some(5),
        conversion: Some(UnitConversion { factor: 10, power: 3 }),
    };
    assert_eq!(unit.clone(), unit);
}
