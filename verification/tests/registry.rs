use ecs_meta::constants::{BitmaskDescriptor, EnumConstant, EnumDescriptor};
use ecs_meta::descriptor::{ArrayDescriptor, Descriptor, Element, TypeRef};
use ecs_meta::error::MetaError;
use ecs_meta::kinds::{EcsPrimitiveKind, EcsTypeKind};
use ecs_meta::marker::{EcsMetaType, TypeState};
use ecs_meta::registry::TypeRegistry;
use ecs_meta::structure::{Member, StructDescriptor};
use ecs_meta::unit::{UnitConversion, UnitDescriptor};

const POSITION: u64 = 1001;
const COLOR: u64 = 1002;
const MOVEMENT: u64 = 1003;
const METERS: u64 = 2001;
const SECONDS: u64 = 2002;

fn float_member(name: &str, offset: u32) -> Member {
    Member::new(name.to_string(), offset, TypeRef::Primitive(EcsPrimitiveKind::F32))
}

fn meters() -> UnitDescriptor {
    UnitDescriptor { symbol: "m".to_string(), quantity: Some(9), conversion: None }
}

#[test]
fn new_registry_is_empty() {
    let registry = TypeRegistry::new();
    assert_eq!(registry.len(), 0);
    assert!(!registry.is_registered(POSITION));
    assert_eq!(registry.state_of(POSITION), TypeState::Unregistered);
    assert!(!registry.has_unit(METERS));
    assert_eq!(TypeRegistry::default().len(), 0);
}

#[test]
fn struct_descriptor_round_trip() {
    let mut registry = TypeRegistry::new();
    let descriptor =
        StructDescriptor::from_members(vec![float_member("x", 0), float_member("y", 4)]);
    assert_eq!(registry.register(POSITION, false, Descriptor::Struct(descriptor)), Ok(()));

    let read = match registry.descriptor_of(POSITION) {
        Ok(Descriptor::Struct(read)) => read,
        other => panic!("no struct descriptor: {:?}", other),
    };
    assert_eq!(read.len(), 2);
    let members = read.members();
    assert_eq!(members.len(), 2);
    assert_eq!(members[0].name, "x");
    assert_eq!(members[0].ty, TypeRef::Primitive(EcsPrimitiveKind::F32));
    assert_eq!(members[1].name, "y");
    assert_eq!(members[1].ty, TypeRef::Primitive(EcsPrimitiveKind::F32));
    assert_eq!(members, &vec![float_member("x", 0), float_member("y", 4)]);
    assert_eq!(registry.kind_of(POSITION), Ok(EcsTypeKind::StructType));
}

#[test]
fn primitive_end_to_end() {
    let mut registry = TypeRegistry::new();
    let f64_type: u64 = 15;
    let unregistered: u64 = 16;
    assert_eq!(registry.register_primitive(f64_type, true, EcsPrimitiveKind::F64.tag()), Ok(()));
    assert_eq!(registry.kind_of(f64_type), Ok(EcsTypeKind::PrimitiveType));
    assert_eq!(
        registry.descriptor_of(f64_type),
        Ok(&Descriptor::Primitive(EcsPrimitiveKind::F64))
    );
    assert_eq!(registry.kind_of(unregistered), Err(MetaError::NotRegistered));
}

#[test]
fn lookups_of_unregistered_type_fail() {
    let registry = TypeRegistry::new();
    assert_eq!(registry.kind_of(POSITION), Err(MetaError::NotRegistered));
    assert_eq!(registry.meta_of(POSITION), Err(MetaError::NotRegistered));
    assert_eq!(registry.descriptor_of(POSITION), Err(MetaError::NotRegistered));
    assert_eq!(registry.unit_of(POSITION), Err(MetaError::NotRegistered));
}

#[test]
fn primitive_with_tag_out_of_range_is_refused() {
    let mut registry = TypeRegistry::new();
    assert_eq!(registry.register_primitive(POSITION, true, 0), Err(MetaError::TagOutOfRange));
    assert_eq!(registry.register_primitive(POSITION, true, 19), Err(MetaError::TagOutOfRange));
    assert_eq!(registry.register_primitive(POSITION, true, -3), Err(MetaError::TagOutOfRange));
    assert!(!registry.is_registered(POSITION));
    assert_eq!(registry.register_primitive(POSITION, true, 18), Ok(()));
    assert_eq!(
        registry.descriptor_of(POSITION),
        Ok(&Descriptor::Primitive(EcsPrimitiveKind::Id))
    );
    // The tag is looked at first, the state of the type second.
    assert_eq!(registry.register_primitive(POSITION, true, 19), Err(MetaError::TagOutOfRange));
    assert_eq!(registry.register_primitive(POSITION, true, 1), Err(MetaError::InvalidTransition));
}

#[test]
fn type_built_atomically_is_never_partial() {
    let mut registry = TypeRegistry::new();
    let descriptor = StructDescriptor::from_members(vec![float_member("x", 0)]);
    registry.register(POSITION, true, Descriptor::Struct(descriptor)).unwrap();
    assert_eq!(
        registry.meta_of(POSITION),
        Ok(EcsMetaType::new(EcsTypeKind::StructType, true, false))
    );
    assert_eq!(registry.state_of(POSITION), TypeState::Complete);

    // Nothing that follows marks it partial or changes its shape.
    assert_eq!(
        registry.add_member(POSITION, true, float_member("y", 4)),
        Err(MetaError::InvalidTransition)
    );
    assert_eq!(registry.finalize(POSITION), Err(MetaError::InvalidTransition));
    assert_eq!(
        registry.register(POSITION, true, Descriptor::Primitive(EcsPrimitiveKind::U8)),
        Err(MetaError::InvalidTransition)
    );
    registry.define_unit(METERS, meters());
    registry.attach_unit(POSITION, METERS).unwrap();
    registry.add_member(COLOR, false, float_member("r", 0)).unwrap();
    assert_eq!(registry.meta_of(POSITION).map(|marker| marker.partial()), Ok(false));
    assert_eq!(registry.state_of(POSITION), TypeState::Complete);
    assert_eq!(registry.descriptor_of(POSITION).map(|found| found.element_count()), Ok(1));
}

#[test]
fn type_built_incrementally_is_partial_until_finalized() {
    let mut registry = TypeRegistry::new();
    assert_eq!(registry.add_member(POSITION, false, float_member("x", 0)), Ok(()));
    assert_eq!(registry.meta_of(POSITION).map(|marker| marker.partial()), Ok(true));
    assert_eq!(registry.state_of(POSITION), TypeState::Partial);

    assert_eq!(registry.add_member(POSITION, false, float_member("y", 4)), Ok(()));
    assert_eq!(registry.meta_of(POSITION).map(|marker| marker.partial()), Ok(true));
    assert_eq!(registry.state_of(POSITION), TypeState::Partial);

    assert_eq!(registry.finalize(POSITION), Ok(()));
    assert_eq!(
        registry.meta_of(POSITION),
        Ok(EcsMetaType::new(EcsTypeKind::StructType, false, false))
    );
    assert_eq!(registry.state_of(POSITION), TypeState::Complete);
    assert_eq!(
        registry.descriptor_of(POSITION),
        Ok(&Descriptor::Struct(StructDescriptor::from_members(vec![
            float_member("x", 0),
            float_member("y", 4),
        ])))
    );
}

#[test]
fn partial_type_stays_partial_through_other_operations() {
    let mut registry = TypeRegistry::new();
    registry.add_member(POSITION, false, float_member("x", 0)).unwrap();
    // Refused operations and operations on other things leave the mark.
    assert_eq!(
        registry.register(POSITION, false, Descriptor::Primitive(EcsPrimitiveKind::U8)),
        Err(MetaError::InvalidTransition)
    );
    assert_eq!(
        registry.add_enum_constant(POSITION, false, "Red".to_string(), 0, false),
        Err(MetaError::InvalidTransition)
    );
    assert_eq!(
        registry.add_bitmask_constant(POSITION, false, "Walk".to_string(), 1),
        Err(MetaError::InvalidTransition)
    );
    registry.register(COLOR, false, Descriptor::Enum(EnumDescriptor::new())).unwrap();
    registry.finalize(COLOR).unwrap_err();
    registry.define_unit(METERS, meters());
    registry.attach_unit(POSITION, METERS).unwrap();
    assert_eq!(registry.meta_of(POSITION).map(|marker| marker.partial()), Ok(true));
    assert_eq!(registry.descriptor_of(POSITION).map(|found| found.element_count()), Ok(1));
}

#[test]
fn existing_is_recorded_with_the_first_element() {
    let mut registry = TypeRegistry::new();
    registry.add_member(POSITION, true, float_member("x", 0)).unwrap();
    registry.add_member(POSITION, false, float_member("y", 4)).unwrap();
    assert_eq!(
        registry.meta_of(POSITION),
        Ok(EcsMetaType::new(EcsTypeKind::StructType, true, true))
    );
    registry.add_enum_constant(COLOR, false, "Red".to_string(), 0, true).unwrap();
    registry.add_enum_constant(COLOR, true, "Green".to_string(), 1, true).unwrap();
    assert_eq!(registry.meta_of(COLOR), Ok(EcsMetaType::new(EcsTypeKind::EnumType, false, true)));
}

#[test]
fn finalize_needs_a_partial_type() {
    let mut registry = TypeRegistry::new();
    assert_eq!(registry.finalize(POSITION), Err(MetaError::NotRegistered));
    registry.add_member(POSITION, false, float_member("x", 0)).unwrap();
    assert_eq!(registry.finalize(POSITION), Ok(()));
    assert_eq!(registry.finalize(POSITION), Err(MetaError::InvalidTransition));
    assert_eq!(registry.state_of(POSITION), TypeState::Complete);
}

#[test]
fn bitmask_constant_with_two_bits_is_refused() {
    let mut registry = TypeRegistry::new();
    assert_eq!(
        registry.add_bitmask_constant(MOVEMENT, false, "Both".to_string(), 6),
        Err(MetaError::InvalidConstant)
    );
    // A refused first constant registers nothing.
    assert!(!registry.is_registered(MOVEMENT));
    assert_eq!(registry.add_bitmask_constant(MOVEMENT, false, "Run".to_string(), 4), Ok(()));
    assert_eq!(registry.kind_of(MOVEMENT), Ok(EcsTypeKind::BitmaskType));
    assert_eq!(
        registry.add_bitmask_constant(MOVEMENT, false, "Both".to_string(), 6),
        Err(MetaError::InvalidConstant)
    );
    assert_eq!(
        registry.add_bitmask_constant(MOVEMENT, false, "Sprint".to_string(), 4),
        Err(MetaError::InvalidConstant)
    );
    assert_eq!(registry.add_bitmask_constant(MOVEMENT, false, "Walk".to_string(), 2), Ok(()));

    let mut expected = BitmaskDescriptor::new();
    expected.add_constant("Run".to_string(), 4).unwrap();
    expected.add_constant("Walk".to_string(), 2).unwrap();
    assert_eq!(registry.descriptor_of(MOVEMENT), Ok(&Descriptor::Bitmask(expected)));
    assert_eq!(registry.state_of(MOVEMENT), TypeState::Partial);
}

#[test]
fn enum_constant_is_refused_only_where_values_must_be_distinct() {
    let mut registry = TypeRegistry::new();
    assert_eq!(registry.add_enum_constant(COLOR, false, "Red".to_string(), 0, true), Ok(()));
    assert_eq!(
        registry.add_enum_constant(COLOR, false, "Crimson".to_string(), 0, true),
        Err(MetaError::InvalidConstant)
    );
    assert_eq!(registry.descriptor_of(COLOR).map(|found| found.element_count()), Ok(1));
    assert_eq!(registry.add_enum_constant(COLOR, false, "Crimson".to_string(), 0, false), Ok(()));
    assert_eq!(registry.add_enum_constant(COLOR, false, "Blue".to_string(), -7, true), Ok(()));

    let mut expected = EnumDescriptor::new();
    expected.add_constant("Red".to_string(), 0, false).unwrap();
    expected.add_constant("Crimson".to_string(), 0, false).unwrap();
    expected.add_constant("Blue".to_string(), -7, false).unwrap();
    assert_eq!(registry.descriptor_of(COLOR), Ok(&Descriptor::Enum(expected)));
    assert_eq!(registry.kind_of(COLOR), Ok(EcsTypeKind::EnumType));
}

#[test]
fn add_element_agrees_with_the_named_operations() {
    let mut by_element = TypeRegistry::new();
    let mut by_name = TypeRegistry::new();
    by_element.add_element(POSITION, false, Element::Member(float_member("x", 0))).unwrap();
    by_name.add_member(POSITION, false, float_member("x", 0)).unwrap();
    let constant = EnumConstant { name: "Red".to_string(), value: 3 };
    by_element
        .add_element(COLOR, true, Element::EnumConstant { constant, distinct: true })
        .unwrap();
    by_name.add_enum_constant(COLOR, true, "Red".to_string(), 3, true).unwrap();
    let flag = Element::BitmaskConstant { name: "Walk".to_string(), value: 8 };
    by_element.add_element(MOVEMENT, false, flag).unwrap();
    by_name.add_bitmask_constant(MOVEMENT, false, "Walk".to_string(), 8).unwrap();
    for id in [POSITION, COLOR, MOVEMENT] {
        assert_eq!(by_element.descriptor_of(id), by_name.descriptor_of(id));
        assert_eq!(by_element.meta_of(id), by_name.meta_of(id));
    }
    assert_eq!(by_element.len(), 3);
}

#[test]
fn removed_type_can_be_registered_anew() {
    let mut registry = TypeRegistry::new();
    assert_eq!(registry.remove(POSITION), Err(MetaError::NotRegistered));
    let array = ArrayDescriptor { element: TypeRef::Primitive(EcsPrimitiveKind::U8), count: 4 };
    registry.register(POSITION, false, Descriptor::Array(array)).unwrap();
    assert_eq!(registry.len(), 1);
    assert_eq!(registry.remove(POSITION), Ok(Descriptor::Array(array)));
    assert_eq!(registry.len(), 0);
    assert_eq!(registry.kind_of(POSITION), Err(MetaError::NotRegistered));
    assert_eq!(registry.add_member(POSITION, false, float_member("x", 0)), Ok(()));
    assert_eq!(registry.kind_of(POSITION), Ok(EcsTypeKind::StructType));
    // A partial type can be destroyed as well.
    assert!(registry.remove(POSITION).is_ok());
    assert_eq!(registry.state_of(POSITION), TypeState::Unregistered);
}

#[test]
fn operation_on_one_type_leaves_the_others() {
    let mut registry = TypeRegistry::new();
    registry.add_member(POSITION, false, float_member("x", 0)).unwrap();
    registry.register(COLOR, true, Descriptor::Enum(EnumDescriptor::new())).unwrap();
    registry.add_member(POSITION, false, float_member("y", 4)).unwrap();
    registry.finalize(POSITION).unwrap();
    assert_eq!(registry.meta_of(COLOR), Ok(EcsMetaType::new(EcsTypeKind::EnumType, true, false)));
    assert_eq!(registry.descriptor_of(COLOR), Ok(&Descriptor::Enum(EnumDescriptor::new())));
    registry.remove(COLOR).unwrap();
    assert_eq!(registry.descriptor_of(POSITION).map(|found| found.element_count()), Ok(2));
    assert_eq!(registry.len(), 1);
}

#[test]
fn unit_is_attached_to_registered_types_only() {
    let mut registry = TypeRegistry::new();
    registry.register_primitive(POSITION, true, EcsPrimitiveKind::F32.tag()).unwrap();
    assert_eq!(registry.unit_of(POSITION), Ok(None));
    // Neither an undefined unit nor an unregistered type is taken.
    assert_eq!(registry.attach_unit(POSITION, METERS), Err(MetaError::NotRegistered));
    registry.define_unit(METERS, meters());
    assert!(registry.has_unit(METERS));
    assert_eq!(registry.attach_unit(COLOR, METERS), Err(MetaError::NotRegistered));
    assert_eq!(registry.unit_of(POSITION), Ok(None));

    assert_eq!(registry.attach_unit(POSITION, METERS), Ok(()));
    assert_eq!(registry.unit_of(POSITION), Ok(Some(&meters())));
    assert_eq!(registry.kind_of(POSITION), Ok(EcsTypeKind::PrimitiveType));
}

#[test]
fn many_types_share_one_unit() {
    let mut registry = TypeRegistry::new();
    registry.define_unit(METERS, meters());
    let seconds = UnitDescriptor {
        symbol: "ms".to_string(),
        quantity: None,
        conversion: Some(UnitConversion { factor: 10, power: -3 }),
    };
    registry.define_unit(SECONDS, seconds.clone());
    registry.register_primitive(POSITION, true, EcsPrimitiveKind::F32.tag()).unwrap();
    registry.register_primitive(COLOR, true, EcsPrimitiveKind::F64.tag()).unwrap();
    registry.attach_unit(POSITION, METERS).unwrap();
    registry.attach_unit(COLOR, METERS).unwrap();
    assert_eq!(registry.unit_of(POSITION), Ok(Some(&meters())));
    assert_eq!(registry.unit_of(COLOR), Ok(Some(&meters())));

    // Attaching again replaces the unit; defining anew shows in every type.
    registry.attach_unit(COLOR, SECONDS).unwrap();
    assert_eq!(registry.unit_of(COLOR), Ok(Some(&seconds)));
    let kilometers = UnitDescriptor {
        symbol: "km".to_string(),
        quantity: Some(9),
        conversion: Some(UnitConversion { factor: 10, power: 3 }),
    };
    registry.define_unit(METERS, kilometers.clone());
    assert_eq!(registry.unit_of(POSITION), Ok(Some(&kilometers)));
}
