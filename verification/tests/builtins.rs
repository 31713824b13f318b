use ecs_meta::builtins::{
    has_no_duplicates, same_text, Builtin, BuiltinTable, BUILTIN_COUNT, PRIMITIVE_BUILTIN_COUNT,
};
use ecs_meta::descriptor::Descriptor;
use ecs_meta::error::MetaError;
use ecs_meta::kinds::{EcsPrimitiveKind, EcsTypeKind};
use ecs_meta::marker::EcsMetaType;
use ecs_meta::registry::TypeRegistry;

const NAMES: [Builtin; 19] = [
    Builtin::Bool,
    Builtin::Char,
    Builtin::Byte,
    Builtin::U8,
    Builtin::U16,
    Builtin::U32,
    Builtin::U64,
    Builtin::UPtr,
    Builtin::I8,
    Builtin::I16,
    Builtin::I32,
    Builtin::I64,
    Builtin::IPtr,
    Builtin::F32,
    Builtin::F64,
    Builtin::String,
    Builtin::Entity,
    Builtin::Constant,
    Builtin::Quantity,
];

fn handed_out() -> Vec<u64> {
    (0..19).map(|place| 300 + 2 * place).collect()
}

#[test]
fn builtin_names_have_their_places_in_order() {
    assert_eq!(BUILTIN_COUNT, 19);
    assert_eq!(PRIMITIVE_BUILTIN_COUNT, 17);
    for (place, name) in NAMES.iter().enumerate() {
        assert_eq!(name.index(), place);
        assert_eq!(Builtin::from_index(place), Some(*name));
    }
    assert_eq!(Builtin::from_index(19), None);
    assert_eq!(Builtin::from_index(usize::MAX), None);
}

#[test]
fn builtin_names_of_types_stand_for_primitives() {
    assert_eq!(Builtin::Bool.primitive_kind(), Some(EcsPrimitiveKind::Bool));
    assert_eq!(Builtin::UPtr.primitive_kind(), Some(EcsPrimitiveKind::UPtr));
    assert_eq!(Builtin::F64.primitive_kind(), Some(EcsPrimitiveKind::F64));
    assert_eq!(Builtin::Entity.primitive_kind(), Some(EcsPrimitiveKind::Entity));
    assert_eq!(Builtin::Constant.primitive_kind(), None);
    assert_eq!(Builtin::Quantity.primitive_kind(), None);
    for name in NAMES {
        assert_eq!(name.primitive_kind().is_some(), name.index() < PRIMITIVE_BUILTIN_COUNT);
    }
}

#[test]
fn duplicates_are_found() {
    assert!(has_no_duplicates(&vec![]));
    assert!(has_no_duplicates(&vec![7]));
    assert!(has_no_duplicates(&vec![1, 2, 3]));
    assert!(!has_no_duplicates(&vec![1, 2, 1]));
    assert!(!has_no_duplicates(&vec![1, 2, 3, 3]));
    assert!(!has_no_duplicates(&vec![5, 5]));
}

#[test]
fn table_needs_one_identifier_for_each_name() {
    assert!(BuiltinTable::new(handed_out()).is_some());
    assert!(BuiltinTable::new(vec![]).is_none());
    let mut short = handed_out();
    short.pop();
    assert!(BuiltinTable::new(short).is_none());
    let mut long = handed_out();
    long.push(1);
    assert!(BuiltinTable::new(long).is_none());
    let mut repeated = handed_out();
    repeated[18] = repeated[0];
    assert!(BuiltinTable::new(repeated).is_none());
}

#[test]
fn table_finds_identifier_by_name_and_name_by_identifier() {
    let table = BuiltinTable::new(handed_out()).unwrap();
    assert_eq!(table.id_of(Builtin::Bool), 300);
    assert_eq!(table.id_of(Builtin::F64), 328);
    assert_eq!(table.id_of(Builtin::Quantity), 336);
    for name in NAMES {
        assert_eq!(table.name_of(table.id_of(name)), Some(name));
    }
    assert_eq!(table.name_of(301), None);
    assert_eq!(table.name_of(0), None);
    assert_eq!(table.name_of(338), None);
}

#[test]
fn builtin_primitives_are_registered_under_their_identifiers() {
    let table = BuiltinTable::new(handed_out()).unwrap();
    let mut registry = TypeRegistry::new();
    registry.register_primitive(1, false, 1).unwrap();
    assert_eq!(registry.register_builtins(&table), Ok(()));
    assert_eq!(registry.len(), 18);
    for name in NAMES {
        let id = table.id_of(name);
        match name.primitive_kind() {
            Some(kind) => {
                assert_eq!(registry.descriptor_of(id), Ok(&Descriptor::Primitive(kind)));
                assert_eq!(
                    registry.meta_of(id),
                    Ok(EcsMetaType::new(EcsTypeKind::PrimitiveType, true, false))
                );
            }
            None => assert_eq!(registry.kind_of(id), Err(MetaError::NotRegistered)),
        }
    }
    assert_eq!(registry.kind_of(table.id_of(Builtin::F64)), Ok(EcsTypeKind::PrimitiveType));
    assert_eq!(registry.meta_of(1).map(|marker| marker.existing()), Ok(false));
}

#[test]
fn builtin_primitives_are_registered_all_or_none() {
    let table = BuiltinTable::new(handed_out()).unwrap();
    let mut registry = TypeRegistry::new();
    // The identifier of the last primitive is taken; the tags' are free.
    registry.register_primitive(table.id_of(Builtin::Entity), false, 4).unwrap();
    assert_eq!(registry.register_builtins(&table), Err(MetaError::InvalidTransition));
    assert_eq!(registry.len(), 1);
    assert!(!registry.is_registered(table.id_of(Builtin::Bool)));
    assert_eq!(
        registry.descriptor_of(table.id_of(Builtin::Entity)),
        Ok(&Descriptor::Primitive(EcsPrimitiveKind::U8))
    );

    let mut other = TypeRegistry::new();
    other.register_primitive(table.id_of(Builtin::Constant), false, 4).unwrap();
    assert_eq!(other.register_builtins(&table), Ok(()));
    assert_eq!(other.register_builtins(&table), Err(MetaError::InvalidTransition));
    assert_eq!(other.len(), 18);
}

#[test]
fn builtin_names_are_written_in_capitals() {
    let written = [
        "BOOL", "CHAR", "BYTE", "U8", "U16", "U32", "U64", "U_PTR", "I8", "I16", "I32", "I64",
        "I_PTR", "F32", "F64", "STRING", "ENTITY", "CONSTANT", "QUANTITY",
    ];
    for (name, text) in NAMES.iter().zip(written) {
        assert_eq!(name.label(), text);
        assert_eq!(Builtin::from_label(text), Some(*name));
    }
}

#[test]
fn unknown_text_names_no_builtin() {
    assert_eq!(Builtin::from_label(""), None);
    assert_eq!(Builtin::from_label("bool"), None);
    assert_eq!(Builtin::from_label("BOOL "), None);
    assert_eq!(Builtin::from_label("UPTR"), None);
    assert_eq!(Builtin::from_label("ID"), None);
    assert_eq!(Builtin::from_label("U128"), None);
    assert_eq!(Builtin::from_label("ÉNTITY"), None);
}

#[test]
fn texts_are_compared_character_by_character() {
    assert!(same_text("", ""));
    assert!(same_text("F64", "F64"));
    assert!(!same_text("F64", "F32"));
    assert!(!same_text("F64", "F6"));
    assert!(!same_text("F6", "F64"));
    assert!(same_text("größe", "größe"));
    assert!(!same_text("große", "größe"));
}

#[test]
fn table_is_queried_by_written_name() {
    let table = BuiltinTable::new(handed_out()).unwrap();
    assert_eq!(table.lookup("BOOL"), Some(300));
    assert_eq!(table.lookup("F64"), Some(328));
    assert_eq!(table.lookup("QUANTITY"), Some(336));
    assert_eq!(table.lookup("quantity"), None);
    assert_eq!(table.lookup(""), None);
}
