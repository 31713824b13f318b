//! The registry of reflected types.

use std::collections::HashMap;
use vstd::prelude::*;
use crate::builtins::{fills_table, Builtin, BuiltinTable, PRIMITIVE_BUILTIN_COUNT};
use crate::constants::{ConstantView, EnumConstant};
use crate::descriptor::{
    lemma_with_element_keeps_valid, Descriptor, DescriptorView, Element, ElementView,
};
use crate::error::MetaError;
use crate::kinds::{EcsPrimitiveKind, EcsTypeKind};
use crate::marker::{EcsMetaType, MetaTypeView, TypeEvent, TypeState};
use crate::structure::Member;
use crate::unit::{UnitDescriptor, UnitView};

verus! {

/// What the registry holds for one type, as plain values.
pub struct RecordView {
    /// Whether the type was already defined before it was described.
    pub existing: bool,
    /// Whether the description may still grow.
    pub partial: bool,
    /// The description of the type's shape.
    pub descriptor: DescriptorView,
    /// The unit in which the type's values are measured, named by its
    /// identifier.
    pub unit: Option<u64>,
}

impl RecordView {
    /// What the marker of the type says.
    pub open spec fn marker(self) -> MetaTypeView {
        MetaTypeView {
            kind: self.descriptor.kind(),
            existing: self.existing,
            partial: self.partial,
        }
    }

    /// Whether the record can stand in a registry: the descriptor keeps the
    /// rules of its kind, and a partial description has at least the element
    /// that made it partial.
    pub open spec fn valid(self) -> bool {
        &&& self.descriptor.valid()
        &&& self.partial ==> self.descriptor.element_count() >= 1
    }
}

/// What a registry holds, as plain values: the reflected types and the
/// units, each under its identifier.
#[verifier::ext_equal]
pub struct RegistryView {
    pub types: Map<u64, RecordView>,
    pub units: Map<u64, UnitView>,
}

impl RegistryView {
    /// Whether the contents can be those of a registry: every record is
    /// valid, and every unit that a type names is there.
    pub open spec fn valid(self) -> bool {
        &&& forall|id: u64| self.types.contains_key(id) ==> (#[trigger] self.types[id]).valid()
        &&& forall|id: u64|
            self.types.contains_key(id) ==> ((#[trigger] self.types[id]).unit matches Some(unit)
                ==> self.units.contains_key(unit))
    }

    /// What the marker of the type `id` says, if the type has one.
    pub open spec fn marker_of(self, id: u64) -> Option<MetaTypeView> {
        if self.types.contains_key(id) {
            Some(self.types[id].marker())
        } else {
            None
        }
    }

    /// Where the type `id` stands in its lifecycle.
    pub open spec fn state_of(self, id: u64) -> TypeState {
        TypeState::spec_of_marker(self.marker_of(id))
    }

    /// The same contents, but for the record of `id`, which is `record`.
    pub open spec fn with_record(self, id: u64, record: RecordView) -> RegistryView {
        RegistryView { types: self.types.insert(id, record), ..self }
    }

    /// The contents after a whole description of `id` was supplied, or the
    /// error that refuses it.
    pub open spec fn register(self, id: u64, existing: bool, descriptor: DescriptorView) -> Result<
        RegistryView,
        MetaError,
    > {
        match self.state_of(id).spec_next(TypeEvent::Register) {
            Ok(_) => Ok(
                self.with_record(
                    id,
                    RecordView { existing, partial: false, descriptor, unit: None },
                ),
            ),
            Err(error) => Err(error),
        }
    }

    /// The contents after `id` was registered as the primitive with the raw
    /// tag `tag`, or the error that refuses it.
    pub open spec fn register_primitive(self, id: u64, existing: bool, tag: int) -> Result<
        RegistryView,
        MetaError,
    > {
        match EcsPrimitiveKind::spec_from_tag(tag) {
            Ok(kind) => self.register(id, existing, DescriptorView::Primitive(kind)),
            Err(error) => Err(error),
        }
    }

    /// The record that a description of `id` grows from: the one that is
    /// there, or else a partial one that lists nothing yet.
    pub open spec fn growing_record(self, id: u64, existing: bool, empty: DescriptorView)
        -> RecordView {
        if self.types.contains_key(id) {
            self.types[id]
        } else {
            RecordView { existing, partial: true, descriptor: empty, unit: None }
        }
    }

    /// The contents after `element` was added to the description of `id`, or
    /// the error that refuses it.
    ///
    /// The first element makes the type partial. `existing` is recorded
    /// then, and plays no part afterwards.
    pub open spec fn add_element(self, id: u64, existing: bool, element: ElementView) -> Result<
        RegistryView,
        MetaError,
    > {
        match self.state_of(id).spec_next(TypeEvent::AddElement) {
            Ok(_) => {
                let start = self.growing_record(id, existing, element.empty_descriptor());
                match start.descriptor.with_element(element) {
                    Ok(descriptor) => Ok(self.with_record(id, RecordView { descriptor, ..start })),
                    Err(error) => Err(error),
                }
            },
            Err(error) => Err(error),
        }
    }

    /// The contents after the description of `id` was declared final, or the
    /// error that refuses it.
    pub open spec fn finalize(self, id: u64) -> Result<RegistryView, MetaError> {
        match self.state_of(id).spec_next(TypeEvent::Finalize) {
            Ok(_) => Ok(self.with_record(id, RecordView { partial: false, ..self.types[id] })),
            Err(error) => Err(error),
        }
    }

    /// The contents after the type `id` was destroyed, or the error that
    /// refuses it.
    pub open spec fn remove(self, id: u64) -> Result<RegistryView, MetaError> {
        match self.state_of(id).spec_next(TypeEvent::Destroy) {
            Ok(_) => Ok(RegistryView { types: self.types.remove(id), ..self }),
            Err(error) => Err(error),
        }
    }

    /// The same contents, but for the unit `unit_id`, which is `unit`.
    pub open spec fn define_unit(self, unit_id: u64, unit: UnitView) -> RegistryView {
        RegistryView { units: self.units.insert(unit_id, unit), ..self }
    }

    /// The contents after the unit `unit_id` was attached to the type `id`,
    /// or the error that refuses it: both have to be there.
    pub open spec fn attach_unit(self, id: u64, unit_id: u64) -> Result<RegistryView, MetaError> {
        if self.types.contains_key(id) && self.units.contains_key(unit_id) {
            Ok(self.with_record(id, RecordView { unit: Some(unit_id), ..self.types[id] }))
        } else {
            Err(MetaError::NotRegistered)
        }
    }

    /// The unit in which the values of the type `id` are measured, if the
    /// type names one.
    pub open spec fn unit_of(self, id: u64) -> Option<UnitView> {
        match self.types[id].unit {
            Some(unit_id) => Some(self.units[unit_id]),
            None => None,
        }
    }
}

/// One change to a registry, as plain values.
pub enum Operation {
    /// A whole description of `id` is supplied.
    Register { id: u64, existing: bool, descriptor: DescriptorView },
    /// `id` is registered as the primitive with the raw tag `tag`.
    RegisterPrimitive { id: u64, existing: bool, tag: int },
    /// `element` is added to the description of `id`.
    AddElement { id: u64, existing: bool, element: ElementView },
    /// The description of `id` is declared final.
    Finalize { id: u64 },
    /// The type `id` is destroyed.
    Remove { id: u64 },
    /// The unit `unit_id` is defined.
    DefineUnit { unit_id: u64, unit: UnitView },
    /// The unit `unit_id` is attached to the type `id`.
    AttachUnit { id: u64, unit_id: u64 },
}

impl RegistryView {
    /// The contents after `operation`, or the error that refuses it.
    pub open spec fn apply(self, operation: Operation) -> Result<RegistryView, MetaError> {
        match operation {
            Operation::Register { id, existing, descriptor } => self.register(
                id,
                existing,
                descriptor,
            ),
            Operation::RegisterPrimitive { id, existing, tag } => self.register_primitive(
                id,
                existing,
                tag,
            ),
            Operation::AddElement { id, existing, element } => self.add_element(
                id,
                existing,
                element,
            ),
            Operation::Finalize { id } => self.finalize(id),
            Operation::Remove { id } => self.remove(id),
            Operation::DefineUnit { unit_id, unit } => Ok(self.define_unit(unit_id, unit)),
            Operation::AttachUnit { id, unit_id } => self.attach_unit(id, unit_id),
        }
    }

    /// The contents that `operation` leaves behind: those it leads to, or,
    /// where it is refused, those it found.
    pub open spec fn after(self, operation: Operation) -> RegistryView {
        match self.apply(operation) {
            Ok(next) => next,
            Err(_) => self,
        }
    }

    /// The contents that `operations` leave behind when they are applied one
    /// after the other; an operation that is refused changes nothing.
    pub open spec fn run(self, operations: Seq<Operation>) -> RegistryView
        decreases operations.len(),
    {
        if operations.len() == 0 {
            self
        } else {
            self.run(operations.drop_last()).after(operations.last())
        }
    }

    /// Whether one of the primitive types of `table` is registered.
    pub open spec fn holds_builtin(self, table: Seq<u64>) -> bool {
        exists|name: Builtin|
            name.spec_primitive_kind() is Some && self.types.contains_key(
                #[trigger] table[name.spec_index()],
            )
    }

    /// Whether `after` is what the registration of the first `count`
    /// primitive types of `table` makes of these contents: each of those
    /// types has the record of a built-in primitive, and nothing else has
    /// changed.
    pub open spec fn is_with_builtins_up_to(self, table: Seq<u64>, count: int, after: RegistryView)
        -> bool {
        &&& after.units == self.units
        &&& forall|name: Builtin|
            name.spec_index() < count && name.spec_primitive_kind() is Some
                ==> after.types.contains_key(#[trigger] table[name.spec_index()])
                && after.types[table[name.spec_index()]] == builtin_record(
                name.spec_primitive_kind()->Some_0,
            )
        &&& forall|id: u64|
            !table.take(count).contains(id) ==> (#[trigger] after.types.contains_key(id))
                == self.types.contains_key(id) && after.types[id] == self.types[id]
    }

    /// Whether `after` is what the registration of the primitive types of
    /// `table` makes of these contents.
    pub open spec fn is_with_builtins(self, table: Seq<u64>, after: RegistryView) -> bool {
        self.is_with_builtins_up_to(table, PRIMITIVE_BUILTIN_COUNT as int, after)
    }
}

/// The record of a built-in primitive: the engine defined the type before
/// anything described it, and the description is final.
pub open spec fn builtin_record(kind: EcsPrimitiveKind) -> RecordView {
    RecordView {
        existing: true,
        partial: false,
        descriptor: DescriptorView::Primitive(kind),
        unit: None,
    }
}

/// Registering the next primitive type of a table goes on from what the
/// registration of those before it has made.
proof fn lemma_next_builtin(
    start: RegistryView,
    table: Seq<u64>,
    name: Builtin,
    before: RegistryView,
    after: RegistryView,
)
    requires
        fills_table(table),
        !start.holds_builtin(table),
        name.spec_primitive_kind() is Some,
        start.is_with_builtins_up_to(table, name.spec_index(), before),
        after == before.after(
            Operation::Register {
                id: table[name.spec_index()],
                existing: true,
                descriptor: DescriptorView::Primitive(name.spec_primitive_kind()->Some_0),
            },
        ),
    ensures
        before.state_of(table[name.spec_index()]) == TypeState::Unregistered,
        start.is_with_builtins_up_to(table, name.spec_index() + 1, after),
{
    let place = name.spec_index();
    let id = table[place];
    Builtin::lemma_places(name, name);
    assert(!table.take(place).contains(id));
    assert(!before.types.contains_key(id));
    assert forall|other: Builtin|
        other.spec_index() < place + 1 && other.spec_primitive_kind() is Some
        implies after.types.contains_key(#[trigger] table[other.spec_index()])
        && after.types[table[other.spec_index()]] == builtin_record(
        other.spec_primitive_kind()->Some_0,
    ) by {
        Builtin::lemma_places(other, name);
        if other != name {
            assert(table[other.spec_index()] != id);
        }
    }
    assert forall|other: u64| !table.take(place + 1).contains(other) implies (
    #[trigger] after.types.contains_key(other)) == start.types.contains_key(other)
        && after.types[other] == start.types[other] by {
        assert(table.take(place + 1)[place] == id);
        if table.take(place).contains(other) {
            let at = choose|at: int| 0 <= at < place && table.take(place)[at] == other;
            assert(table.take(place + 1)[at] == other);
        }
        assert(before.types.contains_key(other) == start.types.contains_key(other));
    }
    assert(start.is_with_builtins_up_to(table, place + 1, after));
}

/// What the registry holds for one type.
#[derive(Debug)]
struct TypeRecord {
    meta: EcsMetaType,
    descriptor: Descriptor,
    unit: Option<u64>,
}

impl View for TypeRecord {
    type V = RecordView;

    closed spec fn view(&self) -> RecordView {
        RecordView {
            existing: self.meta@.existing,
            partial: self.meta@.partial,
            descriptor: self.descriptor@,
            unit: self.unit,
        }
    }
}

impl TypeRecord {
    /// Whether the marker names the kind of the descriptor.
    spec fn consistent(&self) -> bool {
        self.meta@.kind == self.descriptor@.kind()
    }

    /// The record of a type that is described by `descriptor`.
    fn new(existing: bool, partial: bool, descriptor: Descriptor) -> (record: TypeRecord)
        ensures
            record.consistent(),
            record.descriptor@.valid(),
            record@ == (RecordView { existing, partial, descriptor: descriptor@, unit: None }),
    {
        TypeRecord {
            meta: EcsMetaType::new(descriptor.kind(), existing, partial),
            descriptor,
            unit: None,
        }
    }
}

/// The catalog of reflected types: for each type its descriptor and its
/// marker, and the units that types are measured in.
///
/// What a registry holds is always valid, as [`RegistryView::valid`] states
/// it, and the marker of a type always names the kind of its descriptor.
#[derive(Debug)]
pub struct TypeRegistry {
    types: HashMap<u64, TypeRecord>,
    units: HashMap<u64, UnitDescriptor>,
}

impl View for TypeRegistry {
    type V = RegistryView;

    closed spec fn view(&self) -> RegistryView {
        RegistryView {
            types: Map::new(|id: u64| self.types@.contains_key(id), |id: u64| self.types@[id]@),
            units: Map::new(|id: u64| self.units@.contains_key(id), |id: u64| self.units@[id]@),
        }
    }
}

impl Default for TypeRegistry {
    fn default() -> (registry: TypeRegistry)
        ensures
            registry@.types == Map::<u64, RecordView>::empty(),
            registry@.units == Map::<u64, UnitView>::empty(),
    {
        TypeRegistry::new()
    }
}

impl TypeRegistry {
    #[verifier::type_invariant]
    spec fn coherent(self) -> bool {
        forall|id: u64|
            self.types@.contains_key(id) ==> {
                let record = #[trigger] self.types@[id];
                &&& record.consistent()
                &&& record@.valid()
                &&& record.unit matches Some(unit) ==> self.units@.contains_key(unit)
            }
    }

    /// What a coherent registry holds is valid.
    proof fn lemma_coherent_is_valid(self)
        requires
            self.coherent(),
        ensures
            self@.valid(),
    {
        assert forall|id: u64| self@.types.contains_key(id) implies (
        #[trigger] self@.types[id]).valid() && (self@.types[id].unit matches Some(unit)
            ==> self@.units.contains_key(unit)) by {
            let record = self.types@[id];
            assert(record@ == self@.types[id]);
        }
    }

    /// A registry without types and without units.
    pub fn new() -> (registry: TypeRegistry)
        ensures
            registry@.types == Map::<u64, RecordView>::empty(),
            registry@.units == Map::<u64, UnitView>::empty(),
    {
        TypeRegistry { types: HashMap::new(), units: HashMap::new() }
    }

    /// Takes the record of `id` out of the registry.
    fn take(&mut self, id: u64) -> (record: Option<TypeRecord>)
        ensures
            final(self).units@ == old(self).units@,
            final(self).types@ == old(self).types@.remove(id),
            match record {
                Some(found) => old(self).types@.contains_key(id) && found == old(self).types@[id],
                None => !old(self).types@.contains_key(id),
            },
    {
        proof {
            use_type_invariant(&*self);
        }
        let mut types: HashMap<u64, TypeRecord> = HashMap::new();
        std::mem::swap(&mut self.types, &mut types);
        let record = types.remove(&id);
        self.types = types;
        record
    }

    /// Puts `record` into the registry as the record of `id`.
    fn put(&mut self, id: u64, record: TypeRecord)
        requires
            record.consistent(),
            record@.valid(),
            record.unit matches Some(unit) ==> old(self).units@.contains_key(unit),
        ensures
            final(self).units@ == old(self).units@,
            final(self).types@ == old(self).types@.insert(id, record),
            final(self)@ == old(self)@.with_record(id, record@),
    {
        proof {
            use_type_invariant(&*self);
        }
        let mut types: HashMap<u64, TypeRecord> = HashMap::new();
        std::mem::swap(&mut self.types, &mut types);
        types.insert(id, record);
        self.types = types;
    }

    /// Whether the type `id` has reflection data.
    pub fn is_registered(&self, id: u64) -> (registered: bool)
        ensures
            registered == self@.types.contains_key(id),
    {
        self.types.contains_key(&id)
    }

    /// The number of types that have reflection data.
    pub fn len(&self) -> (len: usize)
        ensures
            len == self@.types.len(),
            self@.valid(),
    {
        proof {
            use_type_invariant(self);
            self.lemma_coherent_is_valid();
            assert(self@.types.dom() == self.types@.dom());
        }
        self.types.len()
    }

    /// The marker of the type `id`.
    pub fn meta_of(&self, id: u64) -> (result: Result<EcsMetaType, MetaError>)
        ensures
            match self@.marker_of(id) {
                Some(marker) => result matches Ok(found) && found@ == marker,
                None => result == Err::<EcsMetaType, MetaError>(MetaError::NotRegistered),
            },
    {
        proof {
            use_type_invariant(self);
        }
        match self.types.get(&id) {
            Some(record) => Ok(record.meta),
            None => Err(MetaError::NotRegistered),
        }
    }

    /// The kind of the type `id`.
    pub fn kind_of(&self, id: u64) -> (result: Result<EcsTypeKind, MetaError>)
        ensures
            match self@.marker_of(id) {
                Some(marker) => result == Ok::<EcsTypeKind, MetaError>(marker.kind),
                None => result == Err::<EcsTypeKind, MetaError>(MetaError::NotRegistered),
            },
    {
        match self.meta_of(id) {
            Ok(marker) => Ok(marker.kind()),
            Err(error) => Err(error),
        }
    }

    /// Where the type `id` stands in its lifecycle.
    pub fn state_of(&self, id: u64) -> (state: TypeState)
        ensures
            state == self@.state_of(id),
    {
        match self.meta_of(id) {
            Ok(marker) => TypeState::of_marker(Some(marker)),
            Err(_) => TypeState::of_marker(None),
        }
    }

    /// The descriptor of the type `id`.
    pub fn descriptor_of(&self, id: u64) -> (result: Result<&Descriptor, MetaError>)
        ensures
            result is Ok <==> self@.types.contains_key(id),
            result matches Ok(descriptor) ==> descriptor@ == self@.types[id].descriptor,
            result matches Err(error) ==> error == MetaError::NotRegistered,
    {
        match self.types.get(&id) {
            Some(record) => Ok(&record.descriptor),
            None => Err(MetaError::NotRegistered),
        }
    }

    /// Registers the type `id` with a whole description.
    ///
    /// Only a type without reflection data can be registered; the
    /// description is final from the start.
    pub fn register(&mut self, id: u64, existing: bool, descriptor: Descriptor) -> (result: Result<
        (),
        MetaError,
    >)
        ensures
            match old(self)@.register(id, existing, descriptor@) {
                Ok(next) => result is Ok && final(self)@ == next,
                Err(error) => result == Err::<(), MetaError>(error) && final(self)@ == old(self)@,
            },
            final(self)@.valid(),
    {
        proof {
            use_type_invariant(&*self);
        }
        match self.state_of(id).next(TypeEvent::Register) {
            Ok(_) => {
                self.put(id, TypeRecord::new(existing, false, descriptor));
                proof {
                    use_type_invariant(&*self);
                    self.lemma_coherent_is_valid();
                }
                Ok(())
            },
            Err(error) => {
                proof {
                    self.lemma_coherent_is_valid();
                }
                Err(error)
            },
        }
    }

    /// Registers the type `id` as the primitive whose raw tag is `tag`.
    ///
    /// The tag is checked against the range of [`EcsPrimitiveKind`] before
    /// anything else.
    pub fn register_primitive(&mut self, id: u64, existing: bool, tag: i32) -> (result: Result<
        (),
        MetaError,
    >)
        ensures
            match old(self)@.register_primitive(id, existing, tag as int) {
                Ok(next) => result is Ok && final(self)@ == next,
                Err(error) => result == Err::<(), MetaError>(error) && final(self)@ == old(self)@,
            },
            final(self)@.valid(),
    {
        proof {
            use_type_invariant(&*self);
        }
        match EcsPrimitiveKind::from_tag(tag) {
            Ok(kind) => self.register(id, existing, Descriptor::Primitive(kind)),
            Err(error) => {
                proof {
                    self.lemma_coherent_is_valid();
                }
                Err(error)
            },
        }
    }

    /// Whether one of the primitive types of `table` is registered.
    pub fn holds_builtin(&self, table: &BuiltinTable) -> (held: bool)
        ensures
            held == self@.holds_builtin(table@),
            fills_table(table@),
    {
        proof {
            use_type_invariant(table);
        }
        let mut index: usize = 0;
        while index < PRIMITIVE_BUILTIN_COUNT
            invariant
                index <= PRIMITIVE_BUILTIN_COUNT,
                forall|name: Builtin|
                    name.spec_index() < index ==> !self@.types.contains_key(
                        #[trigger] table@[name.spec_index()],
                    ),
            decreases PRIMITIVE_BUILTIN_COUNT - index,
        {
            if let Some(name) = Builtin::from_index(index) {
                proof {
                    Builtin::lemma_places(name, name);
                }
                if self.is_registered(table.id_of(name)) {
                    return true;
                }
                assert forall|other: Builtin|
                    other.spec_index() < index + 1 implies !self@.types.contains_key(
                    #[trigger] table@[other.spec_index()],
                ) by {
                    Builtin::lemma_places(other, name);
                }
            }
            index += 1;
        }
        assert forall|name: Builtin|
            name.spec_primitive_kind() is Some implies !self@.types.contains_key(
            #[trigger] table@[name.spec_index()],
        ) by {
            Builtin::lemma_places(name, name);
        }
        false
    }

    /// Registers the primitive types of `table`, each under its identifier.
    ///
    /// They are the engine's own types: each is marked as defined before it
    /// was described, and its description is final. Where one of them is
    /// registered already, none is registered.
    pub fn register_builtins(&mut self, table: &BuiltinTable) -> (result: Result<(), MetaError>)
        ensures
            old(self)@.holds_builtin(table@) ==> result == Err::<(), MetaError>(
                MetaError::InvalidTransition,
            ) && final(self)@ == old(self)@,
            !old(self)@.holds_builtin(table@) ==> result is Ok && old(self)@.is_with_builtins(
                table@,
                final(self)@,
            ),
            final(self)@.valid(),
    {
        proof {
            use_type_invariant(&*self);
            self.lemma_coherent_is_valid();
        }
        if self.holds_builtin(table) {
            return Err(MetaError::InvalidTransition);
        }
        let mut index: usize = 0;
        while index < PRIMITIVE_BUILTIN_COUNT
            invariant
                index <= PRIMITIVE_BUILTIN_COUNT,
                fills_table(table@),
                !old(self)@.holds_builtin(table@),
                old(self)@.is_with_builtins_up_to(table@, index as int, self@),
                self@.valid(),
            decreases PRIMITIVE_BUILTIN_COUNT - index,
        {
            if let Some(name) = Builtin::from_index(index) {
                if let Some(kind) = name.primitive_kind() {
                    let id = table.id_of(name);
                    proof {
                        let registration = Operation::Register {
                            id,
                            existing: true,
                            descriptor: DescriptorView::Primitive(kind),
                        };
                        lemma_next_builtin(
                            old(self)@,
                            table@,
                            name,
                            self@,
                            self@.after(registration),
                        );
                    }
                    self.register(id, true, Descriptor::Primitive(kind))?;
                }
            }
            index += 1;
        }
        Ok(())
    }

    /// Adds an element to the description of the type `id`.
    ///
    /// The first element registers the type as partial, with `existing` as
    /// given; later elements leave the marker as it is. An element that is
    /// refused leaves the registry as it is.
    pub fn add_element(&mut self, id: u64, existing: bool, element: Element) -> (result: Result<
        (),
        MetaError,
    >)
        ensures
            match old(self)@.add_element(id, existing, element@) {
                Ok(next) => result is Ok && final(self)@ == next,
                Err(error) => result == Err::<(), MetaError>(error) && final(self)@ == old(self)@,
            },
            final(self)@.valid(),
    {
        proof {
            use_type_invariant(&*self);
        }
        if let Err(error) = self.state_of(id).next(TypeEvent::AddElement) {
            proof {
                self.lemma_coherent_is_valid();
            }
            return Err(error);
        }
        let (mut record, registered) = match self.take(id) {
            Some(record) => (record, true),
            None => (TypeRecord::new(existing, true, element.empty_descriptor()), false),
        };
        let ghost start = record@;
        let result = record.descriptor.add_element(element);
        proof {
            if result is Ok {
                lemma_with_element_keeps_valid(start.descriptor, element@, record.descriptor@);
            }
        }
        if registered || result.is_ok() {
            self.put(id, record);
        }
        proof {
            use_type_invariant(&*self);
            self.lemma_coherent_is_valid();
        }
        result
    }

    /// Adds a member to the description of the struct `id`.
    pub fn add_member(&mut self, id: u64, existing: bool, member: Member) -> (result: Result<
        (),
        MetaError,
    >)
        ensures
            match old(self)@.add_element(id, existing, ElementView::Member(member@)) {
                Ok(next) => result is Ok && final(self)@ == next,
                Err(error) => result == Err::<(), MetaError>(error) && final(self)@ == old(self)@,
            },
            final(self)@.valid(),
    {
        self.add_element(id, existing, Element::Member(member))
    }

    /// Adds a constant to the description of the enum `id`.
    ///
    /// With `distinct` set, a value that one of the constants already has is
    /// refused.
    pub fn add_enum_constant(
        &mut self,
        id: u64,
        existing: bool,
        name: String,
        value: i64,
        distinct: bool,
    ) -> (result: Result<(), MetaError>)
        ensures
            match old(self)@.add_element(
                id,
                existing,
                ElementView::EnumConstant {
                    constant: ConstantView { name: name@, value: value as int },
                    distinct,
                },
            ) {
                Ok(next) => result is Ok && final(self)@ == next,
                Err(error) => result == Err::<(), MetaError>(error) && final(self)@ == old(self)@,
            },
            final(self)@.valid(),
    {
        let constant = EnumConstant { name, value };
        self.add_element(id, existing, Element::EnumConstant { constant, distinct })
    }

    /// Adds a flag to the description of the bitmask `id`.
    ///
    /// A word that is not a single set bit is refused, and so is a bit that
    /// one of the flags already names.
    pub fn add_bitmask_constant(
        &mut self,
        id: u64,
        existing: bool,
        name: String,
        value: u32,
    ) -> (result: Result<(), MetaError>)
        ensures
            match old(self)@.add_element(
                id,
                existing,
                ElementView::BitmaskConstant(ConstantView { name: name@, value: value as int }),
            ) {
                Ok(next) => result is Ok && final(self)@ == next,
                Err(error) => result == Err::<(), MetaError>(error) && final(self)@ == old(self)@,
            },
            final(self)@.valid(),
    {
        self.add_element(id, existing, Element::BitmaskConstant { name, value })
    }

    /// Declares the description of the type `id` final.
    ///
    /// Only a partial description can be declared final.
    pub fn finalize(&mut self, id: u64) -> (result: Result<(), MetaError>)
        ensures
            match old(self)@.finalize(id) {
                Ok(next) => result is Ok && final(self)@ == next,
                Err(error) => result == Err::<(), MetaError>(error) && final(self)@ == old(self)@,
            },
            final(self)@.valid(),
    {
        proof {
            use_type_invariant(&*self);
            self.lemma_coherent_is_valid();
        }
        if let Err(error) = self.state_of(id).next(TypeEvent::Finalize) {
            return Err(error);
        }
        if let Some(record) = self.take(id) {
            let meta = EcsMetaType::new(record.meta.kind(), record.meta.existing(), false);
            self.put(id, TypeRecord { meta, descriptor: record.descriptor, unit: record.unit });
        }
        proof {
            use_type_invariant(&*self);
            self.lemma_coherent_is_valid();
        }
        Ok(())
    }

    /// Destroys the type `id`: its reflection data leaves the registry, and
    /// its descriptor is handed back.
    pub fn remove(&mut self, id: u64) -> (result: Result<Descriptor, MetaError>)
        ensures
            match old(self)@.remove(id) {
                Ok(next) => result matches Ok(descriptor) && descriptor@ == old(
                    self,
                )@.types[id].descriptor && final(self)@ == next,
                Err(error) => result == Err::<Descriptor, MetaError>(error) && final(self)@ == old(
                    self,
                )@,
            },
            final(self)@.valid(),
    {
        proof {
            use_type_invariant(&*self);
            self.lemma_coherent_is_valid();
        }
        let taken = self.take(id);
        proof {
            use_type_invariant(&*self);
            self.lemma_coherent_is_valid();
        }
        match taken {
            Some(record) => Ok(record.descriptor),
            None => Err(MetaError::NotRegistered),
        }
    }

    /// Defines the unit `unit_id`, or defines it anew.
    pub fn define_unit(&mut self, unit_id: u64, unit: UnitDescriptor)
        ensures
            final(self)@ == old(self)@.define_unit(unit_id, unit@),
            final(self)@.valid(),
    {
        proof {
            use_type_invariant(&*self);
        }
        // The types go out first: while they are away, no record names a unit,
        // so the units may be taken out and changed.
        let mut types: HashMap<u64, TypeRecord> = HashMap::new();
        std::mem::swap(&mut self.types, &mut types);
        let mut units: HashMap<u64, UnitDescriptor> = HashMap::new();
        std::mem::swap(&mut self.units, &mut units);
        units.insert(unit_id, unit);
        self.units = units;
        self.types = types;
        proof {
            use_type_invariant(&*self);
            self.lemma_coherent_is_valid();
        }
    }

    /// Whether the unit `unit_id` is defined.
    pub fn has_unit(&self, unit_id: u64) -> (defined: bool)
        ensures
            defined == self@.units.contains_key(unit_id),
    {
        self.units.contains_key(&unit_id)
    }

    /// Attaches the unit `unit_id` to the type `id`.
    ///
    /// The type has to be registered and the unit defined. A unit that was
    /// attached before is replaced.
    pub fn attach_unit(&mut self, id: u64, unit_id: u64) -> (result: Result<(), MetaError>)
        ensures
            match old(self)@.attach_unit(id, unit_id) {
                Ok(next) => result is Ok && final(self)@ == next,
                Err(error) => result == Err::<(), MetaError>(error) && final(self)@ == old(self)@,
            },
            final(self)@.valid(),
    {
        proof {
            use_type_invariant(&*self);
            self.lemma_coherent_is_valid();
        }
        if !self.has_unit(unit_id) {
            return Err(MetaError::NotRegistered);
        }
        let result = match self.take(id) {
            Some(record) => {
                self.put(
                    id,
                    TypeRecord {
                        meta: record.meta,
                        descriptor: record.descriptor,
                        unit: Some(unit_id),
                    },
                );
                Ok(())
            },
            None => Err(MetaError::NotRegistered),
        };
        proof {
            use_type_invariant(&*self);
            self.lemma_coherent_is_valid();
        }
        result
    }

    /// The unit in which the values of the type `id` are measured, if the
    /// type names one.
    pub fn unit_of(&self, id: u64) -> (result: Result<Option<&UnitDescriptor>, MetaError>)
        ensures
            result is Ok <==> self@.types.contains_key(id),
            result matches Ok(found) ==> match self@.unit_of(id) {
                Some(unit) => found matches Some(descriptor) && descriptor@ == unit,
                None => found is None,
            },
            result matches Err(error) ==> error == MetaError::NotRegistered,
    {
        proof {
            use_type_invariant(self);
        }
        match self.types.get(&id) {
            Some(record) => match record.unit {
                Some(unit_id) => Ok(self.units.get(&unit_id)),
                None => Ok(None),
            },
            None => Err(MetaError::NotRegistered),
        }
    }
}

} // verus!
