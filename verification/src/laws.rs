//! What holds of every registry, whatever was done to it.

use vstd::prelude::*;
use crate::descriptor::{lemma_with_element_keeps_valid, DescriptorView, ElementView};
use crate::error::MetaError;
use crate::marker::{MetaTypeView, TypeEvent, TypeState};
use crate::registry::{Operation, RegistryView};

verus! {

/// The lifecycle event that an operation is for the type `id`, if it is
/// one.
pub open spec fn event_for(operation: Operation, id: u64) -> Option<TypeEvent> {
    match operation {
        Operation::Register { id: target, .. } if target == id => Some(TypeEvent::Register),
        Operation::RegisterPrimitive { id: target, .. } if target == id => Some(
            TypeEvent::Register,
        ),
        Operation::AddElement { id: target, .. } if target == id => Some(TypeEvent::AddElement),
        Operation::Finalize { id: target } if target == id => Some(TypeEvent::Finalize),
        Operation::Remove { id: target } if target == id => Some(TypeEvent::Destroy),
        _ => None,
    }
}

/// Whether the whole description that `operation` supplies, if it supplies
/// one, is valid.
pub open spec fn supplies_valid_descriptor(operation: Operation) -> bool {
    operation matches Operation::Register { descriptor, .. } ==> descriptor.valid()
}

/// Whether every whole description that `operations` supply is valid.
pub open spec fn supply_valid_descriptors(operations: Seq<Operation>) -> bool {
    forall|i: int|
        0 <= i < operations.len() ==> supplies_valid_descriptor(#[trigger] operations[i])
}

/// Every operation leaves valid contents valid.
pub proof fn lemma_operation_keeps_valid(before: RegistryView, operation: Operation)
    requires
        before.valid(),
        supplies_valid_descriptor(operation),
    ensures
        before.after(operation).valid(),
{
    let after = before.after(operation);
    if let Operation::AddElement { id, existing, element } = operation {
        if before.apply(operation) is Ok {
            let start = before.growing_record(id, existing, element.empty_descriptor());
            lemma_with_element_keeps_valid(
                start.descriptor,
                element,
                start.descriptor.with_element(element)->Ok_0,
            );
        }
    }
    assert forall|id: u64| after.types.contains_key(id) implies (#[trigger] after.types[id]).valid()
        && (after.types[id].unit matches Some(unit) ==> after.units.contains_key(unit)) by {
        if before.types.contains_key(id) {
            assert(before.types[id].valid());
        }
    }
}

/// Whatever is done to valid contents, they stay valid: the flags of every
/// bitmask are distinct single bits, every partial description lists
/// something, and every unit that a type names is defined.
pub proof fn lemma_run_keeps_valid(start: RegistryView, operations: Seq<Operation>)
    requires
        start.valid(),
        supply_valid_descriptors(operations),
    ensures
        start.run(operations).valid(),
    decreases operations.len(),
{
    if operations.len() > 0 {
        let earlier = operations.drop_last();
        assert forall|i: int| 0 <= i < earlier.len() implies supplies_valid_descriptor(
            #[trigger] earlier[i],
        ) by {
            assert(earlier[i] == operations[i]);
        }
        lemma_run_keeps_valid(start, earlier);
        assert(operations.last() == operations[operations.len() - 1]);
        lemma_operation_keeps_valid(start.run(earlier), operations.last());
    }
}

/// A type moves through its lifecycle by the events that are meant for it,
/// and by nothing else.
///
/// An operation that is an event for the type is refused where the lifecycle
/// refuses the event; where the operation is accepted, it leads to the state
/// that the lifecycle gives. Every other operation leaves the type's state
/// as it is.
pub proof fn lemma_state_follows_lifecycle(before: RegistryView, operation: Operation, id: u64)
    ensures
        event_for(operation, id) matches Some(event) ==> (before.apply(operation) matches Ok(next)
            ==> before.state_of(id).spec_next(event) == Ok::<TypeState, MetaError>(
            next.state_of(id),
        )),
        event_for(operation, id) matches Some(event) ==> (before.state_of(id).spec_next(event)
            is Err ==> before.apply(operation) is Err),
        event_for(operation, id) is None ==> before.after(operation).state_of(id)
            == before.state_of(id),
{
}

/// The first element that is added to a type without reflection data makes
/// the type partial, and records `existing`.
pub proof fn lemma_first_element_makes_partial(
    before: RegistryView,
    id: u64,
    existing: bool,
    element: ElementView,
    after: RegistryView,
)
    requires
        !before.types.contains_key(id),
        before.add_element(id, existing, element) == Ok::<RegistryView, MetaError>(after),
    ensures
        after.marker_of(id) == Some(
            MetaTypeView { kind: element.empty_descriptor().kind(), existing, partial: true },
        ),
        after.types[id].descriptor.element_count() == 1,
{
    lemma_with_element_keeps_valid(
        element.empty_descriptor(),
        element,
        after.types[id].descriptor,
    );
}

/// A partial type stays partial until its description is declared final or
/// the type is destroyed: no other operation clears the mark.
pub proof fn lemma_partial_until_finalized(before: RegistryView, operation: Operation, id: u64)
    requires
        before.state_of(id) == TypeState::Partial,
        operation != (Operation::Finalize { id }),
        operation != (Operation::Remove { id }),
    ensures
        before.after(operation).state_of(id) == TypeState::Partial,
        before.after(operation).marker_of(id) matches Some(marker) && marker.partial,
{
}

/// However many operations are applied to a partial type, it stays partial
/// as long as none of them declares its description final or destroys it.
pub proof fn lemma_run_keeps_partial(start: RegistryView, operations: Seq<Operation>, id: u64)
    requires
        start.state_of(id) == TypeState::Partial,
        forall|i: int|
            0 <= i < operations.len() ==> #[trigger] operations[i] != (Operation::Finalize { id })
                && operations[i] != (Operation::Remove { id }),
    ensures
        start.run(operations).state_of(id) == TypeState::Partial,
    decreases operations.len(),
{
    if operations.len() > 0 {
        let earlier = operations.drop_last();
        assert forall|i: int| 0 <= i < earlier.len() implies #[trigger] earlier[i] != (
        Operation::Finalize { id }) && earlier[i] != (Operation::Remove { id }) by {
            assert(earlier[i] == operations[i]);
        }
        lemma_run_keeps_partial(start, earlier, id);
        assert(operations.last() == operations[operations.len() - 1]);
        lemma_partial_until_finalized(start.run(earlier), operations.last(), id);
    }
}

/// Declaring a partial description final clears the mark and changes nothing
/// else of the type.
pub proof fn lemma_finalize_completes(before: RegistryView, id: u64, after: RegistryView)
    requires
        before.finalize(id) == Ok::<RegistryView, MetaError>(after),
    ensures
        before.state_of(id) == TypeState::Partial,
        after.state_of(id) == TypeState::Complete,
        after.marker_of(id) == Some(MetaTypeView { partial: false, ..before.types[id].marker() }),
        after.types[id].descriptor == before.types[id].descriptor,
{
}

/// A whole description that is registered is complete at once, and reads
/// back as it was given.
pub proof fn lemma_registered_reads_back(
    before: RegistryView,
    id: u64,
    existing: bool,
    descriptor: DescriptorView,
    after: RegistryView,
)
    requires
        before.register(id, existing, descriptor) == Ok::<RegistryView, MetaError>(after),
    ensures
        !before.types.contains_key(id),
        after.state_of(id) == TypeState::Complete,
        after.marker_of(id) == Some(
            MetaTypeView { kind: descriptor.kind(), existing, partial: false },
        ),
        after.types[id].descriptor == descriptor,
{
}

/// A complete type keeps its state and its shape until it is destroyed: no
/// other operation marks it partial or changes its descriptor.
pub proof fn lemma_complete_until_destroyed(before: RegistryView, operation: Operation, id: u64)
    requires
        before.state_of(id) == TypeState::Complete,
        operation != (Operation::Remove { id }),
    ensures
        before.after(operation).state_of(id) == TypeState::Complete,
        before.after(operation).types[id].descriptor == before.types[id].descriptor,
{
}

/// However many operations are applied to a complete type, it is never
/// partial and its descriptor stays as it is, as long as none of them destroys
/// it.
pub proof fn lemma_run_keeps_complete(start: RegistryView, operations: Seq<Operation>, id: u64)
    requires
        start.state_of(id) == TypeState::Complete,
        forall|i: int|
            0 <= i < operations.len() ==> #[trigger] operations[i] != (Operation::Remove { id }),
    ensures
        start.run(operations).state_of(id) == TypeState::Complete,
        start.run(operations).types[id].descriptor == start.types[id].descriptor,
    decreases operations.len(),
{
    if operations.len() > 0 {
        let earlier = operations.drop_last();
        assert forall|i: int| 0 <= i < earlier.len() implies #[trigger] earlier[i] != (
        Operation::Remove { id }) by {
            assert(earlier[i] == operations[i]);
        }
        lemma_run_keeps_complete(start, earlier, id);
        assert(operations.last() == operations[operations.len() - 1]);
        lemma_complete_until_destroyed(start.run(earlier), operations.last(), id);
    }
}

/// As long as a type is registered, its kind and the record of whether it
/// existed before stay as they were when its marker was made.
pub proof fn lemma_marker_is_made_once(before: RegistryView, operation: Operation, id: u64)
    requires
        before.valid(),
        before.types.contains_key(id),
        operation != (Operation::Remove { id }),
    ensures
        before.after(operation).marker_of(id) matches Some(marker) && marker.kind
            == before.types[id].marker().kind && marker.existing == before.types[id].existing,
{
    if let Operation::AddElement { id: target, existing, element } = operation {
        if target == id && before.apply(operation) is Ok {
            lemma_with_element_keeps_valid(
                before.types[id].descriptor,
                element,
                before.after(operation).types[id].descriptor,
            );
        }
    }
}

/// An operation on one type leaves the records of all other types as they
/// are.
pub proof fn lemma_other_types_are_untouched(
    before: RegistryView,
    operation: Operation,
    other: u64,
)
    requires
        event_for(operation, other) is None,
        !(operation matches Operation::AttachUnit { id, .. } && id == other),
    ensures
        before.after(operation).types.contains_key(other) == before.types.contains_key(other),
        before.after(operation).types[other] == before.types[other],
{
}

} // verus!
