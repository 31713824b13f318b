//! The marker that every reflected type carries, and the lifecycle that the
//! marker goes through.

use vstd::prelude::*;
use crate::error::MetaError;
use crate::kinds::EcsTypeKind;

verus! {

/// What a marker says, as plain values.
pub struct MetaTypeView {
    /// Which descriptor describes the type.
    pub kind: EcsTypeKind,
    /// Whether the type was already defined before it was described.
    pub existing: bool,
    /// Whether the description may still grow.
    pub partial: bool,
}

/// The marker attached to every reflected type.
#[derive(Clone, Copy, Debug, PartialEq, Eq)]
pub struct EcsMetaType {
    kind: EcsTypeKind,
    existing: bool,
    partial: bool,
}

impl View for EcsMetaType {
    type V = MetaTypeView;

    closed spec fn view(&self) -> MetaTypeView {
        MetaTypeView { kind: self.kind, existing: self.existing, partial: self.partial }
    }
}

impl EcsMetaType {
    /// A marker with the given contents.
    pub fn new(kind: EcsTypeKind, existing: bool, partial: bool) -> (marker: EcsMetaType)
        ensures
            marker@ == (MetaTypeView { kind, existing, partial }),
    {
        EcsMetaType { kind, existing, partial }
    }

    /// Reads a marker from the raw values found at the engine boundary.
    ///
    /// The kind arrives as an integer and is checked against the range of
    /// [`EcsTypeKind`] before it is read as a kind.
    pub fn from_raw(kind_tag: i32, existing: bool, partial: bool) -> (result: Result<
        EcsMetaType,
        MetaError,
    >)
        ensures
            result is Ok <==> EcsTypeKind::valid_tag(kind_tag as int),
            result matches Ok(marker) ==> marker@.kind.spec_tag() == kind_tag
                && marker@.existing == existing && marker@.partial == partial,
            result matches Err(error) ==> error == MetaError::TagOutOfRange,
    {
        match EcsTypeKind::from_tag(kind_tag) {
            Ok(kind) => Ok(EcsMetaType { kind, existing, partial }),
            Err(error) => Err(error),
        }
    }

    /// Which descriptor describes the type.
    pub fn kind(&self) -> (kind: EcsTypeKind)
        ensures
            kind == self@.kind,
    {
        self.kind
    }

    /// Whether the type was already defined before it was described.
    pub fn existing(&self) -> (existing: bool)
        ensures
            existing == self@.existing,
    {
        self.existing
    }

    /// Whether the description may still grow.
    pub fn partial(&self) -> (partial: bool)
        ensures
            partial == self@.partial,
    {
        self.partial
    }
}

/// Where a type stands in its lifecycle.
#[derive(Clone, Copy, Debug, PartialEq, Eq, Hash, Structural)]
pub enum TypeState {
    /// The type has no reflection data.
    Unregistered,
    /// The type is being described piece by piece.
    Partial,
    /// The description is final.
    Complete,
}

/// What can happen to a type in its lifecycle.
#[derive(Clone, Copy, Debug, PartialEq, Eq, Hash, Structural)]
pub enum TypeEvent {
    /// A member or a constant is added to the description.
    AddElement,
    /// The description is declared final.
    Finalize,
    /// A whole description is supplied at once.
    Register,
    /// The type is destroyed, and its description with it.
    Destroy,
}

impl TypeState {
    /// The state that `event` leads to, or the error that refuses it.
    ///
    /// A description grows only while it is partial, a whole description is
    /// taken only for a type that has none, and a complete description
    /// changes no more: the type has to be destroyed first.
    pub open spec fn spec_next(self, event: TypeEvent) -> Result<TypeState, MetaError> {
        match (self, event) {
            (TypeState::Unregistered, TypeEvent::AddElement) => Ok(TypeState::Partial),
            (TypeState::Unregistered, TypeEvent::Register) => Ok(TypeState::Complete),
            (TypeState::Unregistered, _) => Err(MetaError::NotRegistered),
            (TypeState::Partial, TypeEvent::AddElement) => Ok(TypeState::Partial),
            (TypeState::Partial, TypeEvent::Finalize) => Ok(TypeState::Complete),
            (_, TypeEvent::Destroy) => Ok(TypeState::Unregistered),
            _ => Err(MetaError::InvalidTransition),
        }
    }

    /// The state that `event` leads to, or the error that refuses it.
    pub fn next(self, event: TypeEvent) -> (result: Result<TypeState, MetaError>)
        ensures
            result == self.spec_next(event),
    {
        match (self, event) {
            (TypeState::Unregistered, TypeEvent::AddElement) => Ok(TypeState::Partial),
            (TypeState::Unregistered, TypeEvent::Register) => Ok(TypeState::Complete),
            (TypeState::Unregistered, _) => Err(MetaError::NotRegistered),
            (TypeState::Partial, TypeEvent::AddElement) => Ok(TypeState::Partial),
            (TypeState::Partial, TypeEvent::Finalize) => Ok(TypeState::Complete),
            (_, TypeEvent::Destroy) => Ok(TypeState::Unregistered),
            _ => Err(MetaError::InvalidTransition),
        }
    }

    /// The state that a marker, or the lack of one, stands for.
    pub open spec fn spec_of_marker(marker: Option<MetaTypeView>) -> TypeState {
        match marker {
            None => TypeState::Unregistered,
            Some(found) => if found.partial {
                TypeState::Partial
            } else {
                TypeState::Complete
            },
        }
    }

    /// The state that a marker, or the lack of one, stands for.
    pub fn of_marker(marker: Option<EcsMetaType>) -> (state: TypeState)
        ensures
            state == Self::spec_of_marker(
                match marker {
                    Some(found) => Some(found@),
                    None => None,
                },
            ),
    {
        match marker {
            None => TypeState::Unregistered,
            Some(found) => if found.partial() {
                TypeState::Partial
            } else {
                TypeState::Complete
            },
        }
    }
}

} // verus!
