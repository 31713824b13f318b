//! Descriptors of the shape of a reflected type, whatever its kind.

use vstd::prelude::*;
use crate::bitmask::is_single_bit;
use crate::constants::{
    distinct_values, has_value, lemma_new_flag_keeps_valid, lemma_new_value_keeps_distinct,
    valid_flags, BitmaskDescriptor, ConstantView, EnumConstant, EnumDescriptor,
};
use crate::error::MetaError;
use crate::kinds::{EcsPrimitiveKind, EcsTypeKind};
use crate::structure::{Member, MemberView, StructDescriptor};

verus! {

/// The declared type of a member or of an element.
#[derive(Clone, Copy, Debug, PartialEq, Eq, Hash, Structural)]
pub enum TypeRef {
    /// A scalar of the given kind.
    Primitive(EcsPrimitiveKind),
    /// Another reflected type, named by its identifier.
    Registered(u64),
}

/// The description of an array: a fixed number of elements of one type.
#[derive(Clone, Copy, Debug, PartialEq, Eq, Hash, Structural)]
pub struct ArrayDescriptor {
    /// The type of every element.
    pub element: TypeRef,
    /// The number of elements.
    pub count: u32,
}

/// The description of a vector: any number of elements of one type.
#[derive(Clone, Copy, Debug, PartialEq, Eq, Hash, Structural)]
pub struct VectorDescriptor {
    /// The type of every element.
    pub element: TypeRef,
}

/// The description of an opaque type: its layout stays hidden, and its values
/// are read and written as values of another type.
#[derive(Clone, Copy, Debug, PartialEq, Eq, Hash, Structural)]
pub struct OpaqueDescriptor {
    /// The type that stands for the hidden one.
    pub as_type: TypeRef,
}

/// What an element says, as plain values.
pub enum ElementView {
    Member(MemberView),
    EnumConstant { constant: ConstantView, distinct: bool },
    BitmaskConstant(ConstantView),
}

impl ElementView {
    /// The descriptor that a description starts from when the element is its
    /// first: the one of the element's kind that lists nothing.
    pub open spec fn empty_descriptor(self) -> DescriptorView {
        match self {
            ElementView::Member(_) => DescriptorView::Struct(Seq::empty()),
            ElementView::EnumConstant { .. } => DescriptorView::Enum(Seq::empty()),
            ElementView::BitmaskConstant(_) => DescriptorView::Bitmask(Seq::empty()),
        }
    }
}

/// What a descriptor says, as plain values.
pub enum DescriptorView {
    Primitive(EcsPrimitiveKind),
    Bitmask(Seq<ConstantView>),
    Enum(Seq<ConstantView>),
    Struct(Seq<MemberView>),
    Array(ArrayDescriptor),
    Vector(VectorDescriptor),
    Opaque(OpaqueDescriptor),
}

impl DescriptorView {
    /// The kind of type that the descriptor describes.
    pub open spec fn kind(self) -> EcsTypeKind {
        match self {
            DescriptorView::Primitive(_) => EcsTypeKind::PrimitiveType,
            DescriptorView::Bitmask(_) => EcsTypeKind::BitmaskType,
            DescriptorView::Enum(_) => EcsTypeKind::EnumType,
            DescriptorView::Struct(_) => EcsTypeKind::StructType,
            DescriptorView::Array(_) => EcsTypeKind::ArrayType,
            DescriptorView::Vector(_) => EcsTypeKind::VectorType,
            DescriptorView::Opaque(_) => EcsTypeKind::OpaqueType,
        }
    }

    /// The number of members or constants that the descriptor lists; 0 for a
    /// descriptor that lists none.
    pub open spec fn element_count(self) -> nat {
        match self {
            DescriptorView::Bitmask(constants) => constants.len(),
            DescriptorView::Enum(constants) => constants.len(),
            DescriptorView::Struct(members) => members.len(),
            _ => 0,
        }
    }

    /// Whether the descriptor keeps the rules of its kind: the flags of a
    /// bitmask are distinct single bits.
    pub open spec fn valid(self) -> bool {
        self matches DescriptorView::Bitmask(constants) ==> valid_flags(constants)
    }

    /// The descriptor with `member` behind its members. Only a struct has
    /// members.
    pub open spec fn with_member(self, member: MemberView) -> Result<DescriptorView, MetaError> {
        match self {
            DescriptorView::Struct(members) => Ok(DescriptorView::Struct(members.push(member))),
            _ => Err(MetaError::InvalidTransition),
        }
    }

    /// The descriptor with `constant` behind its constants. Only an enum has
    /// constants, and with `distinct` set it takes no value twice.
    pub open spec fn with_enum_constant(self, constant: ConstantView, distinct: bool) -> Result<
        DescriptorView,
        MetaError,
    > {
        match self {
            DescriptorView::Enum(constants) => if distinct && has_value(constants, constant.value) {
                Err(MetaError::InvalidConstant)
            } else {
                Ok(DescriptorView::Enum(constants.push(constant)))
            },
            _ => Err(MetaError::InvalidTransition),
        }
    }

    /// The descriptor with `flag` behind its flags. Only a bitmask has
    /// flags, and it takes single set bits only and none of them twice.
    pub open spec fn with_flag(self, flag: ConstantView) -> Result<DescriptorView, MetaError> {
        match self {
            DescriptorView::Bitmask(constants) => if is_single_bit(flag.value) && !has_value(
                constants,
                flag.value,
            ) {
                Ok(DescriptorView::Bitmask(constants.push(flag)))
            } else {
                Err(MetaError::InvalidConstant)
            },
            _ => Err(MetaError::InvalidTransition),
        }
    }

    /// The descriptor with `element` behind what it lists.
    pub open spec fn with_element(self, element: ElementView) -> Result<DescriptorView, MetaError> {
        match element {
            ElementView::Member(member) => self.with_member(member),
            ElementView::EnumConstant { constant, distinct } => self.with_enum_constant(
                constant,
                distinct,
            ),
            ElementView::BitmaskConstant(flag) => self.with_flag(flag),
        }
    }
}

/// Growing keeps a valid descriptor valid and its kind, and makes it list one
/// thing more.
pub proof fn lemma_with_element_keeps_valid(
    descriptor: DescriptorView,
    element: ElementView,
    grown: DescriptorView,
)
    requires
        descriptor.valid(),
        descriptor.with_element(element) == Ok::<DescriptorView, MetaError>(grown),
    ensures
        grown.valid(),
        grown.kind() == descriptor.kind(),
        grown.element_count() == descriptor.element_count() + 1,
{
    if let DescriptorView::Bitmask(flags) = descriptor {
        lemma_new_flag_keeps_valid(flags, element->BitmaskConstant_0);
    }
}

/// An enum whose values are distinct keeps them distinct as long as its
/// constants are added as distinct ones.
pub proof fn lemma_distinct_constant_keeps_distinct(
    descriptor: DescriptorView,
    constant: ConstantView,
    grown: DescriptorView,
)
    requires
        descriptor matches DescriptorView::Enum(constants) && distinct_values(constants),
        descriptor.with_enum_constant(constant, true) == Ok::<DescriptorView, MetaError>(grown),
    ensures
        grown matches DescriptorView::Enum(constants) && distinct_values(constants),
{
    lemma_new_value_keeps_distinct(descriptor->Enum_0, constant);
}

/// A member or a constant that is to be added to a description.
#[derive(Debug, PartialEq, Eq)]
pub enum Element {
    /// A member of a struct.
    Member(Member),
    /// A constant of an enum. With `distinct` set it is taken only if no
    /// constant has its value yet.
    EnumConstant { constant: EnumConstant, distinct: bool },
    /// A flag of a bitmask.
    BitmaskConstant { name: String, value: u32 },
}

impl View for Element {
    type V = ElementView;

    open spec fn view(&self) -> ElementView {
        match self {
            Element::Member(member) => ElementView::Member(member@),
            Element::EnumConstant { constant, distinct } => ElementView::EnumConstant {
                constant: constant@,
                distinct: *distinct,
            },
            Element::BitmaskConstant { name, value } => ElementView::BitmaskConstant(
                ConstantView { name: name@, value: *value as int },
            ),
        }
    }
}

impl Element {
    /// The descriptor that a description starts from when the element is its
    /// first: the one of the element's kind that lists nothing.
    pub fn empty_descriptor(&self) -> (descriptor: Descriptor)
        ensures
            descriptor@ == self@.empty_descriptor(),
    {
        match self {
            Element::Member(_) => Descriptor::Struct(StructDescriptor::new()),
            Element::EnumConstant { .. } => Descriptor::Enum(EnumDescriptor::new()),
            Element::BitmaskConstant { .. } => Descriptor::Bitmask(BitmaskDescriptor::new()),
        }
    }
}

/// The description of the shape of a reflected type.
///
/// A descriptor always keeps the rules of its kind, as
/// [`DescriptorView::valid`] states them.
#[derive(Debug, PartialEq, Eq)]
pub enum Descriptor {
    Primitive(EcsPrimitiveKind),
    Bitmask(BitmaskDescriptor),
    Enum(EnumDescriptor),
    Struct(StructDescriptor),
    Array(ArrayDescriptor),
    Vector(VectorDescriptor),
    Opaque(OpaqueDescriptor),
}

impl View for Descriptor {
    type V = DescriptorView;

    open spec fn view(&self) -> DescriptorView {
        match self {
            Descriptor::Primitive(kind) => DescriptorView::Primitive(*kind),
            Descriptor::Bitmask(bitmask) => DescriptorView::Bitmask(bitmask@),
            Descriptor::Enum(enumeration) => DescriptorView::Enum(enumeration@),
            Descriptor::Struct(structure) => DescriptorView::Struct(structure@),
            Descriptor::Array(array) => DescriptorView::Array(*array),
            Descriptor::Vector(vector) => DescriptorView::Vector(*vector),
            Descriptor::Opaque(opaque) => DescriptorView::Opaque(*opaque),
        }
    }
}

impl Clone for Descriptor {
    fn clone(&self) -> (copy: Descriptor)
        ensures
            copy@ == self@,
    {
        match self {
            Descriptor::Primitive(kind) => Descriptor::Primitive(*kind),
            Descriptor::Bitmask(bitmask) => Descriptor::Bitmask(bitmask.clone()),
            Descriptor::Enum(enumeration) => Descriptor::Enum(enumeration.clone()),
            Descriptor::Struct(structure) => Descriptor::Struct(structure.clone()),
            Descriptor::Array(array) => Descriptor::Array(*array),
            Descriptor::Vector(vector) => Descriptor::Vector(*vector),
            Descriptor::Opaque(opaque) => Descriptor::Opaque(*opaque),
        }
    }
}

impl Descriptor {
    /// The kind of type that the descriptor describes.
    pub fn kind(&self) -> (kind: EcsTypeKind)
        ensures
            kind == self@.kind(),
            self@.valid(),
    {
        match self {
            Descriptor::Primitive(_) => EcsTypeKind::PrimitiveType,
            Descriptor::Bitmask(bitmask) => {
                proof {
                    use_type_invariant(bitmask);
                }
                EcsTypeKind::BitmaskType
            },
            Descriptor::Enum(_) => EcsTypeKind::EnumType,
            Descriptor::Struct(_) => EcsTypeKind::StructType,
            Descriptor::Array(_) => EcsTypeKind::ArrayType,
            Descriptor::Vector(_) => EcsTypeKind::VectorType,
            Descriptor::Opaque(_) => EcsTypeKind::OpaqueType,
        }
    }

    /// The number of members or constants that the descriptor lists; 0 for a
    /// descriptor that lists none.
    pub fn element_count(&self) -> (count: usize)
        ensures
            count == self@.element_count(),
            self@.valid(),
    {
        match self {
            Descriptor::Bitmask(bitmask) => bitmask.len(),
            Descriptor::Enum(enumeration) => enumeration.len(),
            Descriptor::Struct(structure) => structure.len(),
            _ => 0,
        }
    }

    /// Adds a member behind those of a struct.
    ///
    /// A descriptor of another kind is left as it is.
    pub fn add_member(&mut self, member: Member) -> (result: Result<(), MetaError>)
        ensures
            match old(self)@.with_member(member@) {
                Ok(grown) => result is Ok && final(self)@ == grown,
                Err(error) => result == Err::<(), MetaError>(error) && final(self)@ == old(self)@,
            },
    {
        match self {
            Descriptor::Struct(structure) => {
                structure.add_member(member);
                Ok(())
            },
            _ => Err(MetaError::InvalidTransition),
        }
    }

    /// Adds a constant behind those of an enum.
    ///
    /// With `distinct` set, a value that one of the constants already has is
    /// refused. A descriptor of another kind is left as it is.
    pub fn add_enum_constant(&mut self, name: String, value: i64, distinct: bool) -> (result:
        Result<(), MetaError>)
        ensures
            match old(self)@.with_enum_constant(
                ConstantView { name: name@, value: value as int },
                distinct,
            ) {
                Ok(grown) => result is Ok && final(self)@ == grown,
                Err(error) => result == Err::<(), MetaError>(error) && final(self)@ == old(self)@,
            },
    {
        match self {
            Descriptor::Enum(enumeration) => enumeration.add_constant(name, value, distinct),
            _ => Err(MetaError::InvalidTransition),
        }
    }

    /// Adds a flag behind those of a bitmask.
    ///
    /// A word that is not a single set bit is refused, and so is a bit that
    /// one of the flags already names. A descriptor of another kind is left
    /// as it is.
    pub fn add_bitmask_constant(&mut self, name: String, value: u32) -> (result: Result<
        (),
        MetaError,
    >)
        ensures
            match old(self)@.with_flag(ConstantView { name: name@, value: value as int }) {
                Ok(grown) => result is Ok && final(self)@ == grown,
                Err(error) => result == Err::<(), MetaError>(error) && final(self)@ == old(self)@,
            },
    {
        match self {
            Descriptor::Bitmask(bitmask) => bitmask.add_constant(name, value),
            _ => Err(MetaError::InvalidTransition),
        }
    }

    /// Adds an element behind what the descriptor lists.
    ///
    /// An element that the descriptor refuses leaves it as it is.
    pub fn add_element(&mut self, element: Element) -> (result: Result<(), MetaError>)
        ensures
            match old(self)@.with_element(element@) {
                Ok(grown) => result is Ok && final(self)@ == grown,
                Err(error) => result == Err::<(), MetaError>(error) && final(self)@ == old(self)@,
            },
    {
        match element {
            Element::Member(member) => self.add_member(member),
            Element::EnumConstant { constant, distinct } => self.add_enum_constant(
                constant.name,
                constant.value,
                distinct,
            ),
            Element::BitmaskConstant { name, value } => self.add_bitmask_constant(name, value),
        }
    }
}

} // verus!
