//! The description of a struct: its members, one after the other.

use vstd::prelude::*;
use crate::descriptor::TypeRef;

verus! {

/// The values that a member may take: every value from `min` to `max`, both
/// included.
#[derive(Clone, Copy, Debug, PartialEq, Eq)]
pub struct MemberRange {
    min: i64,
    max: i64,
}

impl View for MemberRange {
    type V = (int, int);

    /// The two bounds, lower bound first.
    closed spec fn view(&self) -> (int, int) {
        (self.min as int, self.max as int)
    }
}

impl MemberRange {
    #[verifier::type_invariant]
    spec fn ordered(self) -> bool {
        self.min <= self.max
    }

    /// The range from `min` to `max`, unless it would be empty.
    pub fn new(min: i64, max: i64) -> (result: Option<MemberRange>)
        ensures
            result is Some <==> min <= max,
            result matches Some(range) ==> range@ == (min as int, max as int),
    {
        if min <= max {
            Some(MemberRange { min, max })
        } else {
            None
        }
    }

    /// The lower bound.
    pub fn min(&self) -> (min: i64)
        ensures
            min == self@.0,
            self@.0 <= self@.1,
    {
        proof {
            use_type_invariant(self);
        }
        self.min
    }

    /// The upper bound.
    pub fn max(&self) -> (max: i64)
        ensures
            max == self@.1,
            self@.0 <= self@.1,
    {
        proof {
            use_type_invariant(self);
        }
        self.max
    }

    /// Whether `value` lies in the range.
    pub fn contains(&self, value: i64) -> (inside: bool)
        ensures
            inside == (self@.0 <= value <= self@.1),
    {
        self.min <= value && value <= self.max
    }
}

/// What a member descriptor says, as plain values.
pub struct MemberView {
    pub name: Seq<char>,
    pub offset: u32,
    pub ty: TypeRef,
    pub range: Option<(int, int)>,
}

/// One member of a struct.
#[derive(Debug, PartialEq, Eq)]
pub struct Member {
    /// The member's name.
    pub name: String,
    /// Where the member starts, in bytes from the start of the struct.
    pub offset: u32,
    /// The member's declared type.
    pub ty: TypeRef,
    /// The values that the member may take, where they are restricted.
    pub range: Option<MemberRange>,
}

impl View for Member {
    type V = MemberView;

    open spec fn view(&self) -> MemberView {
        MemberView {
            name: self.name@,
            offset: self.offset,
            ty: self.ty,
            range: match self.range {
                Some(range) => Some(range@),
                None => None,
            },
        }
    }
}

impl Clone for Member {
    fn clone(&self) -> (copy: Member)
        ensures
            copy == *self,
    {
        Member { name: self.name.clone(), offset: self.offset, ty: self.ty, range: self.range }
    }
}

impl Member {
    /// A member without a restriction on its values.
    pub fn new(name: String, offset: u32, ty: TypeRef) -> (member: Member)
        ensures
            member@ == (MemberView { name: name@, offset, ty, range: None }),
    {
        Member { name, offset, ty, range: None }
    }

    /// The same member, with its values restricted to `range`.
    pub fn with_range(self, range: MemberRange) -> (member: Member)
        ensures
            member@ == (MemberView { range: Some(range@), ..self@ }),
    {
        Member { name: self.name, offset: self.offset, ty: self.ty, range: Some(range) }
    }
}

/// The views of a sequence of members, in the same order.
pub open spec fn member_views(members: Seq<Member>) -> Seq<MemberView> {
    Seq::new(members.len(), |i: int| members[i]@)
}

/// The description of a struct: its members, in the order of their
/// declaration.
#[derive(Debug, PartialEq, Eq)]
pub struct StructDescriptor {
    members: Vec<Member>,
}

impl View for StructDescriptor {
    type V = Seq<MemberView>;

    closed spec fn view(&self) -> Seq<MemberView> {
        member_views(self.members@)
    }
}

impl Default for StructDescriptor {
    fn default() -> (descriptor: StructDescriptor)
        ensures
            descriptor@ == Seq::<MemberView>::empty(),
    {
        StructDescriptor::new()
    }
}

impl Clone for StructDescriptor {
    fn clone(&self) -> (copy: StructDescriptor)
        ensures
            copy@ == self@,
    {
        let members = self.members.clone();
        assert(member_views(members@) == self@);
        StructDescriptor { members }
    }
}

impl StructDescriptor {
    /// The description of a struct without members.
    pub fn new() -> (descriptor: StructDescriptor)
        ensures
            descriptor@ == Seq::<MemberView>::empty(),
    {
        StructDescriptor { members: Vec::new() }
    }

    /// The description of a struct with the given members.
    pub fn from_members(members: Vec<Member>) -> (descriptor: StructDescriptor)
        ensures
            descriptor@ == member_views(members@),
    {
        StructDescriptor { members }
    }

    /// Adds a member behind those that are there.
    pub fn add_member(&mut self, member: Member)
        ensures
            final(self)@ == old(self)@.push(member@),
    {
        self.members.push(member);
    }

    /// The number of members.
    pub fn len(&self) -> (len: usize)
        ensures
            len == self@.len(),
    {
        self.members.len()
    }

    /// The member at `index`, counted from 0, if there is one.
    pub fn member(&self, index: usize) -> (result: Option<&Member>)
        ensures
            result is Some <==> index < self@.len(),
            result matches Some(member) ==> member@ == self@[index as int],
    {
        if index < self.members.len() {
            Some(&self.members[index])
        } else {
            None
        }
    }

    /// The members, in the order of their declaration.
    pub fn members(&self) -> (members: &Vec<Member>)
        ensures
            member_views(members@) == self@,
    {
        &self.members
    }
}

} // verus!
