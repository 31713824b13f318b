//! The identifiers that the engine gives to the types and tags it defines
//! itself.

use vstd::prelude::*;
use crate::kinds::EcsPrimitiveKind;

verus! {

/// The number of built-in names.
pub const BUILTIN_COUNT: usize = 19;

/// The number of built-in names that are primitive types. They come first.
pub const PRIMITIVE_BUILTIN_COUNT: usize = 17;

/// The name of something that the engine defines itself: a primitive type, or
/// one of the two tags that mark constants and quantities.
#[derive(Clone, Copy, Debug, PartialEq, Eq, Hash, Structural)]
pub enum Builtin {
    Bool,
    Char,
    Byte,
    U8,
    U16,
    U32,
    U64,
    UPtr,
    I8,
    I16,
    I32,
    I64,
    IPtr,
    F32,
    F64,
    String,
    Entity,
    Constant,
    Quantity,
}

impl Builtin {
    /// The place of the name in the table, counted from 0.
    pub open spec fn spec_index(self) -> int {
        match self {
            Builtin::Bool => 0,
            Builtin::Char => 1,
            Builtin::Byte => 2,
            Builtin::U8 => 3,
            Builtin::U16 => 4,
            Builtin::U32 => 5,
            Builtin::U64 => 6,
            Builtin::UPtr => 7,
            Builtin::I8 => 8,
            Builtin::I16 => 9,
            Builtin::I32 => 10,
            Builtin::I64 => 11,
            Builtin::IPtr => 12,
            Builtin::F32 => 13,
            Builtin::F64 => 14,
            Builtin::String => 15,
            Builtin::Entity => 16,
            Builtin::Constant => 17,
            Builtin::Quantity => 18,
        }
    }

    /// The kind of primitive that the name stands for, if it names a type.
    pub open spec fn spec_primitive_kind(self) -> Option<EcsPrimitiveKind> {
        match self {
            Builtin::Bool => Some(EcsPrimitiveKind::Bool),
            Builtin::Char => Some(EcsPrimitiveKind::Char),
            Builtin::Byte => Some(EcsPrimitiveKind::Byte),
            Builtin::U8 => Some(EcsPrimitiveKind::U8),
            Builtin::U16 => Some(EcsPrimitiveKind::U16),
            Builtin::U32 => Some(EcsPrimitiveKind::U32),
            Builtin::U64 => Some(EcsPrimitiveKind::U64),
            Builtin::UPtr => Some(EcsPrimitiveKind::UPtr),
            Builtin::I8 => Some(EcsPrimitiveKind::I8),
            Builtin::I16 => Some(EcsPrimitiveKind::I16),
            Builtin::I32 => Some(EcsPrimitiveKind::I32),
            Builtin::I64 => Some(EcsPrimitiveKind::I64),
            Builtin::IPtr => Some(EcsPrimitiveKind::IPtr),
            Builtin::F32 => Some(EcsPrimitiveKind::F32),
            Builtin::F64 => Some(EcsPrimitiveKind::F64),
            Builtin::String => Some(EcsPrimitiveKind::String),
            Builtin::Entity => Some(EcsPrimitiveKind::Entity),
            Builtin::Constant => None,
            Builtin::Quantity => None,
        }
    }

    /// The name as it is written.
    pub open spec fn spec_label(self) -> Seq<char> {
        match self {
            Builtin::Bool => "BOOL"@,
            Builtin::Char => "CHAR"@,
            Builtin::Byte => "BYTE"@,
            Builtin::U8 => "U8"@,
            Builtin::U16 => "U16"@,
            Builtin::U32 => "U32"@,
            Builtin::U64 => "U64"@,
            Builtin::UPtr => "U_PTR"@,
            Builtin::I8 => "I8"@,
            Builtin::I16 => "I16"@,
            Builtin::I32 => "I32"@,
            Builtin::I64 => "I64"@,
            Builtin::IPtr => "I_PTR"@,
            Builtin::F32 => "F32"@,
            Builtin::F64 => "F64"@,
            Builtin::String => "STRING"@,
            Builtin::Entity => "ENTITY"@,
            Builtin::Constant => "CONSTANT"@,
            Builtin::Quantity => "QUANTITY"@,
        }
    }

    /// No two names are written alike.
    pub proof fn lemma_labels_are_distinct(first: Builtin, second: Builtin)
        requires
            first.spec_label() == second.spec_label(),
        ensures
            first == second,
    {
        reveal_strlit("BOOL");
        reveal_strlit("CHAR");
        reveal_strlit("BYTE");
        reveal_strlit("U8");
        reveal_strlit("U16");
        reveal_strlit("U32");
        reveal_strlit("U64");
        reveal_strlit("U_PTR");
        reveal_strlit("I8");
        reveal_strlit("I16");
        reveal_strlit("I32");
        reveal_strlit("I64");
        reveal_strlit("I_PTR");
        reveal_strlit("F32");
        reveal_strlit("F64");
        reveal_strlit("STRING");
        reveal_strlit("ENTITY");
        reveal_strlit("CONSTANT");
        reveal_strlit("QUANTITY");
        if first != second {
            // Two names differ in their length or in one of their first three
            // characters.
            let one = first.spec_label();
            let other = second.spec_label();
            assert(one.len() != other.len() || one[0] != other[0] || one[1] != other[1] || one[2]
                != other[2]);
        }
    }

    /// Every name has a place of its own in the table, and the names of the
    /// primitive types have the first places.
    pub proof fn lemma_places(first: Builtin, second: Builtin)
        ensures
            0 <= first.spec_index() < BUILTIN_COUNT,
            first.spec_index() < PRIMITIVE_BUILTIN_COUNT <==> first.spec_primitive_kind() is Some,
            first.spec_index() == second.spec_index() ==> first == second,
    {
    }

    /// The place of the name in the table, counted from 0.
    pub fn index(&self) -> (index: usize)
        ensures
            index == self.spec_index(),
            index < BUILTIN_COUNT,
    {
        match self {
            Builtin::Bool => 0,
            Builtin::Char => 1,
            Builtin::Byte => 2,
            Builtin::U8 => 3,
            Builtin::U16 => 4,
            Builtin::U32 => 5,
            Builtin::U64 => 6,
            Builtin::UPtr => 7,
            Builtin::I8 => 8,
            Builtin::I16 => 9,
            Builtin::I32 => 10,
            Builtin::I64 => 11,
            Builtin::IPtr => 12,
            Builtin::F32 => 13,
            Builtin::F64 => 14,
            Builtin::String => 15,
            Builtin::Entity => 16,
            Builtin::Constant => 17,
            Builtin::Quantity => 18,
        }
    }

    /// The name as it is written.
    pub fn label(&self) -> (label: &'static str)
        ensures
            label@ == self.spec_label(),
    {
        match self {
            Builtin::Bool => "BOOL",
            Builtin::Char => "CHAR",
            Builtin::Byte => "BYTE",
            Builtin::U8 => "U8",
            Builtin::U16 => "U16",
            Builtin::U32 => "U32",
            Builtin::U64 => "U64",
            Builtin::UPtr => "U_PTR",
            Builtin::I8 => "I8",
            Builtin::I16 => "I16",
            Builtin::I32 => "I32",
            Builtin::I64 => "I64",
            Builtin::IPtr => "I_PTR",
            Builtin::F32 => "F32",
            Builtin::F64 => "F64",
            Builtin::String => "STRING",
            Builtin::Entity => "ENTITY",
            Builtin::Constant => "CONSTANT",
            Builtin::Quantity => "QUANTITY",
        }
    }

    /// The name that is written `text`, if there is one.
    pub fn from_label(text: &str) -> (result: Option<Builtin>)
        ensures
            match result {
                Some(name) => name.spec_label() == text@,
                None => forall|name: Builtin| name.spec_label() != text@,
            },
    {
        let mut index: usize = 0;
        while index < BUILTIN_COUNT
            invariant
                index <= BUILTIN_COUNT,
                forall|name: Builtin| name.spec_index() < index ==> name.spec_label() != text@,
            decreases BUILTIN_COUNT - index,
        {
            if let Some(name) = Builtin::from_index(index) {
                if same_text(name.label(), text) {
                    return Some(name);
                }
                assert forall|other: Builtin|
                    other.spec_index() < index + 1 implies other.spec_label() != text@ by {
                    Builtin::lemma_places(other, name);
                }
            }
            index += 1;
        }
        assert forall|name: Builtin| name.spec_label() != text@ by {
            Builtin::lemma_places(name, name);
        }
        None
    }

    /// The name at the place `index`, if the table has such a place.
    pub fn from_index(index: usize) -> (result: Option<Builtin>)
        ensures
            result is Some <==> index < BUILTIN_COUNT,
            result matches Some(name) ==> name.spec_index() == index,
    {
        match index {
            0 => Some(Builtin::Bool),
            1 => Some(Builtin::Char),
            2 => Some(Builtin::Byte),
            3 => Some(Builtin::U8),
            4 => Some(Builtin::U16),
            5 => Some(Builtin::U32),
            6 => Some(Builtin::U64),
            7 => Some(Builtin::UPtr),
            8 => Some(Builtin::I8),
            9 => Some(Builtin::I16),
            10 => Some(Builtin::I32),
            11 => Some(Builtin::I64),
            12 => Some(Builtin::IPtr),
            13 => Some(Builtin::F32),
            14 => Some(Builtin::F64),
            15 => Some(Builtin::String),
            16 => Some(Builtin::Entity),
            17 => Some(Builtin::Constant),
            18 => Some(Builtin::Quantity),
            _ => None,
        }
    }

    /// The kind of primitive that the name stands for, if it names a type.
    pub fn primitive_kind(&self) -> (kind: Option<EcsPrimitiveKind>)
        ensures
            kind == self.spec_primitive_kind(),
    {
        match self {
            Builtin::Bool => Some(EcsPrimitiveKind::Bool),
            Builtin::Char => Some(EcsPrimitiveKind::Char),
            Builtin::Byte => Some(EcsPrimitiveKind::Byte),
            Builtin::U8 => Some(EcsPrimitiveKind::U8),
            Builtin::U16 => Some(EcsPrimitiveKind::U16),
            Builtin::U32 => Some(EcsPrimitiveKind::U32),
            Builtin::U64 => Some(EcsPrimitiveKind::U64),
            Builtin::UPtr => Some(EcsPrimitiveKind::UPtr),
            Builtin::I8 => Some(EcsPrimitiveKind::I8),
            Builtin::I16 => Some(EcsPrimitiveKind::I16),
            Builtin::I32 => Some(EcsPrimitiveKind::I32),
            Builtin::I64 => Some(EcsPrimitiveKind::I64),
            Builtin::IPtr => Some(EcsPrimitiveKind::IPtr),
            Builtin::F32 => Some(EcsPrimitiveKind::F32),
            Builtin::F64 => Some(EcsPrimitiveKind::F64),
            Builtin::String => Some(EcsPrimitiveKind::String),
            Builtin::Entity => Some(EcsPrimitiveKind::Entity),
            Builtin::Constant => None,
            Builtin::Quantity => None,
        }
    }
}

/// Whether two texts are made of the same characters.
pub fn same_text(first: &str, second: &str) -> (same: bool)
    ensures
        same == (first@ == second@),
{
    let len = first.unicode_len();
    if second.unicode_len() != len {
        return false;
    }
    let mut index: usize = 0;
    while index < len
        invariant
            index <= len,
            len == first@.len(),
            len == second@.len(),
            forall|i: int| 0 <= i < index ==> first@[i] == second@[i],
        decreases len - index,
    {
        if first.get_char(index) != second.get_char(index) {
            return false;
        }
        index += 1;
    }
    assert(first@ =~= second@);
    true
}

/// Whether `ids` can fill the table: there is one identifier for each name,
/// and no identifier stands for two names.
pub open spec fn fills_table(ids: Seq<u64>) -> bool {
    ids.len() == BUILTIN_COUNT && ids.no_duplicates()
}

/// Whether no value occurs twice in `ids`.
pub fn has_no_duplicates(ids: &Vec<u64>) -> (distinct: bool)
    ensures
        distinct == ids@.no_duplicates(),
{
    let mut upper: usize = 0;
    while upper < ids.len()
        invariant
            upper <= ids.len(),
            forall|i: int, j: int| 0 <= i < j < upper ==> ids@[i] != ids@[j],
        decreases ids.len() - upper,
    {
        let mut lower: usize = 0;
        while lower < upper
            invariant
                lower <= upper < ids.len(),
                forall|i: int| 0 <= i < lower ==> ids@[i] != ids@[upper as int],
            decreases upper - lower,
        {
            if ids[lower] == ids[upper] {
                return false;
            }
            lower += 1;
        }
        upper += 1;
    }
    true
}

/// The identifiers of the built-in names, as the engine handed them out.
///
/// The table is filled once and read from then on: nothing changes it.
#[derive(Debug, PartialEq, Eq)]
pub struct BuiltinTable {
    ids: Vec<u64>,
}

impl View for BuiltinTable {
    type V = Seq<u64>;

    /// The identifiers, in the order of the names.
    closed spec fn view(&self) -> Seq<u64> {
        self.ids@
    }
}

impl BuiltinTable {
    #[verifier::type_invariant]
    pub(crate) open spec fn filled(self) -> bool {
        fills_table(self@)
    }

    /// The table of the identifiers `ids`, given in the order of the names.
    ///
    /// There has to be one identifier for each name, and no identifier may
    /// stand for two names.
    pub fn new(ids: Vec<u64>) -> (result: Option<BuiltinTable>)
        ensures
            result is Some <==> fills_table(ids@),
            result matches Some(table) ==> table@ == ids@,
    {
        if ids.len() == BUILTIN_COUNT && has_no_duplicates(&ids) {
            Some(BuiltinTable { ids })
        } else {
            None
        }
    }

    /// The identifier of `name`.
    pub fn id_of(&self, name: Builtin) -> (id: u64)
        ensures
            id == self@[name.spec_index()],
            fills_table(self@),
    {
        proof {
            use_type_invariant(self);
        }
        self.ids[name.index()]
    }

    /// The identifier of the name that is written `text`, if there is such a
    /// name.
    pub fn lookup(&self, text: &str) -> (result: Option<u64>)
        ensures
            match result {
                Some(id) => exists|name: Builtin|
                    name.spec_label() == text@ && id == self@[#[trigger] name.spec_index()],
                None => forall|name: Builtin| name.spec_label() != text@,
            },
    {
        match Builtin::from_label(text) {
            Some(name) => Some(self.id_of(name)),
            None => None,
        }
    }

    /// The name that `id` stands for, if it stands for one.
    pub fn name_of(&self, id: u64) -> (result: Option<Builtin>)
        ensures
            result is Some <==> self@.contains(id),
            result matches Some(name) ==> self@[name.spec_index()] == id,
    {
        proof {
            use_type_invariant(self);
        }
        let mut index: usize = 0;
        while index < BUILTIN_COUNT
            invariant
                index <= BUILTIN_COUNT,
                self.ids@.len() == BUILTIN_COUNT,
                forall|i: int| 0 <= i < index ==> self.ids@[i] != id,
            decreases BUILTIN_COUNT - index,
        {
            if self.ids[index] == id {
                return Builtin::from_index(index);
            }
            index += 1;
        }
        None
    }
}

} // verus!
