//! The descriptions of enums and bitmasks: named constants, one after the
//! other.

use vstd::arithmetic::power2::pow2;
use vstd::prelude::*;
use vstd::relations::injective_on;
use vstd::set_lib::{lemma_int_range, lemma_len_subset, lemma_map_size, set_int_range};
use crate::bitmask::{
    has_bit, is_single_bit, lemma_bits_of_single_bit, lemma_bits_of_union, lemma_bits_within,
    lemma_single_bit_is_shift, EcsBitmask,
};
use crate::error::MetaError;

verus! {

/// What a named constant says, as plain values.
pub struct ConstantView {
    pub name: Seq<char>,
    pub value: int,
}

/// Whether one of `constants` has the value `value`.
pub open spec fn has_value(constants: Seq<ConstantView>, value: int) -> bool {
    exists|i: int| 0 <= i < constants.len() && (#[trigger] constants[i]).value == value
}

/// Whether the constant at `index` is the first of `constants` that has the
/// value `value`.
pub open spec fn is_first_with_value(constants: Seq<ConstantView>, index: int, value: int) -> bool {
    &&& 0 <= index < constants.len()
    &&& constants[index].value == value
    &&& forall|i: int| 0 <= i < index ==> (#[trigger] constants[i]).value != value
}

/// Whether no two of `constants` have the same value.
pub open spec fn distinct_values(constants: Seq<ConstantView>) -> bool {
    forall|i: int, j: int|
        0 <= i < j < constants.len() ==> (#[trigger] constants[i]).value != (
        #[trigger] constants[j]).value
}

/// Whether `constants` can be the flags of a bitmask: each is a single set
/// bit, and no two are the same bit.
pub open spec fn valid_flags(constants: Seq<ConstantView>) -> bool {
    &&& distinct_values(constants)
    &&& forall|i: int| 0 <= i < constants.len() ==> is_single_bit((#[trigger] constants[i]).value)
}

/// Whether every bit that is set in `mask` is one of `flags`.
pub open spec fn flags_cover(flags: Seq<ConstantView>, mask: u32) -> bool {
    forall|bit: u32|
        bit < 32 && #[trigger] has_bit(mask, bit) ==> has_value(flags, pow2(bit as nat) as int)
}

/// Among the first constants and one more, a value is found where it is found
/// among the first or is the value of the one more.
pub proof fn lemma_has_value_in_one_more(constants: Seq<ConstantView>, count: int, value: int)
    requires
        0 <= count < constants.len(),
    ensures
        has_value(constants.take(count + 1), value) <==> has_value(constants.take(count), value)
            || constants[count].value == value,
{
    let fewer = constants.take(count);
    let more = constants.take(count + 1);
    if has_value(more, value) {
        let at = choose|i: int| 0 <= i < more.len() && (#[trigger] more[i]).value == value;
        if at < count {
            assert(fewer[at].value == value);
        }
    }
    if has_value(fewer, value) {
        let at = choose|i: int| 0 <= i < fewer.len() && (#[trigger] fewer[i]).value == value;
        assert(more[at].value == value);
    }
    if constants[count].value == value {
        assert(more[count].value == value);
    }
}

/// A value that none of the constants has yet keeps their values distinct.
pub proof fn lemma_new_value_keeps_distinct(constants: Seq<ConstantView>, constant: ConstantView)
    requires
        distinct_values(constants),
        !has_value(constants, constant.value),
    ensures
        distinct_values(constants.push(constant)),
{
    let grown = constants.push(constant);
    assert forall|i: int, j: int| 0 <= i < j < grown.len() implies (#[trigger] grown[i]).value != (
    #[trigger] grown[j]).value by {
        if j < constants.len() {
            assert(constants[i].value != constants[j].value);
        } else {
            assert(constants[i].value != constant.value);
        }
    }
}

/// A single set bit that none of the flags names yet can join them.
pub proof fn lemma_new_flag_keeps_valid(flags: Seq<ConstantView>, flag: ConstantView)
    requires
        valid_flags(flags),
        is_single_bit(flag.value),
        !has_value(flags, flag.value),
    ensures
        valid_flags(flags.push(flag)),
{
    lemma_new_value_keeps_distinct(flags, flag);
    let grown = flags.push(flag);
    assert forall|i: int| 0 <= i < grown.len() implies is_single_bit(
        (#[trigger] grown[i]).value,
    ) by {
        if i < flags.len() {
            assert(is_single_bit(flags[i].value));
        }
    }
}

/// The bit that the flag at `index` names.
pub open spec fn bit_of_flag(flags: Seq<ConstantView>, index: int) -> nat {
    choose|bit: nat| bit < 32 && flags[index].value == pow2(bit)
}

/// A bitmask has no more flags than a word has bits.
pub proof fn lemma_flags_fit_the_word(flags: Seq<ConstantView>)
    requires
        valid_flags(flags),
    ensures
        flags.len() <= 32,
{
    let places = set_int_range(0, flags.len() as int);
    let bit_at = |index: int| bit_of_flag(flags, index) as int;
    let bits = places.map(bit_at);
    lemma_int_range(0, flags.len() as int);
    lemma_int_range(0, 32);
    assert forall|i: int| places.contains(i) implies 0 <= #[trigger] bit_at(i) < 32
        && flags[i].value == pow2(bit_at(i) as nat) by {
        assert(is_single_bit(flags[i].value));
    }
    assert(injective_on(bit_at, places)) by {
        assert forall|i: int, j: int|
            places.contains(i) && places.contains(j) && #[trigger] bit_at(i) == #[trigger] bit_at(
                j,
            ) implies i == j by {
            assert(flags[i].value == flags[j].value);
            if i < j {
                assert(flags[i].value != flags[j].value);
            }
            if j < i {
                assert(flags[j].value != flags[i].value);
            }
        }
    }
    lemma_map_size(places, bits, bit_at);
    assert(bits.subset_of(set_int_range(0, 32))) by {
        assert forall|bit: int| bits.contains(bit) implies set_int_range(0, 32).contains(bit) by {
            let index = choose|index: int| places.contains(index) && bit_at(index) == bit;
            assert(0 <= bit_at(index) < 32);
        }
    }
    lemma_len_subset(bits, set_int_range(0, 32));
}

/// One named constant of an enum.
#[derive(Debug, PartialEq, Eq)]
pub struct EnumConstant {
    /// The constant's name.
    pub name: String,
    /// The constant's value.
    pub value: i64,
}

impl View for EnumConstant {
    type V = ConstantView;

    open spec fn view(&self) -> ConstantView {
        ConstantView { name: self.name@, value: self.value as int }
    }
}

impl Clone for EnumConstant {
    fn clone(&self) -> (copy: EnumConstant)
        ensures
            copy == *self,
    {
        EnumConstant { name: self.name.clone(), value: self.value }
    }
}

/// The views of a sequence of enum constants, in the same order.
pub open spec fn enum_constant_views(constants: Seq<EnumConstant>) -> Seq<ConstantView> {
    Seq::new(constants.len(), |i: int| constants[i]@)
}

/// The description of an enum: its constants, in the order of their
/// declaration.
///
/// Two constants may have one value, unless the caller asks otherwise when it
/// adds them.
#[derive(Debug, PartialEq, Eq)]
pub struct EnumDescriptor {
    constants: Vec<EnumConstant>,
}

impl View for EnumDescriptor {
    type V = Seq<ConstantView>;

    closed spec fn view(&self) -> Seq<ConstantView> {
        enum_constant_views(self.constants@)
    }
}

impl Default for EnumDescriptor {
    fn default() -> (descriptor: EnumDescriptor)
        ensures
            descriptor@ == Seq::<ConstantView>::empty(),
    {
        EnumDescriptor::new()
    }
}

impl Clone for EnumDescriptor {
    fn clone(&self) -> (copy: EnumDescriptor)
        ensures
            copy@ == self@,
    {
        let constants = self.constants.clone();
        assert(enum_constant_views(constants@) == self@);
        EnumDescriptor { constants }
    }
}

impl EnumDescriptor {
    /// The description of an enum without constants.
    pub fn new() -> (descriptor: EnumDescriptor)
        ensures
            descriptor@ == Seq::<ConstantView>::empty(),
    {
        EnumDescriptor { constants: Vec::new() }
    }

    /// The place of the first constant that has the value `value`, counted
    /// from 0, if there is such a constant.
    pub fn position_of(&self, value: i64) -> (result: Option<usize>)
        ensures
            match result {
                Some(index) => is_first_with_value(self@, index as int, value as int),
                None => !has_value(self@, value as int),
            },
    {
        let mut index: usize = 0;
        while index < self.constants.len()
            invariant
                index <= self.constants.len(),
                forall|i: int| 0 <= i < index ==> (#[trigger] self@[i]).value != value,
            decreases self.constants.len() - index,
        {
            if self.constants[index].value == value {
                assert(self@[index as int].value == value);
                return Some(index);
            }
            index += 1;
        }
        None
    }

    /// Whether one of the constants has the value `value`.
    pub fn contains_value(&self, value: i64) -> (found: bool)
        ensures
            found == has_value(self@, value as int),
    {
        self.position_of(value).is_some()
    }

    /// Reads a raw value as a constant of the enum: the first one that has
    /// this value.
    ///
    /// A value that no constant has is refused; it is never read as a
    /// constant with another value.
    pub fn constant_for(&self, value: i64) -> (result: Result<&EnumConstant, MetaError>)
        ensures
            result is Ok <==> has_value(self@, value as int),
            result matches Ok(constant) ==> exists|index: int|
                is_first_with_value(self@, index, value as int) && constant@ == #[trigger] self@[index],
            result matches Err(error) ==> error == MetaError::InvalidConstant,
    {
        match self.position_of(value) {
            Some(index) => Ok(&self.constants[index]),
            None => Err(MetaError::InvalidConstant),
        }
    }

    /// Whether no two constants have the same value.
    pub fn has_distinct_values(&self) -> (distinct: bool)
        ensures
            distinct == distinct_values(self@),
    {
        let mut upper: usize = 0;
        while upper < self.constants.len()
            invariant
                upper <= self.constants.len(),
                distinct_values(self@.take(upper as int)),
            decreases self.constants.len() - upper,
        {
            let mut lower: usize = 0;
            while lower < upper
                invariant
                    lower <= upper < self.constants.len(),
                    forall|i: int|
                        0 <= i < lower ==> (#[trigger] self@[i]).value != self@[upper as int].value,
                decreases upper - lower,
            {
                if self.constants[lower].value == self.constants[upper].value {
                    assert(self@[lower as int].value == self@[upper as int].value);
                    return false;
                }
                lower += 1;
            }
            assert forall|i: int, j: int| 0 <= i < j < upper + 1 implies (#[trigger] self@.take(
                upper + 1,
            )[i]).value != (#[trigger] self@.take(upper + 1)[j]).value by {
                if j < upper {
                    assert(self@.take(upper as int)[i].value != self@.take(upper as int)[j].value);
                }
            }
            upper += 1;
        }
        assert(self@.take(upper as int) == self@);
        true
    }

    /// Adds a constant behind those that are there.
    ///
    /// With `distinct` set, a value that one of the constants already has is
    /// refused; without it every constant is taken.
    pub fn add_constant(&mut self, name: String, value: i64, distinct: bool) -> (result: Result<
        (),
        MetaError,
    >)
        ensures
            result is Err <==> distinct && has_value(old(self)@, value as int),
            result is Ok ==> final(self)@ == old(self)@.push(
                ConstantView { name: name@, value: value as int },
            ),
            result matches Err(error) ==> error == MetaError::InvalidConstant && final(self)@
                == old(self)@,
    {
        if distinct && self.contains_value(value) {
            return Err(MetaError::InvalidConstant);
        }
        self.constants.push(EnumConstant { name, value });
        Ok(())
    }

    /// The number of constants.
    pub fn len(&self) -> (len: usize)
        ensures
            len == self@.len(),
    {
        self.constants.len()
    }

    /// The constant at `index`, counted from 0, if there is one.
    pub fn constant(&self, index: usize) -> (result: Option<&EnumConstant>)
        ensures
            result is Some <==> index < self@.len(),
            result matches Some(constant) ==> constant@ == self@[index as int],
    {
        if index < self.constants.len() {
            Some(&self.constants[index])
        } else {
            None
        }
    }

    /// The constants, in the order of their declaration.
    pub fn constants(&self) -> (constants: &Vec<EnumConstant>)
        ensures
            enum_constant_views(constants@) == self@,
    {
        &self.constants
    }
}

/// One named flag of a bitmask.
#[derive(Debug, PartialEq, Eq)]
pub struct BitmaskConstant {
    /// The flag's name.
    pub name: String,
    /// The flag's bit.
    pub value: EcsBitmask,
}

impl View for BitmaskConstant {
    type V = ConstantView;

    open spec fn view(&self) -> ConstantView {
        ConstantView { name: self.name@, value: self.value@ as int }
    }
}

impl Clone for BitmaskConstant {
    fn clone(&self) -> (copy: BitmaskConstant)
        ensures
            copy == *self,
    {
        BitmaskConstant { name: self.name.clone(), value: self.value }
    }
}

/// The views of a sequence of flags, in the same order.
pub open spec fn bitmask_constant_views(constants: Seq<BitmaskConstant>) -> Seq<ConstantView> {
    Seq::new(constants.len(), |i: int| constants[i]@)
}

/// The description of a bitmask: its flags, in the order of their
/// declaration.
///
/// Every flag is a single set bit, and no bit is named twice.
#[derive(Debug, PartialEq, Eq)]
pub struct BitmaskDescriptor {
    constants: Vec<BitmaskConstant>,
}

impl View for BitmaskDescriptor {
    type V = Seq<ConstantView>;

    closed spec fn view(&self) -> Seq<ConstantView> {
        bitmask_constant_views(self.constants@)
    }
}

impl Default for BitmaskDescriptor {
    fn default() -> (descriptor: BitmaskDescriptor)
        ensures
            descriptor@ == Seq::<ConstantView>::empty(),
    {
        BitmaskDescriptor::new()
    }
}

impl Clone for BitmaskDescriptor {
    fn clone(&self) -> (copy: BitmaskDescriptor)
        ensures
            copy@ == self@,
    {
        proof {
            use_type_invariant(self);
        }
        let constants = self.constants.clone();
        assert(bitmask_constant_views(constants@) == self@);
        BitmaskDescriptor { constants }
    }
}

impl BitmaskDescriptor {
    #[verifier::type_invariant]
    pub(crate) open spec fn flags_are_valid(self) -> bool {
        valid_flags(self@)
    }

    /// The description of a bitmask without flags.
    pub fn new() -> (descriptor: BitmaskDescriptor)
        ensures
            descriptor@ == Seq::<ConstantView>::empty(),
    {
        BitmaskDescriptor { constants: Vec::new() }
    }

    /// The place of the flag that is the word `value`, counted from 0, if
    /// there is such a flag.
    pub fn position_of(&self, value: u32) -> (result: Option<usize>)
        ensures
            match result {
                Some(index) => is_first_with_value(self@, index as int, value as int),
                None => !has_value(self@, value as int),
            },
    {
        let mut index: usize = 0;
        while index < self.constants.len()
            invariant
                index <= self.constants.len(),
                forall|i: int| 0 <= i < index ==> (#[trigger] self@[i]).value != value,
            decreases self.constants.len() - index,
        {
            if self.constants[index].value.value() == value {
                assert(self@[index as int].value == value);
                return Some(index);
            }
            index += 1;
        }
        None
    }

    /// Whether one of the flags is the word `value`.
    pub fn contains_value(&self, value: u32) -> (found: bool)
        ensures
            found == has_value(self@, value as int),
    {
        self.position_of(value).is_some()
    }

    /// Reads a raw word as a flag of the bitmask.
    ///
    /// A word that is none of the flags is refused.
    pub fn constant_for(&self, value: u32) -> (result: Result<&BitmaskConstant, MetaError>)
        ensures
            result is Ok <==> has_value(self@, value as int),
            result matches Ok(constant) ==> exists|index: int|
                is_first_with_value(self@, index, value as int) && constant@ == #[trigger] self@[index],
            result matches Err(error) ==> error == MetaError::InvalidConstant,
    {
        match self.position_of(value) {
            Some(index) => Ok(&self.constants[index]),
            None => Err(MetaError::InvalidConstant),
        }
    }

    /// The word in which the bits of all flags are set, and no others.
    pub fn all_flags(&self) -> (all: u32)
        ensures
            forall|bit: u32|
                bit < 32 ==> (#[trigger] has_bit(all, bit) <==> has_value(
                    self@,
                    pow2(bit as nat) as int,
                )),
    {
        let mut all: u32 = 0;
        let mut index: usize = 0;
        assert forall|bit: u32| bit < 32 implies !#[trigger] has_bit(0u32, bit) by {
            assert(!has_bit(0u32, bit)) by (bit_vector);
        }
        while index < self.constants.len()
            invariant
                index <= self.constants.len(),
                forall|bit: u32|
                    bit < 32 ==> (#[trigger] has_bit(all, bit) <==> has_value(
                        self@.take(index as int),
                        pow2(bit as nat) as int,
                    )),
            decreases self.constants.len() - index,
        {
            let flag = self.constants[index].value.value();
            proof {
                let shift = lemma_single_bit_is_shift(flag);
                assert forall|bit: u32| bit < 32 implies (#[trigger] has_bit(all | flag, bit)
                    <==> has_value(self@.take(index + 1), pow2(bit as nat) as int)) by {
                    lemma_bits_of_union(all, flag, bit);
                    lemma_bits_of_single_bit(shift, bit);
                    lemma_has_value_in_one_more(self@, index as int, pow2(bit as nat) as int);
                    assert(has_bit(all, bit) <==> has_value(
                        self@.take(index as int),
                        pow2(bit as nat) as int,
                    ));
                }
            }
            all = all | flag;
            index += 1;
        }
        assert(self@.take(index as int) == self@);
        all
    }

    /// Checks a raw word against the flags: every bit that is set in it has
    /// to be one of them.
    ///
    /// A word with another bit is refused.
    pub fn check_mask(&self, mask: u32) -> (result: Result<(), MetaError>)
        ensures
            result is Ok <==> flags_cover(self@, mask),
            result matches Err(error) ==> error == MetaError::InvalidConstant,
    {
        let all = self.all_flags();
        proof {
            lemma_bits_within(mask, all);
        }
        if mask & !all == 0 {
            Ok(())
        } else {
            Err(MetaError::InvalidConstant)
        }
    }

    /// Adds a flag behind those that are there.
    ///
    /// A word that is not a single set bit is refused, and so is a bit that
    /// one of the flags already names.
    pub fn add_constant(&mut self, name: String, value: u32) -> (result: Result<(), MetaError>)
        ensures
            result is Ok <==> is_single_bit(value as int) && !has_value(old(self)@, value as int),
            result is Ok ==> final(self)@ == old(self)@.push(
                ConstantView { name: name@, value: value as int },
            ),
            result matches Err(error) ==> error == MetaError::InvalidConstant && final(self)@
                == old(self)@,
    {
        proof {
            use_type_invariant(&*self);
        }
        let flag = match EcsBitmask::new(value) {
            Ok(flag) => flag,
            Err(error) => {
                return Err(error);
            },
        };
        if self.contains_value(value) {
            return Err(MetaError::InvalidConstant);
        }
        let mut constants: Vec<BitmaskConstant> = Vec::new();
        std::mem::swap(&mut self.constants, &mut constants);
        constants.push(BitmaskConstant { name, value: flag });
        proof {
            let flag = ConstantView { name: name@, value: value as int };
            assert(bitmask_constant_views(constants@) == old(self)@.push(flag));
            lemma_new_flag_keeps_valid(old(self)@, flag);
        }
        self.constants = constants;
        Ok(())
    }

    /// The number of flags. There are never more than a word has bits.
    pub fn len(&self) -> (len: usize)
        ensures
            len == self@.len(),
            len <= 32,
            valid_flags(self@),
    {
        proof {
            use_type_invariant(self);
            lemma_flags_fit_the_word(self@);
        }
        self.constants.len()
    }

    /// The flag at `index`, counted from 0, if there is one.
    pub fn constant(&self, index: usize) -> (result: Option<&BitmaskConstant>)
        ensures
            result is Some <==> index < self@.len(),
            result matches Some(constant) ==> constant@ == self@[index as int],
    {
        if index < self.constants.len() {
            Some(&self.constants[index])
        } else {
            None
        }
    }

    /// The flags, in the order of their declaration.
    pub fn constants(&self) -> (constants: &Vec<BitmaskConstant>)
        ensures
            bitmask_constant_views(constants@) == self@,
            valid_flags(self@),
    {
        proof {
            use_type_invariant(self);
        }
        &self.constants
    }
}

} // verus!
