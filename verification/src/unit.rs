//! The description of a unit of measurement.

use vstd::prelude::*;

verus! {

/// How a unit is derived from the unit it is based on: `factor` raised to
/// the power `power`.
#[derive(Clone, Copy, Debug, PartialEq, Eq, Hash, Structural)]
pub struct UnitConversion {
    pub factor: i32,
    pub power: i32,
}

/// What a unit descriptor says, as plain values.
pub struct UnitView {
    pub symbol: Seq<char>,
    pub quantity: Option<u64>,
    pub conversion: Option<UnitConversion>,
}

/// The description of a unit of measurement.
#[derive(Debug, PartialEq, Eq)]
pub struct UnitDescriptor {
    /// The symbol that is shown behind a value.
    pub symbol: String,
    /// The quantity that the unit measures, named by its identifier.
    pub quantity: Option<u64>,
    /// How the unit is derived from the unit it is based on.
    pub conversion: Option<UnitConversion>,
}

impl View for UnitDescriptor {
    type V = UnitView;

    open spec fn view(&self) -> UnitView {
        UnitView { symbol: self.symbol@, quantity: self.quantity, conversion: self.conversion }
    }
}

impl Clone for UnitDescriptor {
    fn clone(&self) -> (copy: UnitDescriptor)
        ensures
            copy == *self,
    {
        UnitDescriptor {
            symbol: self.symbol.clone(),
            quantity: self.quantity,
            conversion: self.conversion,
        }
    }
}

} // verus!
