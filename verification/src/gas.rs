//! The meter from which the resources of an execution are paid.
use vstd::prelude::*;
use crate::types::{DispatchError, Error, Weight};

verus! {

/// Counts down the resources that an execution may still use.
#[derive(Debug, PartialEq, Eq)]
pub struct GasMeter {
    /// What the meter was filled with.
    pub gas_limit: Weight,
    /// What is left of it.
    pub gas_left: Weight,
}

/// The meter that starts with the given amount.
pub open spec fn full_meter(gas_limit: Weight) -> GasMeter {
    GasMeter { gas_limit, gas_left: gas_limit }
}

/// What a nested meter is filled with: zero asks for everything that is left.
pub open spec fn nested_amount(meter: GasMeter, amount: Weight) -> Weight {
    if amount == 0 {
        meter.gas_left
    } else {
        amount
    }
}

/// How a nested meter is filled from a meter: it fails, and takes nothing, where too little is
/// left.
pub open spec fn meter_nested(
    before: GasMeter,
    amount: Weight,
    after: GasMeter,
    outcome: Result<GasMeter, DispatchError>,
) -> bool {
    let taken = nested_amount(before, amount);
    if before.gas_left < taken {
        &&& outcome == Err::<GasMeter, DispatchError>(DispatchError::Module(Error::OutOfGas))
        &&& after == before
    } else {
        &&& outcome == Ok::<GasMeter, DispatchError>(full_meter(taken))
        &&& after == GasMeter { gas_left: (before.gas_left - taken) as u64, ..before }
    }
}

/// The meter after it has taken back what a nested meter did not use.
pub open spec fn absorbed(meter: GasMeter, nested: GasMeter) -> GasMeter {
    GasMeter {
        gas_left: if meter.gas_left + nested.gas_left > u64::MAX {
            u64::MAX
        } else {
            (meter.gas_left + nested.gas_left) as u64
        },
        ..meter
    }
}

impl Default for GasMeter {
    /// A meter that holds nothing.
    fn default() -> (meter: GasMeter)
        ensures
            meter == full_meter(0),
    {
        GasMeter { gas_limit: 0, gas_left: 0 }
    }
}

impl GasMeter {
    /// A meter that is filled with the given amount.
    pub fn new(gas_limit: Weight) -> (meter: GasMeter)
        ensures
            meter == full_meter(gas_limit),
    {
        GasMeter { gas_limit, gas_left: gas_limit }
    }

    /// Fills a nested meter from this one. Zero asks for everything that is left.
    ///
    /// This fails, and takes nothing, where less than the amount is left.
    pub fn nested(&mut self, amount: Weight) -> (nested: Result<GasMeter, DispatchError>)
        ensures
            meter_nested(*old(self), amount, *final(self), nested),
    {
        let amount: u64 = if amount == 0 {
            self.gas_left
        } else {
            amount
        };
        if self.gas_left < amount {
            Err(DispatchError::Module(Error::OutOfGas))
        } else {
            self.gas_left = self.gas_left - amount;
            Ok(GasMeter::new(amount))
        }
    }

    /// Takes back what a nested meter did not use.
    pub fn absorb_nested(&mut self, nested: GasMeter)
        ensures
            *final(self) == absorbed(*old(self), nested),
    {
        self.gas_left = self.gas_left.saturating_add(nested.gas_left);
    }
}

} // verus!
