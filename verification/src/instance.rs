//! USB peripherals.

use vstd::prelude::*;
use crate::rcc::RccPeripheral;
use crate::types::Chip;

verus! {

/// A USB peripheral.
pub trait Instance: RccPeripheral {
    /// Interrupt of this peripheral.
    type Interrupt;

    /// The chip the peripheral is part of.
    const CHIP: Chip;
}

} // verus!
