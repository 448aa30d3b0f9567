//! The snapshot that one successful poll produces.

use vstd::prelude::*;
use crate::decimal::{Dec, dec_wf};

verus! {

/// One snapshot of device state: power frequency in hertz, supply voltage
/// in volts (already corrected from the device's deci-volts), grid usage in
/// watts.  A new reading fully replaces the previous one.
#[derive(Clone, Copy, Debug, PartialEq, Eq, Structural)]
pub struct Reading {
    pub power_freq: Dec,
    pub supply_voltage: Dec,
    pub grid_usage: Dec,
}

/// All three values are well-formed decimals.
pub open spec fn reading_wf(r: Reading) -> bool {
    dec_wf(r.power_freq) && dec_wf(r.supply_voltage) && dec_wf(r.grid_usage)
}

} // verus!
