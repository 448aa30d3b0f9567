//! The metrics registry and the scrape text.
//!
//! Three gauges with fixed names and help texts, registered once and never
//! renamed.  `set_stats` is the sole writer; `render` serializes the current
//! values into the exposition text: for each gauge a `# HELP` line, a
//! `# TYPE` line and one sample line, in registration order.

use vstd::prelude::*;
use crate::decimal::{Dec, dec_wf, dec_chars, spec_udigits};
use crate::reading::{Reading, reading_wf};
use crate::text::{push_str, push_dec};

verus! {

/// The zero every gauge holds before the first successful poll.
pub open spec fn spec_dec_zero() -> Dec {
    Dec { neg: false, mant: 0, exp: 0 }
}

/// The three gauges.  Name and help text are fixed; only the values change.
#[derive(Clone, Copy, Debug, PartialEq, Eq, Structural)]
pub struct Registry {
    pub power_freq: Dec,
    pub supply_voltage: Dec,
    pub grid_usage: Dec,
}

/// Every gauge holds a well-formed decimal.
pub open spec fn registry_wf(reg: Registry) -> bool {
    dec_wf(reg.power_freq) && dec_wf(reg.supply_voltage) && dec_wf(reg.grid_usage)
}

/// The registry holds exactly the values of this reading.
pub open spec fn registry_holds(reg: Registry, r: Reading) -> bool {
    reg.power_freq == r.power_freq && reg.supply_voltage == r.supply_voltage && reg.grid_usage
        == r.grid_usage
}

/// The full exposition text for the current gauge values.
pub open spec fn spec_render(reg: Registry) -> Seq<char> {
    "# HELP power_freq The hz of power frequency\n# TYPE power_freq gauge\npower_freq "@
        + dec_chars(reg.power_freq)
        + "\n# HELP supply_voltage Current supply voltage\n# TYPE supply_voltage gauge\nsupply_voltage "@
        + dec_chars(reg.supply_voltage)
        + "\n# HELP grid_usage Current grid ussage in watts\n# TYPE grid_usage gauge\ngrid_usage "@
        + dec_chars(reg.grid_usage) + "\n"@
}

impl Registry {
    /// A fresh registry: every gauge at zero.
    pub fn new() -> (reg: Registry)
        ensures
            reg.power_freq == spec_dec_zero(),
            reg.supply_voltage == spec_dec_zero(),
            reg.grid_usage == spec_dec_zero(),
            registry_wf(reg),
    {
        Registry {
            power_freq: Dec { neg: false, mant: 0, exp: 0 },
            supply_voltage: Dec { neg: false, mant: 0, exp: 0 },
            grid_usage: Dec { neg: false, mant: 0, exp: 0 },
        }
    }

    /// Overwrites all three gauges with the values of one reading.
    pub fn set(&mut self, r: &Reading)
        requires
            reading_wf(*r),
        ensures
            registry_holds(*final(self), *r),
            registry_wf(*final(self)),
    {
        self.power_freq = r.power_freq;
        self.supply_voltage = r.supply_voltage;
        self.grid_usage = r.grid_usage;
    }

    /// Serializes the gauges into the exposition text.
    pub fn render(&self) -> (s: String)
        requires
            registry_wf(*self),
        ensures
            s@ == spec_render(*self),
    {
        let mut s = String::new();
        push_str(&mut s, "# HELP power_freq The hz of power frequency\n# TYPE power_freq gauge\npower_freq ");
        push_dec(&mut s, &self.power_freq);
        push_str(&mut s, "\n# HELP supply_voltage Current supply voltage\n# TYPE supply_voltage gauge\nsupply_voltage ");
        push_dec(&mut s, &self.supply_voltage);
        push_str(&mut s, "\n# HELP grid_usage Current grid ussage in watts\n# TYPE grid_usage gauge\ngrid_usage ");
        push_dec(&mut s, &self.grid_usage);
        push_str(&mut s, "\n");
        proof {
            assert(s@ =~= spec_render(*self));
        }
        s
    }
}

/// Applies one poll outcome: a reading overwrites every gauge, a failure
/// leaves the registry exactly as it was.
pub fn set_stats(registry: &mut Registry, zappi_response: Option<Reading>)
    requires
        zappi_response matches Some(r) ==> reading_wf(r),
    ensures
        zappi_response matches Some(r) ==> registry_holds(*final(registry), r) && registry_wf(
            *final(registry),
        ),
        zappi_response is None ==> *final(registry) == *old(registry),
{
    if let Some(zappi) = zappi_response {
        registry.set(&zappi);
    }
}

/// After any successful poll the scrape text is exactly the three gauge
/// blocks in registration order, each with one sample line showing the
/// numeral of the reading just applied — no other sample lines exist.
pub proof fn lemma_scrape_shows_reading(reg: Registry, r: Reading)
    requires
        registry_holds(reg, r),
    ensures
        spec_render(reg) == "# HELP power_freq The hz of power frequency\n# TYPE power_freq gauge\npower_freq "@
            + dec_chars(r.power_freq)
            + "\n# HELP supply_voltage Current supply voltage\n# TYPE supply_voltage gauge\nsupply_voltage "@
            + dec_chars(r.supply_voltage)
            + "\n# HELP grid_usage Current grid ussage in watts\n# TYPE grid_usage gauge\ngrid_usage "@
            + dec_chars(r.grid_usage) + "\n"@,
{
}

/// Before any successful poll every gauge renders as the single digit zero:
/// the first scrape is valid exposition text, not an error.
pub proof fn lemma_initial_scrape_zeros(reg: Registry)
    requires
        reg.power_freq == spec_dec_zero(),
        reg.supply_voltage == spec_dec_zero(),
        reg.grid_usage == spec_dec_zero(),
    ensures
        dec_chars(spec_dec_zero()) == seq!['0'],
        spec_render(reg) == "# HELP power_freq The hz of power frequency\n# TYPE power_freq gauge\npower_freq "@
            + seq!['0']
            + "\n# HELP supply_voltage Current supply voltage\n# TYPE supply_voltage gauge\nsupply_voltage "@
            + seq!['0']
            + "\n# HELP grid_usage Current grid ussage in watts\n# TYPE grid_usage gauge\ngrid_usage "@
            + seq!['0'] + "\n"@,
{
    assert(spec_udigits(0) == seq![
        '0',
    ]) by {
        reveal_with_fuel(spec_udigits, 2);
    }
    assert(dec_chars(spec_dec_zero()) =~= seq!['0']);
}

} // verus!
