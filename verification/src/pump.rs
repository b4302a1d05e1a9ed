//! Coolant pump: a digital output with a settle countdown after each on/off
//! command, and an override that forces it on.

use vstd::prelude::*;

verus! {

/// Single digital output pin.
pub trait Pin {
    /// The level last driven.
    spec fn level(&self) -> bool;

    /// Drive the output high (`true`) or low (`false`).
    fn set(&mut self, high: bool)
        ensures
            final(self).level() == high,
    ;
}

/// Ticks before water actually starts flowing (tube latency).
pub const SETTLE_ON_TICKS: u16 = 1000;

/// Ticks until water flow actually stops.
pub const SETTLE_OFF_TICKS: u16 = 100;

pub struct Pump<D: Pin> {
    pin_en: D,
    /// Last pump-on/off commanded state.
    commanded: bool,
    /// `fset ov.pump_en` override: while set, forces the pump on.
    override_on: bool,
    /// Ticks remaining until the most recent `set_enable` is settled.
    settle_ticks: u16,
}

impl<D: Pin> Pump<D> {
    pub closed spec fn commanded(&self) -> bool {
        self.commanded
    }

    pub closed spec fn override_on(&self) -> bool {
        self.override_on
    }

    pub closed spec fn settle_ticks(&self) -> u16 {
        self.settle_ticks
    }

    /// The level of the enable pin.
    pub closed spec fn pin_level(&self) -> bool {
        self.pin_en.level()
    }

    pub fn new(pin_en: D) -> (r: Self)
        ensures
            !r.commanded(),
            !r.override_on(),
            r.settle_ticks() == 0,
            r.pin_level() == pin_en.level(),
    {
        Pump { pin_en, commanded: false, override_on: false, settle_ticks: 0 }
    }

    /// Set the commanded state, arm the settle countdown, and drive the pin.
    pub fn set_enable(&mut self, enable: bool)
        ensures
            final(self).commanded() == enable,
            final(self).override_on() == old(self).override_on(),
            final(self).settle_ticks() == (if enable {
                SETTLE_ON_TICKS
            } else {
                SETTLE_OFF_TICKS
            }),
            final(self).pin_level() == (enable || old(self).override_on()),
    {
        self.commanded = enable;
        self.settle_ticks = if enable {
            SETTLE_ON_TICKS
        } else {
            SETTLE_OFF_TICKS
        };
        self.apply();
    }

    /// True when the most recent `set_enable` has finished settling.
    pub fn settled(&self) -> (r: bool)
        ensures
            r == (self.settle_ticks() == 0),
    {
        self.settle_ticks == 0
    }

    /// Count one tick of the settle countdown.
    pub fn tick(&mut self)
        ensures
            final(self).settle_ticks() == (if old(self).settle_ticks() > 0 {
                old(self).settle_ticks() - 1
            } else {
                0
            }),
            final(self).commanded() == old(self).commanded(),
            final(self).override_on() == old(self).override_on(),
            final(self).pin_level() == old(self).pin_level(),
    {
        self.settle_ticks = self.settle_ticks.saturating_sub(1);
    }

    /// Force the pump on (`true`) or hand control back to the commanded state
    /// (`false`); applied at once, with no settle delay.
    pub fn set_override(&mut self, on: bool)
        ensures
            final(self).override_on() == on,
            final(self).commanded() == old(self).commanded(),
            final(self).settle_ticks() == old(self).settle_ticks(),
            final(self).pin_level() == (old(self).commanded() || on),
    {
        self.override_on = on;
        self.apply();
    }

    /// Stop the pump and drop the override; applied at once, with no settle delay.
    pub fn cancel(&mut self)
        ensures
            !final(self).commanded(),
            !final(self).override_on(),
            final(self).settle_ticks() == 0,
            !final(self).pin_level(),
    {
        self.commanded = false;
        self.override_on = false;
        self.settle_ticks = 0;
        self.apply();
    }

    fn apply(&mut self)
        ensures
            final(self).commanded() == old(self).commanded(),
            final(self).override_on() == old(self).override_on(),
            final(self).settle_ticks() == old(self).settle_ticks(),
            final(self).pin_level() == (old(self).commanded() || old(self).override_on()),
    {
        let on = self.commanded || self.override_on;
        self.pin_en.set(on);
    }
}

} // verus!
