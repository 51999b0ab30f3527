//! A switchable power outlet with a nominal power rating.

use vstd::prelude::*;
use vstd::string::StringExecFns;

use super::types::Watt;
use crate::text::{dec_str, u64_dec};

verus! {

/// The two positions of an outlet's switch.
#[derive(Debug, Clone, Copy, PartialEq, Eq, Structural)]
pub enum OutletState {
    On,
    Off,
}

/// The opposite switch position.
pub open spec fn switched(s: OutletState) -> OutletState {
    match s {
        OutletState::On => OutletState::Off,
        OutletState::Off => OutletState::On,
    }
}

/// What an outlet is: its name, switch position, and nominal rating.
pub ghost struct OutletView {
    pub name: Seq<char>,
    pub state: OutletState,
    pub power: Watt,
}

/// The power an outlet draws: its nominal rating while on, nothing while
/// off.  The draw is derived from the state, never stored.
pub open spec fn effective_power(v: OutletView) -> Watt {
    if v.state is On {
        v.power
    } else {
        0
    }
}

/// The same outlet with its switch moved to the given position: what every
/// state-transition operation does to the model.
pub open spec fn with_state(v: OutletView, s: OutletState) -> OutletView {
    OutletView { name: v.name, state: s, power: v.power }
}

/// Law: toggling the switch twice restores the original state, and with it
/// the original effective power draw.
pub proof fn lemma_switch_twice(v: OutletView)
    ensures
        with_state(
            with_state(v, switched(v.state)),
            switched(with_state(v, switched(v.state)).state),
        ) == v,
        effective_power(
            with_state(
                with_state(v, switched(v.state)),
                switched(with_state(v, switched(v.state)).state),
            ),
        ) == effective_power(v),
{
}

/// Law: turning an outlet on twice leaves exactly the state a single
/// turn-on leaves, with the switch in the on position.
pub proof fn lemma_turn_on_idempotent(v: OutletView)
    ensures
        with_state(with_state(v, OutletState::On), OutletState::On) == with_state(
            v,
            OutletState::On,
        ),
        with_state(v, OutletState::On).state is On,
{
}

/// The rendering of a switch position.
pub open spec fn state_str(s: OutletState) -> Seq<char> {
    match s {
        OutletState::On => "On"@,
        OutletState::Off => "Off"@,
    }
}

/// The status line an outlet reports.
pub open spec fn outlet_info_str(v: OutletView) -> Seq<char> {
    "Smart Outlet: "@ + v.name + " - Current State: "@ + state_str(v.state) + ", Power Usage: "@
        + dec_str(effective_power(v) as nat) + " Watt"@
}

/// A two-state switch with an associated nominal power draw.
pub trait OutletDevice: Sized {
    /// The name, switch position, and rating this device holds.
    spec fn model(&self) -> OutletView;

    /// A device with the given name, initial switch position, and rating.
    fn new(name: String, initial_state: OutletState, power_usage: Watt) -> (r: Self)
        ensures
            r.model() == (OutletView { name: name@, state: initial_state, power: power_usage }),
    ;

    /// Puts the switch in the on position, wherever it stood.
    fn turn_on(&mut self)
        ensures
            final(self).model() == with_state(old(self).model(), OutletState::On),
    ;

    /// Puts the switch in the off position, wherever it stood.
    fn turn_off(&mut self)
        ensures
            final(self).model() == with_state(old(self).model(), OutletState::Off),
    ;

    /// Toggles the switch.
    fn switch(&mut self)
        ensures
            final(self).model() == with_state(old(self).model(), switched(old(self).model().state)),
    ;

    /// The current switch position.
    fn state(&self) -> (r: OutletState)
        ensures
            r == self.model().state,
    ;

    /// The effective power draw: the nominal rating while on, zero while
    /// off.
    fn power_usage(&self) -> (r: Watt)
        ensures
            r == effective_power(self.model()),
    ;
}

/// A smart power outlet.
#[derive(Debug, Clone, PartialEq)]
pub struct Outlet {
    name: String,
    state: OutletState,
    power_usage: Watt,
}

impl View for Outlet {
    type V = OutletView;

    closed spec fn view(&self) -> OutletView {
        OutletView { name: self.name@, state: self.state, power: self.power_usage }
    }
}

impl Outlet {
    /// The outlet's own name.
    pub fn name(&self) -> (r: String)
        ensures
            r@ == self@.name,
    {
        self.name.clone()
    }

    /// The outlet's status line.
    pub fn info(&self) -> (r: String)
        ensures
            r@ == outlet_info_str(self@),
    {
        let usage = self.power_usage();
        let mut s = String::from_str("Smart Outlet: ");
        s.append(self.name.as_str());
        s.append(" - Current State: ");
        match self.state {
            OutletState::On => s.append("On"),
            OutletState::Off => s.append("Off"),
        }
        s.append(", Power Usage: ");
        s.append(u64_dec(usage).as_str());
        s.append(" Watt");
        s
    }
}

impl OutletDevice for Outlet {
    open spec fn model(&self) -> OutletView {
        self@
    }

    fn new(name: String, initial_state: OutletState, power_usage: Watt) -> (r: Self) {
        Outlet { name, state: initial_state, power_usage }
    }

    fn turn_on(&mut self) {
        self.state = OutletState::On;
    }

    fn turn_off(&mut self) {
        self.state = OutletState::Off;
    }

    fn switch(&mut self) {
        self.state = match self.state {
            OutletState::On => OutletState::Off,
            OutletState::Off => OutletState::On,
        };
    }

    fn state(&self) -> (r: OutletState) {
        self.state
    }

    fn power_usage(&self) -> (r: Watt) {
        match self.state {
            OutletState::On => self.power_usage,
            OutletState::Off => 0,
        }
    }
}

} // verus!
