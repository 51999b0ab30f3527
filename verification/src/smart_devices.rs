//! The closed set of device kinds a room can hold.

pub mod outlet;
pub mod thermometer;
pub mod types;

pub use outlet::{Outlet, OutletDevice, OutletState};
pub use thermometer::{TemperatureSensor, Thermometer};
pub use types::{Celsius, Watt};

use vstd::prelude::*;
use vstd::string::StringExecFns;

use outlet::{outlet_info_str, OutletView};
use thermometer::{thermometer_info_str, ThermometerView};

verus! {

/// What a device is, by kind.
pub ghost enum DeviceView {
    Outlet(OutletView),
    Thermometer(ThermometerView),
    Empty,
}

/// The name a device reports; the empty sentinel reports a fixed
/// placeholder.
pub open spec fn device_name_str(v: DeviceView) -> Seq<char> {
    match v {
        DeviceView::Outlet(o) => o.name,
        DeviceView::Thermometer(t) => t.name,
        DeviceView::Empty => "No Device"@,
    }
}

/// The status line a device reports, by kind.
pub open spec fn device_info_str(v: DeviceView) -> Seq<char> {
    match v {
        DeviceView::Outlet(o) => outlet_info_str(o),
        DeviceView::Thermometer(t) => thermometer_info_str(t),
        DeviceView::Empty => "No device information available"@,
    }
}

/// A device: a switchable outlet, a thermometer, or the empty sentinel used
/// as a safe default on not-found paths and never stored in a registry.
#[derive(Debug, Clone, PartialEq)]
pub enum Device {
    OutletType(Outlet),
    ThermometerType(Thermometer),
    Empty,
}

impl View for Device {
    type V = DeviceView;

    open spec fn view(&self) -> DeviceView {
        match self {
            Device::OutletType(o) => DeviceView::Outlet(o@),
            Device::ThermometerType(t) => DeviceView::Thermometer(t@),
            Device::Empty => DeviceView::Empty,
        }
    }
}

impl From<Outlet> for Device {
    fn from(outlet: Outlet) -> (r: Self) {
        Device::OutletType(outlet)
    }
}

impl vstd::std_specs::convert::FromSpecImpl<Outlet> for Device {
    open spec fn obeys_from_spec() -> bool {
        true
    }

    open spec fn from_spec(outlet: Outlet) -> Device {
        Device::OutletType(outlet)
    }
}

impl From<Thermometer> for Device {
    fn from(thermometer: Thermometer) -> (r: Self) {
        Device::ThermometerType(thermometer)
    }
}

impl vstd::std_specs::convert::FromSpecImpl<Thermometer> for Device {
    open spec fn obeys_from_spec() -> bool {
        true
    }

    open spec fn from_spec(thermometer: Thermometer) -> Device {
        Device::ThermometerType(thermometer)
    }
}

impl Device {
    /// The device's own name, or the placeholder for the empty sentinel.
    pub fn name(&self) -> (r: String)
        ensures
            r@ == device_name_str(self@),
    {
        match self {
            Device::OutletType(outlet) => outlet.name(),
            Device::ThermometerType(thermometer) => thermometer.name(),
            Device::Empty => String::from_str("No Device"),
        }
    }

    /// The device's status line.
    pub fn info(&self) -> (r: String)
        ensures
            r@ == device_info_str(self@),
    {
        match self {
            Device::OutletType(outlet) => outlet.info(),
            Device::ThermometerType(thermometer) => thermometer.info(),
            Device::Empty => String::from_str("No device information available"),
        }
    }

    /// A device holding a new outlet.
    pub fn new_outlet(name: String, initial_state: OutletState, power_usage: Watt) -> (r: Self)
        ensures
            r@ == DeviceView::Outlet(
                OutletView { name: name@, state: initial_state, power: power_usage },
            ),
    {
        Device::OutletType(<Outlet as OutletDevice>::new(name, initial_state, power_usage))
    }

    /// A device holding a new thermometer.
    pub fn new_thermometer(name: String, initial_temperature: Celsius) -> (r: Self)
        ensures
            r@ == DeviceView::Thermometer(
                ThermometerView { name: name@, temperature: initial_temperature },
            ),
    {
        Device::ThermometerType(Thermometer::new(name, initial_temperature))
    }
}

} // verus!
