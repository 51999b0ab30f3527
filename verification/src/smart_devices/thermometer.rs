//! A read-only thermometer with a fixed temperature reading.

use vstd::prelude::*;
use vstd::string::StringExecFns;

use super::types::Celsius;
use crate::text::{dec_str, two_digit_str, u64_dec, u64_two_digits};

verus! {

/// The rendering of a temperature: an optional sign, the whole degrees, and
/// exactly two decimal places.
pub open spec fn celsius_str(c: Celsius) -> Seq<char> {
    let mag = if c.centidegrees >= 0 {
        c.centidegrees as int
    } else {
        -(c.centidegrees as int)
    };
    let sign: Seq<char> = if c.centidegrees < 0 {
        "-"@
    } else {
        Seq::empty()
    };
    sign + dec_str((mag / 100) as nat) + "."@ + two_digit_str((mag % 100) as nat)
}

/// Renders a temperature with exactly two decimal places.
fn celsius_text(c: Celsius) -> (r: String)
    ensures
        r@ == celsius_str(c),
{
    let wide: i128 = c.centidegrees as i128;
    let mag: u64 = if wide < 0 {
        (-wide) as u64
    } else {
        wide as u64
    };
    let mut s = if c.centidegrees < 0 {
        String::from_str("-")
    } else {
        String::new()
    };
    s.append(u64_dec(mag / 100).as_str());
    s.append(".");
    s.append(u64_two_digits(mag % 100).as_str());
    s
}

/// What a thermometer is: its name and its reading.
pub ghost struct ThermometerView {
    pub name: Seq<char>,
    pub temperature: Celsius,
}

/// The status line a thermometer reports.
pub open spec fn thermometer_info_str(v: ThermometerView) -> Seq<char> {
    "Thermometer: "@ + v.name + " - Current Temperature: "@ + celsius_str(v.temperature) + "°C"@
}

/// A sensor that reports a temperature.
pub trait TemperatureSensor: Sized {
    /// The reading this sensor holds.
    spec fn sensed(&self) -> Celsius;

    /// The current temperature reading.
    fn current_temperature(&self) -> (r: Celsius)
        ensures
            r == self.sensed(),
    ;
}

/// A thermometer; its reading is fixed at construction.
#[derive(Debug, Clone, PartialEq)]
pub struct Thermometer {
    name: String,
    temperature: Celsius,
}

impl View for Thermometer {
    type V = ThermometerView;

    closed spec fn view(&self) -> ThermometerView {
        ThermometerView { name: self.name@, temperature: self.temperature }
    }
}

impl Thermometer {
    /// A thermometer with the given name and reading.
    pub fn new(name: String, initial_temperature: Celsius) -> (r: Self)
        ensures
            r@ == (ThermometerView { name: name@, temperature: initial_temperature }),
    {
        Thermometer { name, temperature: initial_temperature }
    }

    /// The thermometer's own name.
    pub fn name(&self) -> (r: String)
        ensures
            r@ == self@.name,
    {
        self.name.clone()
    }

    /// The thermometer's status line.
    pub fn info(&self) -> (r: String)
        ensures
            r@ == thermometer_info_str(self@),
    {
        let mut s = String::from_str("Thermometer: ");
        s.append(self.name.as_str());
        s.append(" - Current Temperature: ");
        s.append(celsius_text(self.temperature).as_str());
        s.append("°C");
        s
    }
}

impl TemperatureSensor for Thermometer {
    open spec fn sensed(&self) -> Celsius {
        self@.temperature
    }

    fn current_temperature(&self) -> (r: Celsius) {
        self.temperature
    }
}

} // verus!
