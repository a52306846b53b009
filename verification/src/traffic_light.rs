//! A traffic light and how long each of its colours is shown.

use vstd::prelude::*;

verus! {

#[derive(Clone, Copy, Debug, PartialEq, Eq, Structural)]
pub enum TrafficLight {
    Red,
    Green,
    Yellow,
}

/// Something that is shown for a number of seconds.
pub trait LightTime {
    /// The number of seconds.
    spec fn duration(&self) -> u8;

    /// The number of seconds.
    fn time(&self) -> (seconds: u8)
        ensures
            seconds == self.duration(),
    ;
}

impl LightTime for TrafficLight {
    /// Red is shown for 30 seconds, green for 20, yellow for 2.
    open spec fn duration(&self) -> u8 {
        match self {
            TrafficLight::Red => 30,
            TrafficLight::Green => 20,
            TrafficLight::Yellow => 2,
        }
    }

    fn time(&self) -> (seconds: u8) {
        match self {
            TrafficLight::Red => 30,
            TrafficLight::Green => 20,
            TrafficLight::Yellow => 2,
        }
    }
}

} // verus!
