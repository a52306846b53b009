use runtime_modules::traffic_light::{LightTime, TrafficLight};

#[test]
fn green_light_keeps_twenty_seconds() {
    assert_eq!(TrafficLight::Green.time(), 20);
}

#[test]
fn red_light_keeps_thirty_seconds() {
    assert_eq!(TrafficLight::Red.time(), 30);
}

#[test]
fn yellow_light_keeps_two_seconds() {
    assert_eq!(TrafficLight::Yellow.time(), 2);
}
