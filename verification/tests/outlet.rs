use smart_home::smart_devices::{Outlet, OutletDevice, OutletState};

#[test]
fn outlet_create_test() {
    let outlet = Outlet::new("Living Room Outlet".to_string(), OutletState::Off, 100);
    assert_eq!(outlet.power_usage(), 0);
    assert_eq!(outlet.state(), OutletState::Off);
    assert_eq!(outlet.name(), "Living Room Outlet");
    assert_eq!(
        outlet.info(),
        "Smart Outlet: Living Room Outlet - Current State: Off, Power Usage: 0 Watt"
    );
}

#[test]
fn outlet_switch_test() {
    let mut outlet = Outlet::new("Living Room Outlet".to_string(), OutletState::Off, 100);
    assert_eq!(outlet.power_usage(), 0);
    assert_eq!(outlet.state(), OutletState::Off);
    assert_eq!(outlet.name(), "Living Room Outlet");
    outlet.switch();
    assert_eq!(outlet.power_usage(), 100);
    assert_eq!(outlet.state(), OutletState::On);
    assert_eq!(
        outlet.info(),
        "Smart Outlet: Living Room Outlet - Current State: On, Power Usage: 100 Watt"
    );
}

#[test]
fn outlet_turn_on_off_test() {
    let mut outlet = Outlet::new("Living Room Outlet".to_string(), OutletState::Off, 100);
    assert_eq!(outlet.power_usage(), 0);
    assert_eq!(outlet.state(), OutletState::Off);
    assert_eq!(outlet.name(), "Living Room Outlet");
    outlet.turn_off();
    assert_eq!(outlet.power_usage(), 0);
    assert_eq!(outlet.state(), OutletState::Off);
    outlet.turn_on();
    assert_eq!(outlet.power_usage(), 100);
    assert_eq!(outlet.state(), OutletState::On);
    outlet.turn_off();
    assert_eq!(outlet.power_usage(), 0);
    assert_eq!(outlet.state(), OutletState::Off);
    assert_eq!(
        outlet.info(),
        "Smart Outlet: Living Room Outlet - Current State: Off, Power Usage: 0 Watt"
    );
}
