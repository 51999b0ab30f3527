use smart_home::smart_devices::{Celsius, Device, OutletDevice, OutletState, Watt};
use smart_home::smart_room::{AccessDevice, SmartRoom};

#[test]
fn smart_room_create_empty_test() {
    let room = SmartRoom::new("Living Room".to_string(), Vec::new());
    assert_eq!(room.name(), "Living Room");
    assert_eq!(room.device_count(), 0);
}

#[test]
fn smart_room_view_index_out_of_bounds_test() {
    let room = SmartRoom::new("Living Room".to_string(), Vec::new());
    assert_eq!(room.name(), "Living Room");
    assert_eq!(room.device_count(), 0);
    assert_eq!(room.view_device("Some device"), None);
}

#[test]
fn smart_room_get_index_out_of_bounds_test() {
    let mut room = SmartRoom::new("Living Room".to_string(), Vec::new());
    assert_eq!(room.name(), "Living Room");
    assert_eq!(room.device_count(), 0);
    assert_eq!(room.get_device("Some device"), None);
}

#[test]
fn smart_room_macro_create_test() {
    {
        let room = SmartRoom::new(
            "Living Room".to_string(),
            vec![
                (
                    "Lighter".to_string(),
                    Device::new_outlet("Lighter".to_string(), OutletState::On, 100 as Watt),
                ),
                (
                    "PC".to_string(),
                    Device::new_outlet("PC".to_string(), OutletState::On, 250 as Watt),
                ),
                (
                    "Electronic thermometer".to_string(),
                    Device::new_thermometer(
                        "Electronic thermometer".to_string(),
                        Celsius::from_centidegrees(2250),
                    ),
                ),
            ],
        );
        assert_eq!(room.name(), "Living Room");
        assert_eq!(room.device_count(), 3);
    }
    {
        let room = SmartRoom::new("Kitchen".to_string(), Vec::new());
        assert_eq!(room.name(), "Kitchen");
        assert_eq!(room.device_count(), 0);
    }
}

#[test]
fn smart_room_view_test() {
    let default_device = Device::Empty;
    let room = SmartRoom::new(
        "Living Room".to_string(),
        vec![
            (
                "Lighter".to_string(),
                Device::new_outlet("Lighter".to_string(), OutletState::On, 100 as Watt),
            ),
            (
                "PC".to_string(),
                Device::new_outlet("PC".to_string(), OutletState::On, 250 as Watt),
            ),
            (
                "Electronic thermometer".to_string(),
                Device::new_thermometer(
                    "Electronic thermometer".to_string(),
                    Celsius::from_centidegrees(2250),
                ),
            ),
        ],
    );

    assert_eq!(room.device_count(), 3);
    assert_eq!(room.view_device("Some device"), None);
    assert_eq!(room.view_device("Lighter").is_some(), true);
    assert_eq!(
        room.view_device("Lighter").unwrap_or(&default_device).name(),
        "Lighter"
    );
    assert_eq!(
        room.view_device("Lighter").unwrap_or(&default_device).info(),
        "Smart Outlet: Lighter - Current State: On, Power Usage: 100 Watt"
    );
    assert_eq!(room.view_device("PC").is_some(), true);
    assert_eq!(room.view_device("PC").unwrap_or(&default_device).name(), "PC");
    assert_eq!(
        room.view_device("PC").unwrap_or(&default_device).info(),
        "Smart Outlet: PC - Current State: On, Power Usage: 250 Watt"
    );
    assert_eq!(room.view_device("Electronic thermometer").is_some(), true);
    assert_eq!(
        room.view_device("Electronic thermometer")
            .unwrap_or(&default_device)
            .name(),
        "Electronic thermometer"
    );
    assert_eq!(
        room.view_device("Electronic thermometer")
            .unwrap_or(&default_device)
            .info(),
        "Thermometer: Electronic thermometer - Current Temperature: 22.50°C"
    );

    let outlet_lighter: &Device = room.view_device("Lighter").unwrap_or(&default_device);
    let outlet_pc: &Device = room.view_device("PC").unwrap_or(&default_device);
    let thermometer: &Device = room
        .view_device("Electronic thermometer")
        .unwrap_or(&default_device);

    assert_eq!(outlet_lighter.name(), "Lighter");
    assert_eq!(
        outlet_lighter.info(),
        "Smart Outlet: Lighter - Current State: On, Power Usage: 100 Watt"
    );
    assert_eq!(outlet_pc.name(), "PC");
    assert_eq!(
        outlet_pc.info(),
        "Smart Outlet: PC - Current State: On, Power Usage: 250 Watt"
    );
    assert_eq!(thermometer.name(), "Electronic thermometer");
    assert_eq!(
        thermometer.info(),
        "Thermometer: Electronic thermometer - Current Temperature: 22.50°C"
    );
}

#[test]
fn smart_room_add_one_device_test() {
    let default_device = Device::Empty;
    let mut room = SmartRoom::new("Living Room".to_string(), Vec::new());
    let outlet = Device::new_outlet("Smart Outlet".to_string(), OutletState::On, 150 as Watt);
    room.add_device("Smart Outlet".to_string(), outlet);
    assert_eq!(room.device_count(), 1);
    assert_eq!(
        room.view_device("Smart Outlet").unwrap_or(&default_device).name(),
        "Smart Outlet"
    );
}

#[test]
fn smart_room_add_many_devices_test() {
    let mut room = SmartRoom::new("Living Room".to_string(), Vec::new());
    room.add_device(
        "Smart Outlet lighter".to_string(),
        Device::new_outlet("Smart Outlet lighter".to_string(), OutletState::On, 100 as Watt),
    );
    room.add_device(
        "Smart Outlet PC".to_string(),
        Device::new_outlet("Smart Outlet PC".to_string(), OutletState::On, 250 as Watt),
    );
    room.add_device(
        "Smart Thermometer".to_string(),
        Device::new_thermometer("Smart Thermometer".to_string(), Celsius::from_centidegrees(2250)),
    );
    assert_eq!(room.device_count(), 3);
    assert_eq!(
        room.view_device("Smart Outlet lighter").unwrap().name(),
        "Smart Outlet lighter"
    );
    assert_eq!(
        room.view_device("Smart Outlet PC").unwrap().name(),
        "Smart Outlet PC"
    );
    assert_eq!(
        room.view_device("Smart Thermometer").unwrap().name(),
        "Smart Thermometer"
    );

    let expected = r#"
Smart Room: Living Room:
 Total devices: 3
  [0]: Smart Outlet: Smart Outlet PC - Current State: On, Power Usage: 250 Watt
  --------------------------------------
  [1]: Smart Outlet: Smart Outlet lighter - Current State: On, Power Usage: 100 Watt
  --------------------------------------
  [2]: Thermometer: Smart Thermometer - Current Temperature: 22.50°C"#;
    assert_eq!(room.info(), expected);
}

#[test]
fn smart_room_remove_one_device_test() {
    let default_device = Device::Empty;
    let mut room = SmartRoom::new("Living Room".to_string(), Vec::new());
    let outlet = Device::new_outlet("Smart Outlet".to_string(), OutletState::On, 150 as Watt);
    room.add_device("Smart Outlet".to_string(), outlet);

    assert_eq!(room.remove_device("Not existing device"), None);
    assert_eq!(room.device_count(), 1);

    let removed_device = room.remove_device("Smart Outlet").unwrap_or(default_device);
    assert_eq!(removed_device.name(), "Smart Outlet");
    assert_eq!(room.device_count(), 0);

    assert_eq!(room.remove_device("Smart Outlet"), None);
}

#[test]
fn smart_room_remove_many_devices_test() {
    let default_device = Device::Empty;
    let mut room = SmartRoom::new("Living Room".to_string(), Vec::new());
    room.add_device(
        "Smart Outlet lighter".to_string(),
        Device::new_outlet("Smart Outlet lighter".to_string(), OutletState::On, 100 as Watt),
    );
    room.add_device(
        "Smart Outlet PC".to_string(),
        Device::new_outlet("Smart Outlet PC".to_string(), OutletState::On, 250 as Watt),
    );
    room.add_device(
        "Smart Thermometer".to_string(),
        Device::new_thermometer("Smart Thermometer".to_string(), Celsius::from_centidegrees(2250)),
    );

    assert_eq!(room.device_count(), 3);

    let removed_device = room
        .remove_device("Smart Outlet lighter")
        .unwrap_or(default_device.clone());
    assert_eq!(removed_device.name(), "Smart Outlet lighter");
    assert_eq!(room.device_count(), 2);

    let removed_device = room
        .remove_device("Smart Outlet PC")
        .unwrap_or(default_device.clone());
    assert_eq!(removed_device.name(), "Smart Outlet PC");
    assert_eq!(room.device_count(), 1);

    let removed_device = room
        .remove_device("Smart Thermometer")
        .unwrap_or(default_device.clone());
    assert_eq!(removed_device.name(), "Smart Thermometer");
    assert_eq!(room.device_count(), 0);

    assert_eq!(room.remove_device("Smart Outlet lighter"), None);
    assert_eq!(room.remove_device("Smart Outlet PC"), None);
    assert_eq!(room.remove_device("Smart Thermometer"), None);
}

#[test]
fn smart_room_ref_device_test() {
    let default_device = Device::Empty;
    let room = SmartRoom::new(
        "Living Room".to_string(),
        vec![
            (
                "Smart Outlet lighter".to_string(),
                Device::new_outlet(
                    "Smart Outlet lighter".to_string(),
                    OutletState::On,
                    100 as Watt,
                ),
            ),
            (
                "Smart Outlet PC".to_string(),
                Device::new_outlet("Smart Outlet PC".to_string(), OutletState::On, 250 as Watt),
            ),
        ],
    );
    let device_0 = room
        .view_device("Smart Outlet lighter")
        .unwrap_or(&default_device);
    let outlet_0 = match device_0 {
        Device::OutletType(o) => o,
        _ => panic!("Expected OutletType"),
    };

    assert_eq!(outlet_0.name(), "Smart Outlet lighter");
    assert_eq!(outlet_0.state(), OutletState::On);
    assert_eq!(outlet_0.power_usage(), 100 as Watt);
}

#[test]
fn smart_room_get_test() {
    let default_device = Device::Empty;
    let mut mut_default_device = Device::Empty;
    let mut room = SmartRoom::new(
        "Living Room".to_string(),
        vec![
            (
                "Smart Outlet lighter".to_string(),
                Device::new_outlet(
                    "Smart Outlet lighter".to_string(),
                    OutletState::On,
                    100 as Watt,
                ),
            ),
            (
                "Smart Outlet PC".to_string(),
                Device::new_outlet("Smart Outlet PC".to_string(), OutletState::On, 250 as Watt),
            ),
        ],
    );

    assert_eq!(room.device_count(), 2);
    assert_eq!(
        room.view_device("Smart Outlet lighter")
            .unwrap_or(&default_device)
            .info(),
        "Smart Outlet: Smart Outlet lighter - Current State: On, Power Usage: 100 Watt"
    );
    assert_eq!(
        room.view_device("Smart Outlet PC")
            .unwrap_or(&default_device)
            .info(),
        "Smart Outlet: Smart Outlet PC - Current State: On, Power Usage: 250 Watt"
    );

    {
        let outlet_device: &mut Device = room
            .get_device("Smart Outlet lighter")
            .unwrap_or(&mut mut_default_device);
        let outlet = match outlet_device {
            Device::OutletType(o) => o,
            _ => panic!("Expected OutletType"),
        };
        assert_eq!(outlet.state(), OutletState::On);
        outlet.switch();
        assert_eq!(outlet.state(), OutletState::Off);
    }
    assert_eq!(
        room.view_device("Smart Outlet lighter")
            .unwrap_or(&default_device)
            .info(),
        "Smart Outlet: Smart Outlet lighter - Current State: Off, Power Usage: 0 Watt"
    );
    assert_eq!(
        room.view_device("Smart Outlet PC")
            .unwrap_or(&default_device)
            .info(),
        "Smart Outlet: Smart Outlet PC - Current State: On, Power Usage: 250 Watt"
    );

    {
        let outlet_device: &mut Device = room
            .get_device("Smart Outlet PC")
            .unwrap_or(&mut mut_default_device);
        let outlet = match outlet_device {
            Device::OutletType(o) => o,
            _ => panic!("Expected OutletType"),
        };
        assert_eq!(outlet.state(), OutletState::On);
        outlet.switch();
        assert_eq!(outlet.state(), OutletState::Off);
    }
    assert_eq!(
        room.view_device("Smart Outlet lighter")
            .unwrap_or(&default_device)
            .info(),
        "Smart Outlet: Smart Outlet lighter - Current State: Off, Power Usage: 0 Watt"
    );
    assert_eq!(
        room.view_device("Smart Outlet PC")
            .unwrap_or(&default_device)
            .info(),
        "Smart Outlet: Smart Outlet PC - Current State: Off, Power Usage: 0 Watt"
    );
}

#[test]
fn smart_room_access_device_test() {
    let default_device = Device::Empty;
    let room = SmartRoom::new(
        "Living Room".to_string(),
        vec![
            (
                "Smart Outlet lighter".to_string(),
                Device::new_outlet(
                    "Smart Outlet lighter".to_string(),
                    OutletState::On,
                    100 as Watt,
                ),
            ),
            (
                "Smart Outlet PC".to_string(),
                Device::new_outlet("Smart Outlet PC".to_string(), OutletState::On, 250 as Watt),
            ),
        ],
    );

    assert_eq!(
        room.access_device("Smart Outlet lighter")
            .unwrap_or(&default_device)
            .name(),
        "Smart Outlet lighter"
    );
    assert_eq!(
        room.access_device("Smart Outlet PC")
            .unwrap_or(&default_device)
            .name(),
        "Smart Outlet PC"
    );
    assert!(room.access_device("Non-existing device").is_err());
    let err = room.access_device("Non-existing device").unwrap_err();
    assert_eq!(
        err.text(),
        "AccessError: Device with the name 'Non-existing device' not found in the room 'Living Room'"
    );
}
