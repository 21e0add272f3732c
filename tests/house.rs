use std::collections::HashSet;

use smart_house::house::SmartHouseError::{
    DeviceAlreadyExists, DeviceNotFound, RoomAlreadyExists, RoomNotFound,
};
use smart_house::house::{Device, Room, SmartHouse, SmartSocket, SmartThermometer};

fn as_set(names: &[String]) -> HashSet<&String> {
    names.iter().collect()
}

#[test]
fn should_enable_socket() {
    let mut socket = SmartSocket {
        _description: "socket".to_string(),
        _is_enabled: false,
        _power: 10.0f64.to_bits(),
    };

    socket._enable();

    assert_eq!(socket._is_enabled(), true);
}

#[test]
fn should_disable_socket() {
    let mut socket = SmartSocket {
        _description: "socket".to_string(),
        _is_enabled: false,
        _power: 10.0f64.to_bits(),
    };

    socket._disable();

    assert_eq!(socket._is_enabled(), false);
}

#[test]
fn socket_getters_return_fields() {
    let socket = SmartSocket {
        _description: "socket".to_string(),
        _is_enabled: true,
        _power: 10.0f64.to_bits(),
    };
    assert_eq!(f64::from_bits(socket._get_power()), 10.0);
    assert_eq!(socket._get_description(), "socket");
    let thermo = SmartThermometer {
        _current_temperature: (-10.0f64).to_bits(),
    };
    assert_eq!(f64::from_bits(thermo._get_current_temperature()), -10.0);
}

#[test]
fn should_get_rooms() {
    let rooms = vec![
        (
            "Room1".to_string(),
            Room {
                devices: Default::default(),
            },
        ),
        (
            "Room2".to_string(),
            Room {
                devices: Default::default(),
            },
        ),
    ];

    let house = SmartHouse::of(rooms);

    assert_eq!(
        as_set(&house.get_rooms()),
        HashSet::from([&"Room1".to_string(), &"Room2".to_string()])
    );
}

#[test]
fn should_get_devices() {
    let rooms = vec![(
        "Room1".to_string(),
        Room {
            devices: vec![
                (
                    "Socket1".to_string(),
                    Device::SmartSocket(Default::default()),
                ),
                (
                    "Thermo".to_string(),
                    Device::SmartThermometer(Default::default()),
                ),
            ],
        },
    )];

    let house = SmartHouse::of(rooms);

    assert_eq!(
        as_set(&house.get_devices("Room1")),
        HashSet::from([&"Socket1".to_string(), &"Thermo".to_string()])
    );
}

#[test]
fn finds_a_copy_of_the_device() {
    let rooms = vec![(
        "Room1".to_string(),
        Room {
            devices: vec![(
                "Thermo".to_string(),
                Device::SmartThermometer(SmartThermometer {
                    _current_temperature: 21.5f64.to_bits(),
                }),
            )],
        },
    )];
    let house = SmartHouse::of(rooms);

    let expected = Device::SmartThermometer(SmartThermometer {
        _current_temperature: 21.5f64.to_bits(),
    });
    assert_eq!(house.find_device("Room1", "Thermo"), Ok(expected.clone()));
    assert_eq!(house.get_device("Room1", "Thermo"), expected);
}

#[test]
fn should_not_find_device_if_no_devices() {
    let rooms = vec![(
        "Room1".to_string(),
        Room {
            devices: Vec::new(),
        },
    )];
    let house = SmartHouse::of(rooms);

    assert_eq!(
        house.find_device("Room1", "Thermo"),
        Err(DeviceNotFound {
            room: "Room1".to_string(),
            device: "Thermo".to_string(),
        })
    );
}

#[test]
fn should_not_find_device_if_no_room() {
    let rooms = vec![(
        "Room1".to_string(),
        Room {
            devices: Vec::new(),
        },
    )];
    let house = SmartHouse::of(rooms);

    assert_eq!(
        house.find_device("Room2", "Thermo"),
        Err(RoomNotFound("Room2".to_string()))
    );
}

#[test]
fn should_add_new_room() {
    let mut house = SmartHouse::new();
    house.add_room("Room1".to_string()).unwrap();

    assert_eq!(
        as_set(&house.get_rooms()),
        HashSet::from([&"Room1".to_string()])
    );
}

#[test]
fn should_not_add_the_same_room() {
    let mut house = SmartHouse::new();
    house.add_room("Room1".to_string()).unwrap();

    assert_eq!(
        house.add_room("Room1".to_string()),
        Err(RoomAlreadyExists("Room1".to_string()))
    );
}

#[test]
fn should_remove_room() {
    let mut house = SmartHouse::new();
    house.add_room("Room1".to_string()).unwrap();
    house.remove_room("Room1".to_string()).unwrap();

    assert_eq!(as_set(&house.get_rooms()), HashSet::from([]));
}

#[test]
fn should_not_remove_room_if_no_room() {
    let mut house = SmartHouse::new();

    assert_eq!(
        house.remove_room("Room1".to_string()),
        Err(RoomNotFound("Room1".to_string()))
    );
}

#[test]
fn should_add_device_to_room() {
    let mut house = SmartHouse::new();
    house.add_room("Room1".to_string()).unwrap();
    house
        .add_device(
            "Room1".to_string(),
            "Thermo".to_string(),
            Device::SmartThermometer(Default::default()),
        )
        .unwrap();

    assert_eq!(
        as_set(&house.get_devices("Room1")),
        HashSet::from([&"Thermo".to_string()])
    );
}

#[test]
fn adding_a_device_to_a_missing_room_fails() {
    let mut house = SmartHouse::new();

    assert_eq!(
        house.add_device(
            "Room1".to_string(),
            "Thermo".to_string(),
            Device::SmartThermometer(Default::default()),
        ),
        Err(RoomNotFound("Room1".to_string()))
    );
    assert!(house.get_rooms().is_empty());
}

#[test]
fn should_not_add_the_same_device_to_room() {
    let mut house = SmartHouse::new();
    house.add_room("Room1".to_string()).unwrap();
    house
        .add_device(
            "Room1".to_string(),
            "Thermo".to_string(),
            Device::SmartThermometer(Default::default()),
        )
        .unwrap();

    assert_eq!(
        house.add_device(
            "Room1".to_string(),
            "Thermo".to_string(),
            Device::SmartThermometer(Default::default()),
        ),
        Err(DeviceAlreadyExists {
            room: "Room1".to_string(),
            device: "Thermo".to_string(),
        })
    );
}

#[test]
fn should_remove_device() {
    let mut house = SmartHouse::new();
    house.add_room("Room1".to_string()).unwrap();
    house
        .add_device(
            "Room1".to_string(),
            "Thermo".to_string(),
            Device::SmartThermometer(Default::default()),
        )
        .unwrap();
    house
        .remove_device("Room1".to_string(), "Thermo".to_string())
        .unwrap();

    assert_eq!(as_set(&house.get_devices("Room1")), HashSet::from([]));
}

#[test]
fn should_not_remove_device_if_no_device() {
    let mut house = SmartHouse::new();
    house.add_room("Room1".to_string()).unwrap();

    assert_eq!(
        house.remove_device("Room1".to_string(), "Thermo".to_string()),
        Err(DeviceNotFound {
            device: "Thermo".to_string(),
            room: "Room1".to_string(),
        })
    );
}

#[test]
fn removing_a_device_from_a_missing_room_fails() {
    let mut house = SmartHouse::new();

    assert_eq!(
        house.remove_device("Room1".to_string(), "Thermo".to_string()),
        Err(RoomNotFound("Room1".to_string()))
    );
}

#[test]
fn lists_all_devices_room_by_room() {
    let mut house = SmartHouse::new();
    house.add_room("Room1".to_string()).unwrap();
    house.add_room("Room2".to_string()).unwrap();
    house
        .add_device(
            "Room1".to_string(),
            "Socket1".to_string(),
            Device::SmartSocket(Default::default()),
        )
        .unwrap();
    house
        .add_device(
            "Room2".to_string(),
            "Thermo".to_string(),
            Device::SmartThermometer(Default::default()),
        )
        .unwrap();
    house
        .add_device(
            "Room1".to_string(),
            "Socket2".to_string(),
            Device::SmartSocket(Default::default()),
        )
        .unwrap();

    assert_eq!(
        house.get_all_devices(),
        vec![
            ("Room1".to_string(), "Socket1".to_string()),
            ("Room1".to_string(), "Socket2".to_string()),
            ("Room2".to_string(), "Thermo".to_string()),
        ]
    );
    assert_eq!(house.name(), "My house");
}
