use mijia::discovery::{
    decode_service_data, get_adapters, get_devices, interface, next_discovery_step, property,
};
use mijia::{
    AdapterId, BluetoothError, DeviceId, DiscoveryStep, Interface, ManagedObject, Property,
    ServiceData, Value,
};

fn text(s: &str) -> Value {
    Value::Str(s.to_string())
}

fn bytes(b: &[u8]) -> Value {
    Value::Array(b.iter().map(|x| Value::UInt(*x as u64)).collect())
}

fn wrapped(v: Value) -> Value {
    Value::Variant(Box::new(v))
}

fn prop(name: &str, value: Value) -> Property {
    Property { name: name.to_string(), value }
}

fn object(path: &str, iface: &str, properties: Vec<Property>) -> ManagedObject {
    ManagedObject {
        path: path.to_string(),
        interfaces: vec![
            Interface { name: "org.freedesktop.DBus.Introspectable".to_string(), properties: vec![] },
            Interface { name: iface.to_string(), properties },
        ],
    }
}

fn fake_tree() -> Vec<ManagedObject> {
    vec![
        object(
            "/org/bluez/hci0",
            "org.bluez.Adapter1",
            vec![prop("Address", text("00:11:22:33:44:55")), prop("Powered", Value::Bool(true))],
        ),
        object(
            "/org/bluez/hci0/dev_11_22_33_44_55_66",
            "org.bluez.Device1",
            vec![
                prop("Address", text("11:22:33:44:55:66")),
                prop("Name", text("Thermometer")),
                prop(
                    "ServiceData",
                    Value::Dict(vec![(
                        text("0000fe95-0000-1000-8000-00805f9b34fb"),
                        wrapped(bytes(&[48, 88, 91, 5, 1])),
                    )]),
                ),
            ],
        ),
        object(
            "/org/bluez/hci0/dev_AA_BB_CC_DD_EE_FF",
            "org.bluez.Device1",
            vec![prop("Address", text("AA:BB:CC:DD:EE:FF"))],
        ),
    ]
}

#[test]
fn devices_are_read_from_the_tree() {
    let devices = get_devices(&fake_tree());
    assert_eq!(devices.len(), 2);
    assert_eq!(devices[0].id, DeviceId::new("/org/bluez/hci0/dev_11_22_33_44_55_66"));
    assert_eq!(devices[0].mac_address.to_string(), "11:22:33:44:55:66");
    assert_eq!(devices[0].name, Some("Thermometer".to_string()));
    assert_eq!(devices[0].service_data.len(), 1);
    assert_eq!(
        devices[0].service_data.get("0000fe95-0000-1000-8000-00805f9b34fb"),
        Some(&vec![48, 88, 91, 5, 1])
    );
    assert_eq!(devices[1].id, DeviceId::new("/org/bluez/hci0/dev_AA_BB_CC_DD_EE_FF"));
    assert_eq!(devices[1].mac_address.to_string(), "AA:BB:CC:DD:EE:FF");
    assert_eq!(devices[1].name, None);
    assert_eq!(devices[1].service_data.len(), 0);
    assert_eq!(devices[1].id.adapter(), AdapterId::new("/org/bluez/hci0"));
}

#[test]
fn device_without_usable_address_is_passed_over() {
    let tree = vec![
        object("/org/bluez/hci0/dev_1", "org.bluez.Device1", vec![prop("Name", text("x"))]),
        object(
            "/org/bluez/hci0/dev_2",
            "org.bluez.Device1",
            vec![prop("Address", Value::UInt(7))],
        ),
        object(
            "/org/bluez/hci0/dev_3",
            "org.bluez.Device1",
            vec![prop("Address", text("01:02:03:04:05:06")), prop("Name", Value::Bool(true))],
        ),
    ];
    let devices = get_devices(&tree);
    assert_eq!(devices.len(), 1);
    assert_eq!(devices[0].id.path(), "/org/bluez/hci0/dev_3");
    assert_eq!(devices[0].name, None);
}

#[test]
fn no_objects_no_devices() {
    assert_eq!(get_devices(&vec![]).len(), 0);
}

#[test]
fn adapters_are_read_from_the_tree() {
    let adapters = get_adapters(&fake_tree()).unwrap();
    assert_eq!(adapters, vec![AdapterId::new("/org/bluez/hci0")]);
}

#[test]
fn no_adapter_is_an_error() {
    let tree = vec![object(
        "/org/bluez/hci0/dev_1",
        "org.bluez.Device1",
        vec![prop("Address", text("01:02:03:04:05:06"))],
    )];
    assert!(matches!(get_adapters(&tree), Err(BluetoothError::NoBluetoothAdapters)));
    assert!(matches!(get_adapters(&vec![]), Err(BluetoothError::NoBluetoothAdapters)));
}

#[test]
fn first_property_and_interface_of_a_name_are_found() {
    let properties = vec![prop("A", Value::UInt(1)), prop("B", Value::UInt(2)), prop("A", Value::UInt(3))];
    assert_eq!(property(&properties, "A"), Some(&Value::UInt(1)));
    assert_eq!(property(&properties, "B"), Some(&Value::UInt(2)));
    assert_eq!(property(&properties, "C"), None);
    let tree = fake_tree();
    assert_eq!(interface(&tree[0].interfaces, "org.bluez.Adapter1").unwrap().len(), 2);
    assert!(interface(&tree[0].interfaces, "org.bluez.Device1").is_none());
}

#[test]
fn service_data_entries_of_another_shape_are_passed_over() {
    let value = Value::Dict(vec![
        (text("a"), wrapped(bytes(&[1, 2]))),
        (Value::UInt(3), wrapped(bytes(&[3]))),
        (text("b"), bytes(&[4])),
        (text("c"), wrapped(Value::Array(vec![Value::UInt(5), text("x")]))),
        (text("d"), wrapped(Value::Array(vec![Value::UInt(0x1ff)]))),
        (text("a"), wrapped(bytes(&[9]))),
    ]);
    let data = decode_service_data(&value);
    assert_eq!(data.len(), 2);
    assert_eq!(data.get("a"), Some(&vec![9]));
    assert_eq!(data.get("b"), None);
    assert_eq!(data.get("c"), None);
    assert_eq!(data.get("d"), Some(&vec![0xff]));
    assert_eq!(decode_service_data(&text("a")).len(), 0);
}

#[test]
fn service_data_keeps_one_entry_for_each_service() {
    let data = ServiceData::new()
        .insert("a".to_string(), vec![1])
        .insert("b".to_string(), vec![2])
        .insert("a".to_string(), vec![3]);
    assert_eq!(data.len(), 2);
    assert_eq!(data.get("a"), Some(&vec![3]));
    assert_eq!(data.get("b"), Some(&vec![2]));
    assert_eq!(data.get("c"), None);
    let copy = data.clone();
    assert_eq!(copy.get("a"), Some(&vec![3]));
    assert_eq!(
        data.into_entries(),
        vec![("a".to_string(), vec![3]), ("b".to_string(), vec![2])]
    );
}

#[test]
fn discovery_goes_adapter_by_adapter() {
    let first = next_discovery_step(2, None);
    assert_eq!(first, DiscoveryStep::PowerOn { adapter: 0 });
    let second = next_discovery_step(2, Some((first, true)));
    assert_eq!(second, DiscoveryStep::StartScan { adapter: 0 });
    let third = next_discovery_step(2, Some((second, false)));
    assert_eq!(third, DiscoveryStep::PowerOn { adapter: 1 });
    let fourth = next_discovery_step(2, Some((third, true)));
    assert_eq!(fourth, DiscoveryStep::StartScan { adapter: 1 });
    assert_eq!(next_discovery_step(2, Some((fourth, true))), DiscoveryStep::Done);
    assert_eq!(next_discovery_step(2, Some((third, false))), DiscoveryStep::Failed);
    assert_eq!(next_discovery_step(0, None), DiscoveryStep::Done);
    assert_eq!(
        next_discovery_step(3, Some((DiscoveryStep::StartScan { adapter: usize::MAX }, true))),
        DiscoveryStep::Done
    );
}
