use mijia::gatt::{
    characteristic_ids, characteristic_info_from, get_characteristic_by_uuid,
    get_characteristic_info, get_service_by_uuid, get_service_info, parse_uuid, service_ids,
    service_info_from, uuid_or_error,
};
use mijia::{BluetoothError, CharacteristicId, CharacteristicInfo, DeviceId, ServiceId, ServiceInfo};
use uuid::Uuid;

fn names(list: &[&str]) -> Vec<String> {
    list.iter().map(|s| s.to_string()).collect()
}

fn three_services() -> Vec<ServiceInfo> {
    vec![
        ServiceInfo { id: ServiceId::new("/d/service0001"), uuid: 0x1800, primary: true },
        ServiceInfo { id: ServiceId::new("/d/service0002"), uuid: 0x1801, primary: false },
        ServiceInfo { id: ServiceId::new("/d/service0003"), uuid: 0x1801, primary: true },
    ]
}

#[test]
fn services_are_the_children_named_so() {
    let device = DeviceId::new("/org/bluez/hci0/dev_11_22_33_44_55_66");
    let ids = service_ids(&device, &names(&["service0010", "service0011", "char0002"]));
    assert_eq!(
        ids,
        vec![
            ServiceId::new("/org/bluez/hci0/dev_11_22_33_44_55_66/service0010"),
            ServiceId::new("/org/bluez/hci0/dev_11_22_33_44_55_66/service0011"),
        ]
    );
    assert_eq!(ids[0].device(), device);
    assert_eq!(ids[1].device(), device);
}

#[test]
fn characteristics_are_the_children_named_so() {
    let service = ServiceId::new("/d/service0010");
    let ids = characteristic_ids(&service, &names(&["char0002", "desc0001", "cha", "char", "xchar1"]));
    assert_eq!(
        ids,
        vec![CharacteristicId::new("/d/service0010/char0002"), CharacteristicId::new("/d/service0010/char")]
    );
    assert_eq!(ids[0].service(), service);
    assert_eq!(characteristic_ids(&service, &vec![]), vec![]);
}

#[test]
fn uuid_is_read_as_the_uuid_crate_reads_it() {
    let text = "0000fe95-0000-1000-8000-00805f9b34fb";
    assert_eq!(parse_uuid(text).unwrap(), 0x0000fe95_0000_1000_8000_00805f9b34fb);
    assert_eq!(parse_uuid(text).unwrap(), Uuid::parse_str(text).unwrap().as_u128());
    assert_eq!(parse_uuid("0000fe9500001000800000805f9b34fb").unwrap(), 0x0000fe95_0000_1000_8000_00805f9b34fb);
}

#[test]
fn text_that_is_no_uuid_is_refused() {
    assert!(matches!(parse_uuid("fe95"), Err(BluetoothError::UUIDParseError(_))));
    assert!(matches!(parse_uuid(""), Err(BluetoothError::UUIDParseError(_))));
}

#[test]
fn service_info_is_put_together() {
    let id = ServiceId::new("/d/service0001");
    let info = get_service_info(id.clone(), "00001800-0000-1000-8000-00805f9b34fb", true).unwrap();
    assert_eq!(
        info,
        ServiceInfo { id: id.clone(), uuid: 0x00001800_0000_1000_8000_00805f9b34fb, primary: true }
    );
    assert!(matches!(
        get_service_info(id, "nothing", false),
        Err(BluetoothError::UUIDParseError(_))
    ));
}

#[test]
fn characteristic_info_is_put_together() {
    let id = CharacteristicId::new("/d/service0001/char0002");
    let info = get_characteristic_info(id.clone(), "00002a00-0000-1000-8000-00805f9b34fb").unwrap();
    assert_eq!(info, CharacteristicInfo { id: id.clone(), uuid: 0x00002a00_0000_1000_8000_00805f9b34fb });
    assert!(matches!(
        get_characteristic_info(id, "2a00"),
        Err(BluetoothError::UUIDParseError(_))
    ));
}

#[test]
fn service_is_found_by_uuid() {
    let found = get_service_by_uuid(three_services(), 0x1800).unwrap();
    assert_eq!(found.id, ServiceId::new("/d/service0001"));
    let found = get_service_by_uuid(three_services(), 0x1801).unwrap();
    assert_eq!(found, ServiceInfo { id: ServiceId::new("/d/service0002"), uuid: 0x1801, primary: false });
}

#[test]
fn absent_service_uuid_is_not_found() {
    match get_service_by_uuid(three_services(), 0x1802) {
        Err(BluetoothError::UUIDNotFound { uuid }) => assert_eq!(uuid, 0x1802),
        other => panic!("unexpected {:?}", other),
    }
    assert!(matches!(
        get_service_by_uuid(vec![], 1),
        Err(BluetoothError::UUIDNotFound { uuid: 1 })
    ));
}

#[test]
fn characteristic_is_found_by_uuid() {
    let list = vec![
        CharacteristicInfo { id: CharacteristicId::new("/d/s/char0001"), uuid: 7 },
        CharacteristicInfo { id: CharacteristicId::new("/d/s/char0002"), uuid: 8 },
        CharacteristicInfo { id: CharacteristicId::new("/d/s/char0003"), uuid: 8 },
    ];
    assert_eq!(
        get_characteristic_by_uuid(list.clone(), 8).unwrap().id,
        CharacteristicId::new("/d/s/char0002")
    );
    assert!(matches!(
        get_characteristic_by_uuid(list, 9),
        Err(BluetoothError::UUIDNotFound { uuid: 9 })
    ));
}

#[test]
fn parser_answer_becomes_info_or_error() {
    let id = ServiceId::new("/d/service0001");
    assert_eq!(
        service_info_from(id.clone(), Ok(5), true).unwrap(),
        ServiceInfo { id: id.clone(), uuid: 5, primary: true }
    );
    let refusal = Uuid::parse_str("x").unwrap_err();
    match service_info_from(id, Err(refusal.clone()), true) {
        Err(BluetoothError::UUIDParseError(e)) => assert_eq!(e, refusal),
        other => panic!("unexpected {:?}", other),
    }
    let id = CharacteristicId::new("/d/service0001/char0002");
    assert_eq!(
        characteristic_info_from(id.clone(), Ok(6)).unwrap(),
        CharacteristicInfo { id: id.clone(), uuid: 6 }
    );
    assert!(matches!(
        characteristic_info_from(id, Err(refusal.clone())),
        Err(BluetoothError::UUIDParseError(_))
    ));
    assert_eq!(uuid_or_error(Ok(7)).unwrap(), 7);
    assert!(matches!(uuid_or_error(Err(refusal)), Err(BluetoothError::UUIDParseError(_))));
}
