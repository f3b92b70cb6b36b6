use mijia::{AdapterId, CharacteristicId, DeviceId, ServiceId};

#[test]
fn device_adapter() {
    let adapter_id = AdapterId::new("/org/bluez/hci0");
    let device_id = DeviceId::new("/org/bluez/hci0/dev_11_22_33_44_55_66");
    assert_eq!(device_id.adapter(), adapter_id);
}

#[test]
fn service_device() {
    let device_id = DeviceId::new("/org/bluez/hci0/dev_11_22_33_44_55_66");
    let service_id = ServiceId::new("/org/bluez/hci0/dev_11_22_33_44_55_66/service0022");
    assert_eq!(service_id.device(), device_id);
}

#[test]
fn characteristic_service() {
    let service_id = ServiceId::new("/org/bluez/hci0/dev_11_22_33_44_55_66/service0022");
    let characteristic_id =
        CharacteristicId::new("/org/bluez/hci0/dev_11_22_33_44_55_66/service0022/char0033");
    assert_eq!(characteristic_id.service(), service_id);
}

#[test]
fn parents_form_a_chain() {
    let characteristic = CharacteristicId::new("/o/hci0/dev_X/service0022/char0033");
    let service = characteristic.service();
    assert_eq!(service, ServiceId::new("/o/hci0/dev_X/service0022"));
    let device = service.device();
    assert_eq!(device, DeviceId::new("/o/hci0/dev_X"));
    assert_eq!(device, ServiceId::new("/o/hci0/dev_X/service0022").device());
    assert_eq!(device.adapter(), AdapterId::new("/o/hci0"));
}

#[test]
fn parent_of_a_top_level_path_is_empty() {
    assert_eq!(DeviceId::new("/dev").adapter(), AdapterId::new(""));
    assert_eq!(DeviceId::new("hci0/").adapter(), AdapterId::new("hci0"));
}

#[test]
fn parent_cuts_at_the_last_separator_only() {
    assert_eq!(
        ServiceId::new("/a//b").device(),
        DeviceId::new("/a/")
    );
    assert_eq!(
        CharacteristicId::new("/ä/ö/ü").service(),
        ServiceId::new("/ä/ö")
    );
}

#[test]
fn identifiers_give_back_their_path() {
    assert_eq!(AdapterId::new("/org/bluez/hci0").path(), "/org/bluez/hci0");
    assert_eq!(DeviceId::new("/org/bluez/hci0/dev_1").path(), "/org/bluez/hci0/dev_1");
    assert_eq!(ServiceId::new("/s").path(), "/s");
    assert_eq!(CharacteristicId::new("/c").path(), "/c");
    assert_eq!(DeviceId::new("/x").object_path, "/x");
}

#[test]
fn identifiers_are_ordered_by_path() {
    assert!(DeviceId::new("/a/b") < DeviceId::new("/a/c"));
    assert_ne!(DeviceId::new("/a/b"), DeviceId::new("/a/c"));
    assert_eq!(DeviceId::new("/a/b").clone(), DeviceId::new("/a/b"));
}

#[test]
fn path_without_separator_has_no_parent() {
    assert!(!DeviceId::new("dev_1").has_parent());
    assert!(!ServiceId::new("").has_parent());
    assert!(!CharacteristicId::new("char0001").has_parent());
    assert!(DeviceId::new("/dev_1").has_parent());
    assert!(ServiceId::new("a/b").has_parent());
    assert!(CharacteristicId::new("a/").has_parent());
}
