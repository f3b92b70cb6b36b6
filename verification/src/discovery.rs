//! Reading the daemon's tree of managed objects: which adapters there are, and
//! which devices, with what they advertise.

use crate::error::BluetoothError;
use crate::id::{AdapterId, DeviceId};
use crate::mac::MacAddress;
use crate::service_data::ServiceData;
use crate::value::{text_is, Value};
use vstd::prelude::*;
use vstd::string::*;

verus! {

/// The interface that every adapter has.
pub open spec fn adapter_interface() -> Seq<char> {
    "org.bluez.Adapter1"@
}

/// The interface that every device has.
pub open spec fn device_interface() -> Seq<char> {
    "org.bluez.Device1"@
}

/// One property of an interface: its name and its current value, without the
/// variant that wraps it on the wire.
#[derive(Debug)]
pub struct Property {
    pub name: String,
    pub value: Value,
}

/// One interface of a managed object, with its properties.
#[derive(Debug)]
pub struct Interface {
    pub name: String,
    pub properties: Vec<Property>,
}

/// One object of the daemon's tree: its path and what it offers.
#[derive(Debug)]
pub struct ManagedObject {
    pub path: String,
    pub interfaces: Vec<Interface>,
}

/// The value of the first property called `name`.
pub open spec fn find_property(properties: Seq<Property>, name: Seq<char>) -> Option<Value>
    decreases properties.len(),
{
    if properties.len() == 0 {
        None
    } else if properties[0].name@ == name {
        Some(properties[0].value)
    } else {
        find_property(properties.drop_first(), name)
    }
}

/// The properties of the first interface called `name`.
pub open spec fn find_interface(interfaces: Seq<Interface>, name: Seq<char>) -> Option<
    Seq<Property>,
>
    decreases interfaces.len(),
{
    if interfaces.len() == 0 {
        None
    } else if interfaces[0].name@ == name {
        Some(interfaces[0].properties@)
    } else {
        find_interface(interfaces.drop_first(), name)
    }
}

/// The text of the string property called `name`; `None` where there is no
/// such property or it is no string.
pub open spec fn text_property(properties: Seq<Property>, name: Seq<char>) -> Option<Seq<char>> {
    match find_property(properties, name) {
        Some(value) => value.text(),
        None => None,
    }
}

/// What one entry of a service-data dictionary says: the service's UUID as
/// text and the bytes sent for it. The entry's value is a variant around an
/// array of bytes; an entry of any other shape says nothing.
pub open spec fn service_entry(entry: (Value, Value)) -> Option<(Seq<char>, Seq<u8>)> {
    match (entry.0.text(), entry.1.inner()) {
        (Some(service), Some(wrapped)) => match wrapped.bytes() {
            Some(bytes) => Some((service, bytes)),
            None => None,
        },
        _ => None,
    }
}

/// The service data that the entries of a dictionary hold, entry by entry,
/// passing over those that cannot be read.
pub open spec fn service_data_of_entries(entries: Seq<(Value, Value)>) -> Map<Seq<char>, Seq<u8>>
    decreases entries.len(),
{
    if entries.len() == 0 {
        Map::empty()
    } else {
        let before = service_data_of_entries(entries.drop_last());
        match service_entry(entries.last()) {
            Some((service, bytes)) => before.insert(service, bytes),
            None => before,
        }
    }
}

/// The service data that `value` holds: that of its entries where it is a
/// dictionary, and none otherwise.
pub open spec fn service_data_of(value: Value) -> Map<Seq<char>, Seq<u8>> {
    match value.entries() {
        Some(entries) => service_data_of_entries(entries),
        None => Map::empty(),
    }
}

/// The service data among the properties of a device.
pub open spec fn advertised_service_data(properties: Seq<Property>) -> Map<Seq<char>, Seq<u8>> {
    match find_property(properties, "ServiceData"@) {
        Some(value) => service_data_of(value),
        None => Map::empty(),
    }
}

/// What is known of a device, as plain mathematical values.
pub ghost struct DeviceInfoView {
    pub id: Seq<char>,
    pub mac_address: Seq<char>,
    pub name: Option<Seq<char>>,
    pub service_data: Map<Seq<char>, Seq<u8>>,
}

/// Information about a Bluetooth device which was discovered.
#[derive(Clone, Debug)]
pub struct DeviceInfo {
    /// An opaque identifier for the device, including a reference to which
    /// adapter it was discovered on. This can be used to connect to it.
    pub id: DeviceId,
    /// The MAC address of the device.
    pub mac_address: MacAddress,
    /// The human-readable name of the device, if available.
    pub name: Option<String>,
    /// The GATT service data from the device's advertisement, if any.
    pub service_data: ServiceData,
}

impl View for DeviceInfo {
    type V = DeviceInfoView;

    open spec fn view(&self) -> DeviceInfoView {
        DeviceInfoView {
            id: self.id@,
            mac_address: self.mac_address@,
            name: match self.name {
                Some(name) => Some(name@),
                None => None,
            },
            service_data: self.service_data@,
        }
    }
}

/// The device that `object` describes: an object with the device interface
/// and an address that is a string. The name is taken where it is a string.
pub open spec fn device_of(object: ManagedObject) -> Option<DeviceInfoView> {
    match find_interface(object.interfaces@, device_interface()) {
        Some(properties) => match text_property(properties, "Address"@) {
            Some(address) => Some(
                DeviceInfoView {
                    id: object.path@,
                    mac_address: address,
                    name: text_property(properties, "Name"@),
                    service_data: advertised_service_data(properties),
                },
            ),
            None => None,
        },
        None => None,
    }
}

/// The devices among `objects`, in their order.
pub open spec fn devices_of(objects: Seq<ManagedObject>) -> Seq<DeviceInfoView>
    decreases objects.len(),
{
    if objects.len() == 0 {
        Seq::empty()
    } else {
        let before = devices_of(objects.drop_last());
        match device_of(objects.last()) {
            Some(device) => before.push(device),
            None => before,
        }
    }
}

/// Whether `object` is an adapter.
pub open spec fn is_adapter(object: ManagedObject) -> bool {
    find_interface(object.interfaces@, adapter_interface()) is Some
}

/// The paths of the adapters among `objects`, in their order.
pub open spec fn adapters_of(objects: Seq<ManagedObject>) -> Seq<Seq<char>>
    decreases objects.len(),
{
    if objects.len() == 0 {
        Seq::empty()
    } else {
        let before = adapters_of(objects.drop_last());
        if is_adapter(objects.last()) {
            before.push(objects.last().path@)
        } else {
            before
        }
    }
}

/// The value of the first property called `name`, if there is one.
pub fn property<'a>(properties: &'a Vec<Property>, name: &str) -> (r: Option<&'a Value>)
    ensures
        match r {
            Some(value) => find_property(properties@, name@) == Some(*value),
            None => find_property(properties@, name@) is None,
        },
{
    let mut i: usize = 0;
    assert(properties@.skip(0) =~= properties@);
    while i < properties.len()
        invariant
            i <= properties@.len(),
            find_property(properties@, name@) == find_property(properties@.skip(i as int), name@),
        decreases properties@.len() - i,
    {
        let ghost rest = properties@.skip(i as int);
        assert(rest[0] == properties@[i as int]);
        assert(rest.drop_first() =~= properties@.skip(i + 1));
        if text_is(properties[i].name.as_str(), name) {
            return Some(&properties[i].value);
        }
        i += 1;
    }
    None
}

/// The properties of the first interface called `name`, if there is one.
pub fn interface<'a>(interfaces: &'a Vec<Interface>, name: &str) -> (r: Option<&'a Vec<Property>>)
    ensures
        match r {
            Some(properties) => find_interface(interfaces@, name@) == Some(properties@),
            None => find_interface(interfaces@, name@) is None,
        },
{
    let mut i: usize = 0;
    assert(interfaces@.skip(0) =~= interfaces@);
    while i < interfaces.len()
        invariant
            i <= interfaces@.len(),
            find_interface(interfaces@, name@) == find_interface(
                interfaces@.skip(i as int),
                name@,
            ),
        decreases interfaces@.len() - i,
    {
        let ghost rest = interfaces@.skip(i as int);
        assert(rest[0] == interfaces@[i as int]);
        assert(rest.drop_first() =~= interfaces@.skip(i + 1));
        if text_is(interfaces[i].name.as_str(), name) {
            return Some(&interfaces[i].properties);
        }
        i += 1;
    }
    None
}

/// The text of the string property called `name`, if there is one.
fn text_of(properties: &Vec<Property>, name: &str) -> (r: Option<String>)
    ensures
        match r {
            Some(text) => text_property(properties@, name@) == Some(text@),
            None => text_property(properties@, name@) is None,
        },
{
    match property(properties, name) {
        Some(value) => match value.as_str() {
            Some(text) => Some(String::from_str(text)),
            None => None,
        },
        None => None,
    }
}

/// Reads service data out of the value of a `ServiceData` or like property: a
/// dictionary from a service's UUID to a variant around its bytes. Entries of
/// another shape are passed over, and a value that is no dictionary holds
/// none.
pub fn decode_service_data(value: &Value) -> (data: ServiceData)
    ensures
        data@ == service_data_of(*value),
{
    let mut data = ServiceData::new();
    match value.as_dict() {
        Some(entries) => {
            let mut i: usize = 0;
            while i < entries.len()
                invariant
                    i <= entries@.len(),
                    data@ == service_data_of_entries(entries@.take(i as int)),
                decreases entries@.len() - i,
            {
                let ghost next = entries@.take(i + 1);
                assert(next.drop_last() =~= entries@.take(i as int));
                assert(next.last() == entries@[i as int]);
                let entry = &entries[i];
                match (entry.0.as_str(), entry.1.as_variant()) {
                    (Some(service), Some(wrapped)) => match wrapped.as_bytes() {
                        Some(bytes) => {
                            data = data.insert(String::from_str(service), bytes);
                        },
                        None => {},
                    },
                    _ => {},
                }
                i += 1;
            }
            assert(entries@.take(i as int) =~= entries@);
            data
        },
        None => data,
    }
}

/// The device that `object` describes, if it describes one.
pub fn device_from_object(object: &ManagedObject) -> (r: Option<DeviceInfo>)
    ensures
        match r {
            Some(device) => device_of(*object) == Some(device@),
            None => device_of(*object) is None,
        },
{
    let properties = match interface(&object.interfaces, "org.bluez.Device1") {
        Some(properties) => properties,
        None => {
            return None;
        },
    };
    let address = match text_of(properties, "Address") {
        Some(address) => address,
        None => {
            return None;
        },
    };
    let name = text_of(properties, "Name");
    let service_data = match property(properties, "ServiceData") {
        Some(value) => decode_service_data(value),
        None => ServiceData::new(),
    };
    Some(
        DeviceInfo {
            id: DeviceId::new(object.path.as_str()),
            mac_address: MacAddress::from_reported(address.as_str()),
            name,
            service_data,
        },
    )
}

/// The views of a list of devices.
pub open spec fn device_views(devices: Seq<DeviceInfo>) -> Seq<DeviceInfoView> {
    devices.map_values(|device: DeviceInfo| device@)
}

/// All devices in the daemon's tree, in the order of `objects`. An object
/// without the device interface, or without an address that is a string, is
/// passed over.
pub fn get_devices(objects: &Vec<ManagedObject>) -> (devices: Vec<DeviceInfo>)
    ensures
        device_views(devices@) == devices_of(objects@),
{
    let mut devices: Vec<DeviceInfo> = Vec::new();
    let mut i: usize = 0;
    while i < objects.len()
        invariant
            i <= objects@.len(),
            device_views(devices@) == devices_of(objects@.take(i as int)),
        decreases objects@.len() - i,
    {
        let ghost next = objects@.take(i + 1);
        assert(next.drop_last() =~= objects@.take(i as int));
        assert(next.last() == objects@[i as int]);
        let ghost before = devices@;
        match device_from_object(&objects[i]) {
            Some(device) => {
                devices.push(device);
                assert(device_views(devices@) =~= device_views(before).push(device@));
            },
            None => {},
        }
        i += 1;
    }
    assert(objects@.take(i as int) =~= objects@);
    devices
}

/// The views of a list of adapter identifiers.
pub open spec fn adapter_paths(adapters: Seq<AdapterId>) -> Seq<Seq<char>> {
    adapters.map_values(|adapter: AdapterId| adapter@)
}

/// The adapters in the daemon's tree, in the order of `objects`. That there
/// is none is an error.
pub fn get_adapters(objects: &Vec<ManagedObject>) -> (r: Result<Vec<AdapterId>, BluetoothError>)
    ensures
        match r {
            Ok(adapters) => adapters@.len() > 0 && adapter_paths(adapters@) == adapters_of(
                objects@,
            ),
            Err(e) => e is NoBluetoothAdapters && adapters_of(objects@).len() == 0,
        },
{
    let mut adapters: Vec<AdapterId> = Vec::new();
    let mut i: usize = 0;
    while i < objects.len()
        invariant
            i <= objects@.len(),
            adapter_paths(adapters@) == adapters_of(objects@.take(i as int)),
        decreases objects@.len() - i,
    {
        let ghost next = objects@.take(i + 1);
        assert(next.drop_last() =~= objects@.take(i as int));
        assert(next.last() == objects@[i as int]);
        let ghost before = adapters@;
        if interface(&objects[i].interfaces, "org.bluez.Adapter1").is_some() {
            let adapter = AdapterId::new(objects[i].path.as_str());
            adapters.push(adapter);
            assert(adapter_paths(adapters@) =~= adapter_paths(before).push(adapter@));
        }
        i += 1;
    }
    assert(objects@.take(i as int) =~= objects@);
    if adapters.len() == 0 {
        Err(BluetoothError::NoBluetoothAdapters)
    } else {
        Ok(adapters)
    }
}

/// One step of starting discovery on every adapter.
#[derive(Clone, Copy, Debug, PartialEq, Eq)]
pub enum DiscoveryStep {
    /// Power on the adapter with this index.
    PowerOn { adapter: usize },
    /// Ask the adapter with this index to scan.
    StartScan { adapter: usize },
    /// Every adapter has been dealt with.
    Done,
    /// Powering on an adapter failed, which ends the operation with that
    /// failure.
    Failed,
}

/// The step that follows `last`, which ended well or not, with `count`
/// adapters in all.
///
/// Each adapter is powered on, then asked to scan, one adapter after the
/// other. An adapter that cannot be powered on ends the operation. One that
/// refuses to scan does not: the next adapter is still dealt with.
pub open spec fn step_after(count: usize, last: Option<(DiscoveryStep, bool)>) -> DiscoveryStep {
    match last {
        None => if count > 0 {
            DiscoveryStep::PowerOn { adapter: 0 }
        } else {
            DiscoveryStep::Done
        },
        Some((DiscoveryStep::PowerOn { adapter }, succeeded)) => if succeeded {
            DiscoveryStep::StartScan { adapter }
        } else {
            DiscoveryStep::Failed
        },
        Some((DiscoveryStep::StartScan { adapter }, _)) => if adapter + 1 < count {
            DiscoveryStep::PowerOn { adapter: (adapter + 1) as usize }
        } else {
            DiscoveryStep::Done
        },
        Some((DiscoveryStep::Done, _)) => DiscoveryStep::Done,
        Some((DiscoveryStep::Failed, _)) => DiscoveryStep::Failed,
    }
}

/// What to do next when starting discovery: `last` is the step just taken
/// and whether it succeeded, or `None` before the first step.
pub fn next_discovery_step(count: usize, last: Option<(DiscoveryStep, bool)>) -> (next:
    DiscoveryStep)
    ensures
        next == step_after(count, last),
{
    match last {
        None => {
            if count > 0 {
                DiscoveryStep::PowerOn { adapter: 0 }
            } else {
                DiscoveryStep::Done
            }
        },
        Some((DiscoveryStep::PowerOn { adapter }, succeeded)) => {
            if succeeded {
                DiscoveryStep::StartScan { adapter }
            } else {
                DiscoveryStep::Failed
            }
        },
        Some((DiscoveryStep::StartScan { adapter }, _)) => {
            if adapter < usize::MAX && adapter + 1 < count {
                DiscoveryStep::PowerOn { adapter: adapter + 1 }
            } else {
                DiscoveryStep::Done
            }
        },
        Some((DiscoveryStep::Done, _)) => DiscoveryStep::Done,
        Some((DiscoveryStep::Failed, _)) => DiscoveryStep::Failed,
    }
}

/// A failed scan request never ends the operation, and never skips an
/// adapter: whatever the outcome of a scan request, the step after it is the
/// same.
pub proof fn lemma_scan_failure_is_not_fatal(count: usize, adapter: usize)
    ensures
        step_after(count, Some((DiscoveryStep::StartScan { adapter }, false))) == step_after(
            count,
            Some((DiscoveryStep::StartScan { adapter }, true)),
        ),
        step_after(count, Some((DiscoveryStep::StartScan { adapter }, false)))
            != DiscoveryStep::Failed,
{
}

} // verus!
