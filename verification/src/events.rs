//! Decoding of the daemon's signals into typed events.
//!
//! The daemon announces three kinds of change: an object with its interfaces
//! was added, interfaces of an object were removed, and properties of one
//! interface of an object changed. Each signal becomes zero or more events; a
//! signal whose arguments do not have the shape of its kind becomes none, and
//! has no effect on the signals after it.

use crate::discovery::{adapter_interface, decode_service_data, device_interface, service_data_of};
use crate::error::MalformedMessage;
use crate::id::{AdapterId, CharacteristicId, DeviceId};
use crate::service_data::ServiceData;
use crate::value::{text_is, Value};
use std::collections::HashMap;
use vstd::prelude::*;
use vstd::string::*;

verus! {

broadcast use vstd::std_specs::hash::group_hash_axioms;

/// The interface that every GATT characteristic has.
pub open spec fn characteristic_interface() -> Seq<char> {
    "org.bluez.GattCharacteristic1"@
}

/// The interface whose signals announce added and removed objects.
pub open spec fn object_manager_interface() -> Seq<char> {
    "org.freedesktop.DBus.ObjectManager"@
}

/// The interface whose signal announces changed properties.
pub open spec fn properties_interface() -> Seq<char> {
    "org.freedesktop.DBus.Properties"@
}

/// A signal as it came over the bus: the object that sent it, the interface
/// and member that name its kind, and its arguments.
#[derive(Debug)]
pub struct Message {
    pub path: String,
    pub interface: String,
    pub member: String,
    pub body: Vec<Value>,
}

/// The kinds of signal that are understood.
#[derive(Clone, Copy, Debug, PartialEq, Eq)]
pub enum SignalKind {
    /// An object was added: its path, and a dictionary from each of its
    /// interfaces to that interface's properties.
    InterfacesAdded,
    /// Interfaces of an object were removed: its path, and their names.
    InterfacesRemoved,
    /// Properties changed: the interface, a dictionary from each changed
    /// property to its new value, and the names of those that lost theirs.
    PropertiesChanged,
}

/// The kinds of object whose properties are followed.
#[derive(Clone, Copy, Debug, PartialEq, Eq)]
pub enum Target {
    Adapter,
    Device,
    Characteristic,
}

/// An event relating to a Bluetooth adapter.
#[derive(Clone, Copy, Debug, PartialEq, Eq)]
pub enum AdapterEvent {
    /// The adapter has been powered on or off.
    Powered { powered: bool },
    /// The adapter has started or stopped scanning for devices.
    Discovering { discovering: bool },
}

/// An event relating to a Bluetooth device.
#[derive(Clone, Debug)]
pub enum DeviceEvent {
    /// The daemon has come to know the device.
    Discovered,
    /// The daemon has forgotten the device.
    Removed,
    /// The device has connected or disconnected.
    Connected { connected: bool },
    /// A new value is available for the signal strength of the device.
    Rssi { rssi: i16 },
    /// The device has advertised new service data.
    ServiceData { service_data: ServiceData },
    /// The device has advertised new manufacturer-specific data, keyed by
    /// the manufacturer's number.
    ManufacturerData { manufacturer_data: HashMap<u16, Vec<u8>> },
}

/// An event relating to a GATT characteristic.
#[derive(Clone, Debug, PartialEq, Eq)]
pub enum CharacteristicEvent {
    /// A new value of the characteristic has been received.
    Value { value: Vec<u8> },
}

/// An event relating to a Bluetooth adapter, device or characteristic.
#[derive(Clone, Debug)]
pub enum BluetoothEvent {
    /// An event related to an adapter.
    Adapter { id: AdapterId, event: AdapterEvent },
    /// An event related to a device.
    Device { id: DeviceId, event: DeviceEvent },
    /// An event related to a characteristic.
    Characteristic { id: CharacteristicId, event: CharacteristicEvent },
}

/// A device event as plain mathematical values.
pub ghost enum DeviceEventView {
    Discovered,
    Removed,
    Connected { connected: bool },
    Rssi { rssi: i16 },
    ServiceData { service_data: Map<Seq<char>, Seq<u8>> },
    ManufacturerData { manufacturer_data: Map<u16, Seq<u8>> },
}

/// An event as plain mathematical values.
pub ghost enum EventView {
    Adapter { id: Seq<char>, event: AdapterEvent },
    Device { id: Seq<char>, event: DeviceEventView },
    Characteristic { id: Seq<char>, value: Seq<u8> },
}

/// A table of byte strings with each of them as a sequence.
pub open spec fn byte_table(table: Map<u16, Vec<u8>>) -> Map<u16, Seq<u8>> {
    table.map_values(|bytes: Vec<u8>| bytes@)
}

impl View for DeviceEvent {
    type V = DeviceEventView;

    open spec fn view(&self) -> DeviceEventView {
        match self {
            DeviceEvent::Discovered => DeviceEventView::Discovered,
            DeviceEvent::Removed => DeviceEventView::Removed,
            DeviceEvent::Connected { connected } => DeviceEventView::Connected {
                connected: *connected,
            },
            DeviceEvent::Rssi { rssi } => DeviceEventView::Rssi { rssi: *rssi },
            DeviceEvent::ServiceData { service_data } => DeviceEventView::ServiceData {
                service_data: service_data@,
            },
            DeviceEvent::ManufacturerData { manufacturer_data } => DeviceEventView::ManufacturerData {
                manufacturer_data: byte_table(manufacturer_data@),
            },
        }
    }
}

impl View for BluetoothEvent {
    type V = EventView;

    open spec fn view(&self) -> EventView {
        match self {
            BluetoothEvent::Adapter { id, event } => EventView::Adapter { id: id@, event: *event },
            BluetoothEvent::Device { id, event } => EventView::Device { id: id@, event: event@ },
            BluetoothEvent::Characteristic { id, event } => match event {
                CharacteristicEvent::Value { value } => EventView::Characteristic {
                    id: id@,
                    value: value@,
                },
            },
        }
    }
}

/// The views of a list of events.
pub open spec fn event_views(events: Seq<BluetoothEvent>) -> Seq<EventView> {
    events.map_values(|event: BluetoothEvent| event@)
}

/// The kind of signal that `message` is, going by its interface and member.
pub open spec fn kind_of(message: Message) -> Option<SignalKind> {
    if message.interface@ == object_manager_interface() && message.member@ == "InterfacesAdded"@ {
        Some(SignalKind::InterfacesAdded)
    } else if message.interface@ == object_manager_interface() && message.member@
        == "InterfacesRemoved"@ {
        Some(SignalKind::InterfacesRemoved)
    } else if message.interface@ == properties_interface() && message.member@
        == "PropertiesChanged"@ {
        Some(SignalKind::PropertiesChanged)
    } else {
        None
    }
}

/// Whether the arguments of `message` have the shape of its kind. A message
/// of no known kind has nothing to be held to.
pub open spec fn well_formed(message: Message) -> bool {
    let body = message.body@;
    match kind_of(message) {
        Some(SignalKind::InterfacesAdded) => {
            &&& body.len() == 2
            &&& body[0].text() is Some
            &&& body[1].entries() is Some
        },
        Some(SignalKind::InterfacesRemoved) => {
            &&& body.len() == 2
            &&& body[0].text() is Some
            &&& body[1].items() is Some
        },
        Some(SignalKind::PropertiesChanged) => {
            &&& body.len() == 3
            &&& body[0].text() is Some
            &&& body[1].entries() is Some
            &&& body[2].items() is Some
        },
        None => true,
    }
}

/// Whether one of the keys of `entries` is the string `name`.
pub open spec fn has_key(entries: Seq<(Value, Value)>, name: Seq<char>) -> bool {
    exists|i: int| 0 <= i < entries.len() && (#[trigger] entries[i]).0.text() == Some(name)
}

/// Whether one of `items` is the string `name`.
pub open spec fn has_item(items: Seq<Value>, name: Seq<char>) -> bool {
    exists|i: int| 0 <= i < items.len() && (#[trigger] items[i]).text() == Some(name)
}

/// The kind of object that has the interface `interface`.
pub open spec fn target_of(interface: Seq<char>) -> Option<Target> {
    if interface == adapter_interface() {
        Some(Target::Adapter)
    } else if interface == device_interface() {
        Some(Target::Device)
    } else if interface == characteristic_interface() {
        Some(Target::Characteristic)
    } else {
        None
    }
}

/// What one entry of a manufacturer-data dictionary says: the manufacturer's
/// number and the bytes sent for it.
pub open spec fn manufacturer_entry(entry: (Value, Value)) -> Option<(u16, Seq<u8>)> {
    match (entry.0.unsigned_short(), entry.1.inner()) {
        (Some(manufacturer), Some(wrapped)) => match wrapped.bytes() {
            Some(bytes) => Some((manufacturer, bytes)),
            None => None,
        },
        _ => None,
    }
}

/// The manufacturer data that the entries of a dictionary hold, entry by
/// entry, passing over those that cannot be read; an entry further back
/// replaces one before it for the same manufacturer.
pub open spec fn manufacturer_data_of_entries(entries: Seq<(Value, Value)>) -> Map<u16, Seq<u8>>
    decreases entries.len(),
{
    if entries.len() == 0 {
        Map::empty()
    } else {
        let before = manufacturer_data_of_entries(entries.drop_last());
        match manufacturer_entry(entries.last()) {
            Some((manufacturer, bytes)) => before.insert(manufacturer, bytes),
            None => before,
        }
    }
}

/// The manufacturer data that `value` holds: that of its entries where it is
/// a dictionary, and none otherwise.
pub open spec fn manufacturer_data_of(value: Value) -> Map<u16, Seq<u8>> {
    match value.entries() {
        Some(entries) => manufacturer_data_of_entries(entries),
        None => Map::empty(),
    }
}

/// The event that a new value of the property `name` of an object of kind
/// `target` at `path` stands for. A property that is not followed, or whose
/// value has not the type that the property should have, stands for none.
pub open spec fn property_event(target: Target, path: Seq<char>, name: Seq<char>, value: Value)
    -> Option<EventView> {
    match target {
        Target::Adapter => if name == "Powered"@ {
            match value.flag() {
                Some(powered) => Some(
                    EventView::Adapter { id: path, event: AdapterEvent::Powered { powered } },
                ),
                None => None,
            }
        } else if name == "Discovering"@ {
            match value.flag() {
                Some(discovering) => Some(
                    EventView::Adapter {
                        id: path,
                        event: AdapterEvent::Discovering { discovering },
                    },
                ),
                None => None,
            }
        } else {
            None
        },
        Target::Device => if name == "RSSI"@ {
            match value.short() {
                Some(rssi) => Some(
                    EventView::Device { id: path, event: DeviceEventView::Rssi { rssi } },
                ),
                None => None,
            }
        } else if name == "Connected"@ {
            match value.flag() {
                Some(connected) => Some(
                    EventView::Device { id: path, event: DeviceEventView::Connected { connected } },
                ),
                None => None,
            }
        } else if name == "ServiceData"@ {
            if value.entries() is Some {
                Some(
                    EventView::Device {
                        id: path,
                        event: DeviceEventView::ServiceData {
                            service_data: service_data_of(value),
                        },
                    },
                )
            } else {
                None
            }
        } else if name == "ManufacturerData"@ {
            if value.entries() is Some {
                Some(
                    EventView::Device {
                        id: path,
                        event: DeviceEventView::ManufacturerData {
                            manufacturer_data: manufacturer_data_of(value),
                        },
                    },
                )
            } else {
                None
            }
        } else {
            None
        },
        Target::Characteristic => if name == "Value"@ {
            match value.bytes() {
                Some(bytes) => Some(EventView::Characteristic { id: path, value: bytes }),
                None => None,
            }
        } else {
            None
        },
    }
}

/// The event that one entry of the dictionary of changed properties stands
/// for: its key is the property's name and its value a variant around the new
/// value.
pub open spec fn entry_event(target: Target, path: Seq<char>, entry: (Value, Value)) -> Option<
    EventView,
> {
    match (entry.0.text(), entry.1.inner()) {
        (Some(name), Some(value)) => property_event(target, path, name, value),
        _ => None,
    }
}

/// The events that the changed properties stand for, in the order of the
/// entries.
pub open spec fn changed_events(target: Target, path: Seq<char>, entries: Seq<(Value, Value)>)
    -> Seq<EventView>
    decreases entries.len(),
{
    if entries.len() == 0 {
        Seq::empty()
    } else {
        let before = changed_events(target, path, entries.drop_last());
        match entry_event(target, path, entries.last()) {
            Some(event) => before.push(event),
            None => before,
        }
    }
}

/// The events that `message` stands for.
///
/// An added object that has the device interface is a discovered device; a
/// removed device interface is a removed device. Changed properties of an
/// adapter, a device or a characteristic give one event for each property
/// that is followed; the names of properties that lost their value give
/// none. A message that is not well formed, or of no known kind, gives none.
pub open spec fn events_of(message: Message) -> Seq<EventView> {
    let body = message.body@;
    if !well_formed(message) {
        Seq::empty()
    } else {
        match kind_of(message) {
            Some(SignalKind::InterfacesAdded) => if has_key(
                body[1].entries()->Some_0,
                device_interface(),
            ) {
                seq![
                    EventView::Device {
                        id: body[0].text()->Some_0,
                        event: DeviceEventView::Discovered,
                    },
                ]
            } else {
                Seq::empty()
            },
            Some(SignalKind::InterfacesRemoved) => if has_item(
                body[1].items()->Some_0,
                device_interface(),
            ) {
                seq![
                    EventView::Device {
                        id: body[0].text()->Some_0,
                        event: DeviceEventView::Removed,
                    },
                ]
            } else {
                Seq::empty()
            },
            Some(SignalKind::PropertiesChanged) => match target_of(body[0].text()->Some_0) {
                Some(target) => changed_events(
                    target,
                    message.path@,
                    body[1].entries()->Some_0,
                ),
                None => Seq::empty(),
            },
            None => Seq::empty(),
        }
    }
}

/// The events that a run of messages stands for: those of each message, in
/// the order of the messages.
pub open spec fn all_events(messages: Seq<Message>) -> Seq<EventView>
    decreases messages.len(),
{
    if messages.len() == 0 {
        Seq::empty()
    } else {
        all_events(messages.drop_last()) + events_of(messages.last())
    }
}

/// The events of two runs of messages, one after the other, are the events of
/// the first run followed by those of the second: nothing is held back or
/// moved across a message.
pub proof fn lemma_all_events_of_two_runs(first: Seq<Message>, second: Seq<Message>)
    ensures
        all_events(first + second) == all_events(first) + all_events(second),
    decreases second.len(),
{
    if second.len() == 0 {
        assert(first + second =~= first);
        assert(all_events(first) + all_events(second) =~= all_events(first));
    } else {
        let both = first + second;
        assert(both.drop_last() =~= first + second.drop_last());
        assert(both.last() == second.last());
        lemma_all_events_of_two_runs(first, second.drop_last());
        assert(all_events(both) =~= all_events(first) + all_events(second));
    }
}

/// A message that is not well formed leaves no trace: the events of a run
/// with such a message in it are those of the run without it.
pub proof fn lemma_malformed_message_is_passed_over(
    before: Seq<Message>,
    malformed: Message,
    after: Seq<Message>,
)
    requires
        !well_formed(malformed),
    ensures
        all_events(before + seq![malformed] + after) == all_events(before) + all_events(after),
        all_events(before + seq![malformed] + after) == all_events(before + after),
{
    let one = seq![malformed];
    lemma_all_events_of_two_runs(before + one, after);
    lemma_all_events_of_two_runs(before, one);
    lemma_all_events_of_two_runs(before, after);
    assert(one.drop_last() =~= Seq::<Message>::empty());
    assert(all_events(one) =~= Seq::<EventView>::empty()) by {
        assert(all_events(one.drop_last()) =~= Seq::<EventView>::empty());
        assert(events_of(one.last()) =~= Seq::<EventView>::empty());
    }
    assert(all_events(before) + all_events(one) =~= all_events(before));
}

/// The kind of signal that `message` is.
pub fn signal_kind(message: &Message) -> (kind: Option<SignalKind>)
    ensures
        kind == kind_of(*message),
{
    let interface = message.interface.as_str();
    let member = message.member.as_str();
    if text_is(interface, "org.freedesktop.DBus.ObjectManager") && text_is(
        member,
        "InterfacesAdded",
    ) {
        Some(SignalKind::InterfacesAdded)
    } else if text_is(interface, "org.freedesktop.DBus.ObjectManager") && text_is(
        member,
        "InterfacesRemoved",
    ) {
        Some(SignalKind::InterfacesRemoved)
    } else if text_is(interface, "org.freedesktop.DBus.Properties") && text_is(
        member,
        "PropertiesChanged",
    ) {
        Some(SignalKind::PropertiesChanged)
    } else {
        None
    }
}

/// The kind of object that has the interface `interface`.
pub fn target(interface: &str) -> (r: Option<Target>)
    ensures
        r == target_of(interface@),
{
    if text_is(interface, "org.bluez.Adapter1") {
        Some(Target::Adapter)
    } else if text_is(interface, "org.bluez.Device1") {
        Some(Target::Device)
    } else if text_is(interface, "org.bluez.GattCharacteristic1") {
        Some(Target::Characteristic)
    } else {
        None
    }
}

/// Whether one of the keys of `entries` is the string `name`.
fn contains_key(entries: &Vec<(Value, Value)>, name: &str) -> (r: bool)
    ensures
        r == has_key(entries@, name@),
{
    let mut i: usize = 0;
    while i < entries.len()
        invariant
            i <= entries@.len(),
            forall|j: int| 0 <= j < i ==> (#[trigger] entries@[j]).0.text() != Some(name@),
        decreases entries@.len() - i,
    {
        match entries[i].0.as_str() {
            Some(key) => {
                if text_is(key, name) {
                    return true;
                }
            },
            None => {},
        }
        i += 1;
    }
    false
}

/// Whether one of `items` is the string `name`.
fn contains_item(items: &Vec<Value>, name: &str) -> (r: bool)
    ensures
        r == has_item(items@, name@),
{
    let mut i: usize = 0;
    while i < items.len()
        invariant
            i <= items@.len(),
            forall|j: int| 0 <= j < i ==> (#[trigger] items@[j]).text() != Some(name@),
        decreases items@.len() - i,
    {
        match items[i].as_str() {
            Some(item) => {
                if text_is(item, name) {
                    return true;
                }
            },
            None => {},
        }
        i += 1;
    }
    false
}

/// Reads manufacturer data out of the value of a `ManufacturerData`
/// property: a dictionary from a manufacturer's number to a variant around
/// its bytes. Entries of another shape are passed over, and a value that is
/// no dictionary holds none.
pub fn decode_manufacturer_data(value: &Value) -> (data: HashMap<u16, Vec<u8>>)
    ensures
        byte_table(data@) == manufacturer_data_of(*value),
{
    let mut data: HashMap<u16, Vec<u8>> = HashMap::new();
    assert(byte_table(data@) =~= Map::<u16, Seq<u8>>::empty());
    match value.as_dict() {
        Some(entries) => {
            let mut i: usize = 0;
            while i < entries.len()
                invariant
                    i <= entries@.len(),
                    byte_table(data@) == manufacturer_data_of_entries(entries@.take(i as int)),
                decreases entries@.len() - i,
            {
                let ghost next = entries@.take(i + 1);
                assert(next.drop_last() =~= entries@.take(i as int));
                assert(next.last() == entries@[i as int]);
                let entry = &entries[i];
                match (entry.0.as_u16(), entry.1.as_variant()) {
                    (Some(manufacturer), Some(wrapped)) => match wrapped.as_bytes() {
                        Some(bytes) => {
                            let ghost before = data@;
                            data.insert(manufacturer, bytes);
                            assert(byte_table(data@) =~= byte_table(before).insert(
                                manufacturer,
                                bytes@,
                            ));
                        },
                        None => {},
                    },
                    _ => {},
                }
                i += 1;
            }
            assert(entries@.take(i as int) =~= entries@);
            data
        },
        None => data,
    }
}

/// The event that a new value of the property `name` stands for, if it stands
/// for one.
pub fn event_of_property(target: Target, path: &str, name: &str, value: &Value) -> (r: Option<
    BluetoothEvent,
>)
    ensures
        match r {
            Some(event) => property_event(target, path@, name@, *value) == Some(event@),
            None => property_event(target, path@, name@, *value) is None,
        },
{
    match target {
        Target::Adapter => {
            if text_is(name, "Powered") {
                match value.as_bool() {
                    Some(powered) => Some(
                        BluetoothEvent::Adapter {
                            id: AdapterId::new(path),
                            event: AdapterEvent::Powered { powered },
                        },
                    ),
                    None => None,
                }
            } else if text_is(name, "Discovering") {
                match value.as_bool() {
                    Some(discovering) => Some(
                        BluetoothEvent::Adapter {
                            id: AdapterId::new(path),
                            event: AdapterEvent::Discovering { discovering },
                        },
                    ),
                    None => None,
                }
            } else {
                None
            }
        },
        Target::Device => {
            if text_is(name, "RSSI") {
                match value.as_i16() {
                    Some(rssi) => Some(
                        BluetoothEvent::Device {
                            id: DeviceId::new(path),
                            event: DeviceEvent::Rssi { rssi },
                        },
                    ),
                    None => None,
                }
            } else if text_is(name, "Connected") {
                match value.as_bool() {
                    Some(connected) => Some(
                        BluetoothEvent::Device {
                            id: DeviceId::new(path),
                            event: DeviceEvent::Connected { connected },
                        },
                    ),
                    None => None,
                }
            } else if text_is(name, "ServiceData") {
                if value.as_dict().is_some() {
                    Some(
                        BluetoothEvent::Device {
                            id: DeviceId::new(path),
                            event: DeviceEvent::ServiceData {
                                service_data: decode_service_data(value),
                            },
                        },
                    )
                } else {
                    None
                }
            } else if text_is(name, "ManufacturerData") {
                if value.as_dict().is_some() {
                    Some(
                        BluetoothEvent::Device {
                            id: DeviceId::new(path),
                            event: DeviceEvent::ManufacturerData {
                                manufacturer_data: decode_manufacturer_data(value),
                            },
                        },
                    )
                } else {
                    None
                }
            } else {
                None
            }
        },
        Target::Characteristic => {
            if text_is(name, "Value") {
                match value.as_bytes() {
                    Some(bytes) => Some(
                        BluetoothEvent::Characteristic {
                            id: CharacteristicId::new(path),
                            event: CharacteristicEvent::Value { value: bytes },
                        },
                    ),
                    None => None,
                }
            } else {
                None
            }
        },
    }
}

/// The events that the changed properties of an object stand for.
pub fn events_of_changes(target: Target, path: &str, entries: &Vec<(Value, Value)>) -> (events:
    Vec<BluetoothEvent>)
    ensures
        event_views(events@) == changed_events(target, path@, entries@),
{
    let mut events: Vec<BluetoothEvent> = Vec::new();
    let mut i: usize = 0;
    while i < entries.len()
        invariant
            i <= entries@.len(),
            event_views(events@) == changed_events(target, path@, entries@.take(i as int)),
        decreases entries@.len() - i,
    {
        let ghost next = entries@.take(i + 1);
        assert(next.drop_last() =~= entries@.take(i as int));
        assert(next.last() == entries@[i as int]);
        let ghost before = events@;
        let entry = &entries[i];
        match (entry.0.as_str(), entry.1.as_variant()) {
            (Some(name), Some(value)) => match event_of_property(target, path, name, value) {
                Some(event) => {
                    events.push(event);
                    assert(event_views(events@) =~= event_views(before).push(event@));
                },
                None => {},
            },
            _ => {},
        }
        i += 1;
    }
    assert(entries@.take(i as int) =~= entries@);
    events
}

impl BluetoothEvent {
    /// Decodes one signal. A signal whose arguments have not the shape of
    /// its kind is refused; any other gives its events, which may be none.
    pub fn decode(message: &Message) -> (r: Result<Vec<BluetoothEvent>, MalformedMessage>)
        ensures
            match r {
                Ok(events) => well_formed(*message) && event_views(events@) == events_of(
                    *message,
                ),
                Err(_) => !well_formed(*message),
            },
    {
        let body = &message.body;
        match signal_kind(message) {
            Some(SignalKind::InterfacesAdded) => {
                if body.len() != 2 {
                    return Err(MalformedMessage);
                }
                match (body[0].as_str(), body[1].as_dict()) {
                    (Some(path), Some(interfaces)) => {
                        let mut events: Vec<BluetoothEvent> = Vec::new();
                        if contains_key(interfaces, "org.bluez.Device1") {
                            let event = BluetoothEvent::Device {
                                id: DeviceId::new(path),
                                event: DeviceEvent::Discovered,
                            };
                            events.push(event);
                            assert(event_views(events@) =~= seq![event@]);
                        } else {
                            assert(event_views(events@) =~= Seq::<EventView>::empty());
                        }
                        Ok(events)
                    },
                    _ => Err(MalformedMessage),
                }
            },
            Some(SignalKind::InterfacesRemoved) => {
                if body.len() != 2 {
                    return Err(MalformedMessage);
                }
                match (body[0].as_str(), body[1].as_array()) {
                    (Some(path), Some(interfaces)) => {
                        let mut events: Vec<BluetoothEvent> = Vec::new();
                        if contains_item(interfaces, "org.bluez.Device1") {
                            let event = BluetoothEvent::Device {
                                id: DeviceId::new(path),
                                event: DeviceEvent::Removed,
                            };
                            events.push(event);
                            assert(event_views(events@) =~= seq![event@]);
                        } else {
                            assert(event_views(events@) =~= Seq::<EventView>::empty());
                        }
                        Ok(events)
                    },
                    _ => Err(MalformedMessage),
                }
            },
            Some(SignalKind::PropertiesChanged) => {
                if body.len() != 3 {
                    return Err(MalformedMessage);
                }
                match (body[0].as_str(), body[1].as_dict(), body[2].as_array()) {
                    (Some(interface), Some(changed), Some(_)) => match target(interface) {
                        Some(target) => Ok(
                            events_of_changes(target, message.path.as_str(), changed),
                        ),
                        None => {
                            let events: Vec<BluetoothEvent> = Vec::new();
                            assert(event_views(events@) =~= Seq::<EventView>::empty());
                            Ok(events)
                        },
                    },
                    _ => Err(MalformedMessage),
                }
            },
            None => {
                let events: Vec<BluetoothEvent> = Vec::new();
                assert(event_views(events@) =~= Seq::<EventView>::empty());
                Ok(events)
            },
        }
    }

    /// The events that one signal stands for; none where it is malformed.
    pub fn message_to_events(message: &Message) -> (events: Vec<BluetoothEvent>)
        ensures
            event_views(events@) == events_of(*message),
    {
        match BluetoothEvent::decode(message) {
            Ok(events) => events,
            Err(_) => {
                let events: Vec<BluetoothEvent> = Vec::new();
                assert(event_views(events@) =~= Seq::<EventView>::empty());
                events
            },
        }
    }

    /// The events that a run of signals stands for, in the order of the
    /// signals.
    pub fn messages_to_events(messages: &Vec<Message>) -> (events: Vec<BluetoothEvent>)
        ensures
            event_views(events@) == all_events(messages@),
    {
        let mut events: Vec<BluetoothEvent> = Vec::new();
        assert(event_views(events@) =~= Seq::<EventView>::empty());
        let mut i: usize = 0;
        while i < messages.len()
            invariant
                i <= messages@.len(),
                event_views(events@) == all_events(messages@.take(i as int)),
            decreases messages@.len() - i,
        {
            let ghost next = messages@.take(i + 1);
            assert(next.drop_last() =~= messages@.take(i as int));
            assert(next.last() == messages@[i as int]);
            let ghost before = events@;
            let mut more = BluetoothEvent::message_to_events(&messages[i]);
            let ghost added = more@;
            events.append(&mut more);
            assert(event_views(events@) =~= event_views(before) + event_views(added));
            i += 1;
        }
        assert(messages@.take(i as int) =~= messages@);
        events
    }
}

} // verus!
