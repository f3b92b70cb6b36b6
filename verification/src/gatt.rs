//! GATT services and characteristics: finding them below a device, reading
//! their UUIDs, and looking one up by its UUID.

use crate::error::BluetoothError;
use crate::id::{child_path, lemma_parent_of_child, parent_path, separator};
use crate::id::{CharacteristicId, DeviceId, ServiceId};
use crate::value::{begins_with, has_prefix};
use vstd::prelude::*;
use vstd::string::*;

verus! {

/// The UUID that `uuid::Uuid::parse_str` reads out of `text`, as a 128-bit
/// number, or `None` where it refuses the text.
pub uninterp spec fn parsed_uuid(text: Seq<char>) -> Option<u128>;

/// `uuid::Uuid::parse_str`, with the UUID handed back as the 128-bit number
/// that `Uuid::as_u128` gives for it. The parser reads nothing but the text,
/// so the same text gives the same answer every time; which texts it accepts
/// is not stated here.
#[verifier::external_body]
fn parse_uuid_text(text: &str) -> (r: Result<u128, uuid::Error>)
    ensures
        match r {
            Ok(uuid) => parsed_uuid(text@) == Some(uuid),
            Err(_) => parsed_uuid(text@) is None,
        },
{
    match uuid::Uuid::parse_str(text) {
        Ok(uuid) => Ok(uuid.as_u128()),
        Err(e) => Err(e),
    }
}

/// What becomes of the parser's answer: its UUID, or its refusal as an error
/// of this library.
pub fn uuid_or_error(parsed: Result<u128, uuid::Error>) -> (r: Result<u128, BluetoothError>)
    ensures
        match parsed {
            Ok(uuid) => r == Ok::<u128, BluetoothError>(uuid),
            Err(e) => r == Err::<u128, BluetoothError>(BluetoothError::UUIDParseError(e)),
        },
{
    match parsed {
        Ok(uuid) => Ok(uuid),
        Err(e) => Err(BluetoothError::UUIDParseError(e)),
    }
}

/// Reads a UUID in any of the notations that the parser knows.
pub fn parse_uuid(text: &str) -> (r: Result<u128, BluetoothError>)
    ensures
        match r {
            Ok(uuid) => parsed_uuid(text@) == Some(uuid),
            Err(e) => e is UUIDParseError && parsed_uuid(text@) is None,
        },
{
    uuid_or_error(parse_uuid_text(text))
}

/// The prefix of the names under which a device's services appear.
pub open spec fn service_prefix() -> Seq<char> {
    "service"@
}

/// The prefix of the names under which a service's characteristics appear.
pub open spec fn characteristic_prefix() -> Seq<char> {
    "char"@
}

/// The paths of those children of `parent` whose names begin with `prefix`,
/// in the order of `names`.
pub open spec fn children_with_prefix(
    parent: Seq<char>,
    names: Seq<String>,
    prefix: Seq<char>,
) -> Seq<Seq<char>>
    decreases names.len(),
{
    if names.len() == 0 {
        Seq::empty()
    } else {
        let before = children_with_prefix(parent, names.drop_last(), prefix);
        if begins_with(names.last()@, prefix) {
            before.push(child_path(parent, names.last()@))
        } else {
            before
        }
    }
}

/// Every path that `children_with_prefix` gives has a separator, and so a
/// parent.
pub proof fn lemma_children_have_parent(parent: Seq<char>, names: Seq<String>, prefix: Seq<char>)
    ensures
        forall|i: int|
            0 <= i < children_with_prefix(parent, names, prefix).len() ==> (
            #[trigger] children_with_prefix(parent, names, prefix)[i]).contains(separator()),
    decreases names.len(),
{
    if names.len() > 0 {
        lemma_children_have_parent(parent, names.drop_last(), prefix);
        let all = children_with_prefix(parent, names, prefix);
        let before = children_with_prefix(parent, names.drop_last(), prefix);
        let child = child_path(parent, names.last()@);
        assert(child[parent.len() as int] == separator());
        assert forall|i: int| 0 <= i < all.len() implies (#[trigger] all[i]).contains(
            separator(),
        ) by {
            if i < before.len() {
                assert(all[i] == before[i]);
            } else {
                assert(all[i] == child);
            }
        }
    }
}

/// Where no name holds a separator, every path that `children_with_prefix`
/// gives has `parent` as its parent.
pub proof fn lemma_children_lie_below(parent: Seq<char>, names: Seq<String>, prefix: Seq<char>)
    requires
        forall|i: int| 0 <= i < names.len() ==> !(#[trigger] names[i])@.contains(separator()),
    ensures
        forall|i: int|
            0 <= i < children_with_prefix(parent, names, prefix).len() ==> parent_path(
                #[trigger] children_with_prefix(parent, names, prefix)[i],
            ) == parent,
    decreases names.len(),
{
    if names.len() > 0 {
        let front = names.drop_last();
        assert forall|i: int| 0 <= i < front.len() implies !(#[trigger] front[i])@.contains(
            separator(),
        ) by {
            assert(front[i] == names[i]);
        }
        lemma_children_lie_below(parent, front, prefix);
        assert(names.last() == names[names.len() - 1]);
        lemma_parent_of_child(parent, names.last()@);
        let all = children_with_prefix(parent, names, prefix);
        let before = children_with_prefix(parent, front, prefix);
        assert forall|i: int| 0 <= i < all.len() implies parent_path(#[trigger] all[i])
            == parent by {
            if i < before.len() {
                assert(all[i] == before[i]);
            } else {
                assert(all[i] == child_path(parent, names.last()@));
            }
        }
    }
}

/// `parent`, a separator and `name`, as one string.
fn join_path(parent: &str, name: &str) -> (path: String)
    ensures
        path@ == child_path(parent@, name@),
{
    let mut path = String::from_str(parent);
    path.append("/");
    path.append(name);
    proof {
        reveal_strlit("/");
        assert("/"@ =~= seq![separator()]);
    }
    path
}

/// The views of a list of service identifiers.
pub open spec fn service_paths(ids: Seq<ServiceId>) -> Seq<Seq<char>> {
    ids.map_values(|id: ServiceId| id@)
}

/// The views of a list of characteristic identifiers.
pub open spec fn characteristic_paths(ids: Seq<CharacteristicId>) -> Seq<Seq<char>> {
    ids.map_values(|id: CharacteristicId| id@)
}

/// The services among the children of `device`, whose names an introspection
/// of the device gave as `names`: those whose name begins with `service`, in
/// the order in which they were named.
pub fn service_ids(device: &DeviceId, names: &Vec<String>) -> (ids: Vec<ServiceId>)
    ensures
        service_paths(ids@) == children_with_prefix(device@, names@, service_prefix()),
        forall|i: int| 0 <= i < ids@.len() ==> (#[trigger] ids@[i]).well_formed(),
{
    let mut ids: Vec<ServiceId> = Vec::new();
    let mut i: usize = 0;
    while i < names.len()
        invariant
            i <= names@.len(),
            service_paths(ids@) == children_with_prefix(
                device@,
                names@.take(i as int),
                service_prefix(),
            ),
        decreases names@.len() - i,
    {
        let ghost next = names@.take(i + 1);
        assert(next.drop_last() =~= names@.take(i as int));
        assert(next.last() == names@[i as int]);
        let ghost before = ids@;
        if has_prefix(names[i].as_str(), "service") {
            let id = ServiceId { object_path: join_path(device.path(), names[i].as_str()) };
            ids.push(id);
            assert(service_paths(ids@) =~= service_paths(before).push(id@));
        }
        i += 1;
    }
    proof {
        assert(names@.take(i as int) =~= names@);
        lemma_children_have_parent(device@, names@, service_prefix());
        assert forall|k: int| 0 <= k < ids@.len() implies (#[trigger] ids@[k]).well_formed() by {
            assert(service_paths(ids@)[k] == ids@[k]@);
        }
    }
    ids
}

/// The characteristics among the children of `service`, whose names an
/// introspection of the service gave as `names`: those whose name begins with
/// `char`, in the order in which they were named.
pub fn characteristic_ids(service: &ServiceId, names: &Vec<String>) -> (ids: Vec<
    CharacteristicId,
>)
    ensures
        characteristic_paths(ids@) == children_with_prefix(
            service@,
            names@,
            characteristic_prefix(),
        ),
        forall|i: int| 0 <= i < ids@.len() ==> (#[trigger] ids@[i]).well_formed(),
{
    let mut ids: Vec<CharacteristicId> = Vec::new();
    let mut i: usize = 0;
    while i < names.len()
        invariant
            i <= names@.len(),
            characteristic_paths(ids@) == children_with_prefix(
                service@,
                names@.take(i as int),
                characteristic_prefix(),
            ),
        decreases names@.len() - i,
    {
        let ghost next = names@.take(i + 1);
        assert(next.drop_last() =~= names@.take(i as int));
        assert(next.last() == names@[i as int]);
        let ghost before = ids@;
        if has_prefix(names[i].as_str(), "char") {
            let id = CharacteristicId {
                object_path: join_path(service.path(), names[i].as_str()),
            };
            ids.push(id);
            assert(characteristic_paths(ids@) =~= characteristic_paths(before).push(id@));
        }
        i += 1;
    }
    proof {
        assert(names@.take(i as int) =~= names@);
        lemma_children_have_parent(service@, names@, characteristic_prefix());
        assert forall|k: int| 0 <= k < ids@.len() implies (#[trigger] ids@[k]).well_formed() by {
            assert(characteristic_paths(ids@)[k] == ids@[k]@);
        }
    }
    ids
}

/// Information about a GATT service on a Bluetooth device.
#[derive(Clone, Debug, PartialEq, Eq)]
pub struct ServiceInfo {
    /// An opaque identifier for the service on the device, including a
    /// reference to which adapter it was discovered on.
    pub id: ServiceId,
    /// The 128-bit UUID of the service.
    pub uuid: u128,
    /// Whether this GATT service is a primary service.
    pub primary: bool,
}

/// Information about a GATT characteristic on a Bluetooth device.
#[derive(Clone, Debug, PartialEq, Eq)]
pub struct CharacteristicInfo {
    /// An opaque identifier for the characteristic on the device, including a
    /// reference to which adapter it was discovered on.
    pub id: CharacteristicId,
    /// The 128-bit UUID of the characteristic.
    pub uuid: u128,
}

/// The service `id` with the UUID that the parser read for it, or the
/// parser's refusal.
pub fn service_info_from(id: ServiceId, uuid: Result<u128, uuid::Error>, primary: bool) -> (r:
    Result<ServiceInfo, BluetoothError>)
    ensures
        match uuid {
            Ok(uuid) => r == Ok::<ServiceInfo, BluetoothError>(ServiceInfo { id, uuid, primary }),
            Err(e) => r == Err::<ServiceInfo, BluetoothError>(BluetoothError::UUIDParseError(e)),
        },
{
    match uuid {
        Ok(uuid) => Ok(ServiceInfo { id, uuid, primary }),
        Err(e) => Err(BluetoothError::UUIDParseError(e)),
    }
}

/// The characteristic `id` with the UUID that the parser read for it, or the
/// parser's refusal.
pub fn characteristic_info_from(id: CharacteristicId, uuid: Result<u128, uuid::Error>) -> (r:
    Result<CharacteristicInfo, BluetoothError>)
    ensures
        match uuid {
            Ok(uuid) => r == Ok::<CharacteristicInfo, BluetoothError>(
                CharacteristicInfo { id, uuid },
            ),
            Err(e) => r == Err::<CharacteristicInfo, BluetoothError>(
                BluetoothError::UUIDParseError(e),
            ),
        },
{
    match uuid {
        Ok(uuid) => Ok(CharacteristicInfo { id, uuid }),
        Err(e) => Err(BluetoothError::UUIDParseError(e)),
    }
}

/// The service `id` as its properties describe it: `uuid` is the text of its
/// `UUID` property and `primary` its `Primary` flag.
pub fn get_service_info(id: ServiceId, uuid: &str, primary: bool) -> (r: Result<
    ServiceInfo,
    BluetoothError,
>)
    ensures
        match r {
            Ok(info) => parsed_uuid(uuid@) is Some && info == (ServiceInfo {
                id,
                uuid: parsed_uuid(uuid@)->Some_0,
                primary,
            }),
            Err(e) => e is UUIDParseError && parsed_uuid(uuid@) is None,
        },
{
    service_info_from(id, parse_uuid_text(uuid), primary)
}

/// The characteristic `id` as its properties describe it: `uuid` is the text
/// of its `UUID` property.
pub fn get_characteristic_info(id: CharacteristicId, uuid: &str) -> (r: Result<
    CharacteristicInfo,
    BluetoothError,
>)
    ensures
        match r {
            Ok(info) => parsed_uuid(uuid@) is Some && info == (CharacteristicInfo {
                id,
                uuid: parsed_uuid(uuid@)->Some_0,
            }),
            Err(e) => e is UUIDParseError && parsed_uuid(uuid@) is None,
        },
{
    characteristic_info_from(id, parse_uuid_text(uuid))
}

/// Whether `index` is the place of the first service with `uuid`.
pub open spec fn first_service_with(services: Seq<ServiceInfo>, uuid: u128, index: int) -> bool {
    &&& 0 <= index < services.len()
    &&& services[index].uuid == uuid
    &&& forall|j: int| 0 <= j < index ==> (#[trigger] services[j]).uuid != uuid
}

/// Whether `index` is the place of the first characteristic with `uuid`.
pub open spec fn first_characteristic_with(
    characteristics: Seq<CharacteristicInfo>,
    uuid: u128,
    index: int,
) -> bool {
    &&& 0 <= index < characteristics.len()
    &&& characteristics[index].uuid == uuid
    &&& forall|j: int| 0 <= j < index ==> (#[trigger] characteristics[j]).uuid != uuid
}

/// The first of `services` that has the given UUID. That none has it is an
/// error that names the UUID.
pub fn get_service_by_uuid(services: Vec<ServiceInfo>, uuid: u128) -> (r: Result<
    ServiceInfo,
    BluetoothError,
>)
    ensures
        match r {
            Ok(info) => exists|i: int|
                first_service_with(services@, uuid, i) && services@[i] == info,
            Err(e) => e == (BluetoothError::UUIDNotFound { uuid }) && forall|j: int|
                0 <= j < services@.len() ==> (#[trigger] services@[j]).uuid != uuid,
        },
{
    let mut rest = services;
    let mut i: usize = 0;
    while i < rest.len()
        invariant
            i <= rest@.len(),
            rest@ == services@,
            forall|j: int| 0 <= j < i ==> (#[trigger] services@[j]).uuid != uuid,
        decreases rest@.len() - i,
    {
        if rest[i].uuid == uuid {
            let found = rest.remove(i);
            assert(first_service_with(services@, uuid, i as int) && services@[i as int] == found);
            return Ok(found);
        }
        i += 1;
    }
    Err(BluetoothError::UUIDNotFound { uuid })
}

/// The first of `characteristics` that has the given UUID. That none has it
/// is an error that names the UUID.
pub fn get_characteristic_by_uuid(characteristics: Vec<CharacteristicInfo>, uuid: u128) -> (r:
    Result<CharacteristicInfo, BluetoothError>)
    ensures
        match r {
            Ok(info) => exists|i: int|
                first_characteristic_with(characteristics@, uuid, i) && characteristics@[i]
                    == info,
            Err(e) => e == (BluetoothError::UUIDNotFound { uuid }) && forall|j: int|
                0 <= j < characteristics@.len() ==> (#[trigger] characteristics@[j]).uuid != uuid,
        },
{
    let mut rest = characteristics;
    let mut i: usize = 0;
    while i < rest.len()
        invariant
            i <= rest@.len(),
            rest@ == characteristics@,
            forall|j: int| 0 <= j < i ==> (#[trigger] characteristics@[j]).uuid != uuid,
        decreases rest@.len() - i,
    {
        if rest[i].uuid == uuid {
            let found = rest.remove(i);
            assert(first_characteristic_with(characteristics@, uuid, i as int)
                && characteristics@[i as int] == found);
            return Ok(found);
        }
        i += 1;
    }
    Err(BluetoothError::UUIDNotFound { uuid })
}

} // verus!
