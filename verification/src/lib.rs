//! Session layer for Bluetooth Low Energy peripherals managed by a system
//! daemon: typed identifiers over object paths, decoding of the daemon's
//! self-describing property values into device, service and characteristic
//! descriptions, and decoding of its signals into typed events.

pub mod discovery;
pub mod error;
pub mod events;
pub mod gatt;
pub mod id;
pub mod mac;
pub mod service_data;
pub mod value;

pub use crate::discovery::{DeviceInfo, DiscoveryStep, Interface, ManagedObject, Property};
pub use crate::error::{BluetoothError, MalformedMessage};
pub use crate::id::{AdapterId, CharacteristicId, DeviceId, ServiceId};
pub use crate::mac::{MacAddress, ParseMacAddressError};
pub use crate::service_data::ServiceData;
pub use crate::value::Value;
pub use crate::gatt::{CharacteristicInfo, ServiceInfo};
pub use crate::events::{AdapterEvent, BluetoothEvent, CharacteristicEvent, DeviceEvent, Message};
