//! What can go wrong in a Bluetooth operation.

use vstd::prelude::*;

verus! {

/// The error that `uuid::Uuid::parse_str` gives for text that is no UUID.
#[verifier::external_type_specification]
#[verifier::external_body]
pub struct ExUuidError(uuid::Error);

/// An error carrying out a Bluetooth operation.
#[derive(Debug)]
pub enum BluetoothError {
    /// No Bluetooth adapters were found on the system.
    NoBluetoothAdapters,
    /// Talking to the daemon failed or timed out; the text is the
    /// transport's report.
    DbusError(String),
    /// An introspection document could not be read; the text says why.
    XmlParseError(String),
    /// No service or characteristic was found for some UUID.
    UUIDNotFound { uuid: u128 },
    /// Text that should have been a UUID was none.
    UUIDParseError(uuid::Error),
}

/// A signal whose arguments are not those of its kind.
#[derive(Clone, Copy, Debug, PartialEq, Eq)]
pub struct MalformedMessage;

} // verus!
