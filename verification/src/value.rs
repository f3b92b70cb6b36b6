//! The daemon's self-describing values.
//!
//! Every property that the daemon reports and every argument of its signals is
//! a value that carries its own type. The accessors here give a typed reading
//! of a value where it has the asked type, and `None` where it has not, so that
//! a caller can pass over what it does not understand.

use vstd::prelude::*;
use vstd::string::*;

verus! {

/// A value as the daemon sends it.
#[derive(Debug, PartialEq, Eq)]
pub enum Value {
    /// A boolean.
    Bool(bool),
    /// A signed integer of any width.
    Int(i64),
    /// An unsigned integer of any width, bytes included.
    UInt(u64),
    /// A string or an object path.
    Str(String),
    /// A value wrapped together with its type.
    Variant(Box<Value>),
    /// A sequence of values.
    Array(Vec<Value>),
    /// A dictionary, as its entries in the order sent.
    Dict(Vec<(Value, Value)>),
    /// A value of a type that nothing here reads.
    Other,
}

/// The byte that an item of a byte array stands for: the low eight bits of an
/// unsigned integer.
pub open spec fn byte_of(item: Value) -> Option<u8> {
    match item {
        Value::UInt(n) => Some((n % 256) as u8),
        _ => None,
    }
}

/// The bytes that an array's items stand for, where every item is a byte.
pub open spec fn bytes_of_items(items: Seq<Value>) -> Option<Seq<u8>> {
    if forall|i: int| 0 <= i < items.len() ==> byte_of(#[trigger] items[i]) is Some {
        Some(Seq::new(items.len(), |i: int| byte_of(items[i])->Some_0))
    } else {
        None
    }
}

impl Value {
    /// The text of a string value.
    pub open spec fn text(self) -> Option<Seq<char>> {
        match self {
            Value::Str(s) => Some(s@),
            _ => None,
        }
    }

    /// The flag of a boolean value.
    pub open spec fn flag(self) -> Option<bool> {
        match self {
            Value::Bool(b) => Some(b),
            _ => None,
        }
    }

    /// The number of a signed value that fits in sixteen bits.
    pub open spec fn short(self) -> Option<i16> {
        match self {
            Value::Int(n) => if i16::MIN <= n <= i16::MAX {
                Some(n as i16)
            } else {
                None
            },
            _ => None,
        }
    }

    /// The number of an unsigned value that fits in sixteen bits.
    pub open spec fn unsigned_short(self) -> Option<u16> {
        match self {
            Value::UInt(n) => if n <= u16::MAX {
                Some(n as u16)
            } else {
                None
            },
            _ => None,
        }
    }

    /// What a variant wraps.
    pub open spec fn inner(self) -> Option<Value> {
        match self {
            Value::Variant(v) => Some(*v),
            _ => None,
        }
    }

    /// The items of an array.
    pub open spec fn items(self) -> Option<Seq<Value>> {
        match self {
            Value::Array(items) => Some(items@),
            _ => None,
        }
    }

    /// The entries of a dictionary.
    pub open spec fn entries(self) -> Option<Seq<(Value, Value)>> {
        match self {
            Value::Dict(entries) => Some(entries@),
            _ => None,
        }
    }

    /// The bytes of an array all of whose items are bytes.
    pub open spec fn bytes(self) -> Option<Seq<u8>> {
        match self {
            Value::Array(items) => bytes_of_items(items@),
            _ => None,
        }
    }

    /// The text, where the value is a string.
    pub fn as_str(&self) -> (r: Option<&str>)
        ensures
            match r {
                Some(s) => self.text() == Some(s@),
                None => self.text() is None,
            },
    {
        match self {
            Value::Str(s) => Some(s.as_str()),
            _ => None,
        }
    }

    /// The flag, where the value is a boolean.
    pub fn as_bool(&self) -> (r: Option<bool>)
        ensures
            r == self.flag(),
    {
        match self {
            Value::Bool(b) => Some(*b),
            _ => None,
        }
    }

    /// The number, where the value is a signed integer that fits in sixteen
    /// bits.
    pub fn as_i16(&self) -> (r: Option<i16>)
        ensures
            r == self.short(),
    {
        match self {
            Value::Int(n) => {
                if -32768 <= *n && *n <= 32767 {
                    Some(*n as i16)
                } else {
                    None
                }
            },
            _ => None,
        }
    }

    /// The number, where the value is an unsigned integer that fits in
    /// sixteen bits.
    pub fn as_u16(&self) -> (r: Option<u16>)
        ensures
            r == self.unsigned_short(),
    {
        match self {
            Value::UInt(n) => {
                if *n <= 65535 {
                    Some(*n as u16)
                } else {
                    None
                }
            },
            _ => None,
        }
    }

    /// What the value wraps, where it is a variant.
    pub fn as_variant(&self) -> (r: Option<&Value>)
        ensures
            match r {
                Some(v) => self.inner() == Some(*v),
                None => self.inner() is None,
            },
    {
        match self {
            Value::Variant(v) => Some(&**v),
            _ => None,
        }
    }

    /// The items, where the value is an array.
    pub fn as_array(&self) -> (r: Option<&Vec<Value>>)
        ensures
            match r {
                Some(items) => self.items() == Some(items@),
                None => self.items() is None,
            },
    {
        match self {
            Value::Array(items) => Some(items),
            _ => None,
        }
    }

    /// The entries, where the value is a dictionary.
    pub fn as_dict(&self) -> (r: Option<&Vec<(Value, Value)>>)
        ensures
            match r {
                Some(entries) => self.entries() == Some(entries@),
                None => self.entries() is None,
            },
    {
        match self {
            Value::Dict(entries) => Some(entries),
            _ => None,
        }
    }

    /// The bytes, where the value is an array of bytes. One item that is no
    /// unsigned integer makes the whole value unreadable as bytes.
    pub fn as_bytes(&self) -> (r: Option<Vec<u8>>)
        ensures
            match r {
                Some(bytes) => self.bytes() == Some(bytes@),
                None => self.bytes() is None,
            },
    {
        match self {
            Value::Array(items) => {
                let mut bytes: Vec<u8> = Vec::new();
                let mut i: usize = 0;
                while i < items.len()
                    invariant
                        i <= items@.len(),
                        bytes@.len() == i,
                        self.bytes() == bytes_of_items(items@),
                        forall|j: int| 0 <= j < i ==> byte_of(#[trigger] items@[j]) == Some(bytes@[j]),
                    decreases items@.len() - i,
                {
                    match &items[i] {
                        Value::UInt(n) => {
                            bytes.push((*n % 256) as u8);
                        },
                        _ => {
                            assert(byte_of(items@[i as int]) is None);
                            return None;
                        },
                    }
                    i += 1;
                }
                assert(bytes@ =~= bytes_of_items(items@)->Some_0);
                Some(bytes)
            },
            _ => None,
        }
    }
}

/// Whether `text` reads exactly as `expected`.
pub fn text_is(text: &str, expected: &str) -> (r: bool)
    ensures
        r == (text@ == expected@),
{
    let n: usize = text.unicode_len();
    if n != expected.unicode_len() {
        return false;
    }
    let mut i: usize = 0;
    while i < n
        invariant
            i <= n,
            n == text@.len(),
            n == expected@.len(),
            forall|j: int| 0 <= j < i ==> text@[j] == expected@[j],
        decreases n - i,
    {
        if text.get_char(i) != expected.get_char(i) {
            return false;
        }
        i += 1;
    }
    assert(text@ =~= expected@);
    true
}

/// Whether `text` begins with `prefix`.
pub open spec fn begins_with(text: Seq<char>, prefix: Seq<char>) -> bool {
    prefix.len() <= text.len() && text.take(prefix.len() as int) == prefix
}

/// Whether `text` begins with `prefix`.
pub fn has_prefix(text: &str, prefix: &str) -> (r: bool)
    ensures
        r == begins_with(text@, prefix@),
{
    let n: usize = prefix.unicode_len();
    if text.unicode_len() < n {
        return false;
    }
    let mut i: usize = 0;
    while i < n
        invariant
            i <= n,
            n == prefix@.len(),
            n <= text@.len(),
            forall|j: int| 0 <= j < i ==> text@[j] == prefix@[j],
        decreases n - i,
    {
        if text.get_char(i) != prefix.get_char(i) {
            assert(text@.take(n as int)[i as int] != prefix@[i as int]);
            return false;
        }
        i += 1;
    }
    assert(text@.take(n as int) =~= prefix@);
    true
}

} // verus!
