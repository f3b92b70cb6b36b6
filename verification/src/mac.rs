//! MAC addresses of Bluetooth devices.

use vstd::prelude::*;
use vstd::string::*;

verus! {

/// Whether `c` is one of `0`-`9`, `a`-`f`, `A`-`F`.
pub open spec fn is_hex_digit(c: char) -> bool {
    ('0' <= c && c <= '9') || ('a' <= c && c <= 'f') || ('A' <= c && c <= 'F')
}

/// The upper-case form of a hexadecimal digit; any other character is itself.
pub open spec fn upper_hex(c: char) -> char {
    if c == 'a' {
        'A'
    } else if c == 'b' {
        'B'
    } else if c == 'c' {
        'C'
    } else if c == 'd' {
        'D'
    } else if c == 'e' {
        'E'
    } else if c == 'f' {
        'F'
    } else {
        c
    }
}

/// Whether `text` is six groups of two hexadecimal digits with a colon between
/// each two groups.
pub open spec fn is_mac_text(text: Seq<char>) -> bool {
    &&& text.len() == 17
    &&& forall|i: int|
        0 <= i < 17 ==> if i % 3 == 2 {
            text[i] == ':'
        } else {
            is_hex_digit(#[trigger] text[i])
        }
}

/// `text` with each hexadecimal digit in upper case.
pub open spec fn canonical_mac(text: Seq<char>) -> Seq<char> {
    Seq::new(text.len(), |i: int| upper_hex(text[i]))
}

/// std's `String::push`: the string afterwards is the string before with `c`
/// appended.
#[verifier::external_body]
fn push_char(text: &mut String, c: char)
    ensures
        final(text)@ == old(text)@.push(c),
{
    text.push(c)
}

fn hex_digit(c: char) -> (r: bool)
    ensures
        r == is_hex_digit(c),
{
    ('0' <= c && c <= '9') || ('a' <= c && c <= 'f') || ('A' <= c && c <= 'F')
}

fn to_upper_hex(c: char) -> (r: char)
    ensures
        r == upper_hex(c),
{
    if c == 'a' {
        'A'
    } else if c == 'b' {
        'B'
    } else if c == 'c' {
        'C'
    } else if c == 'd' {
        'D'
    } else if c == 'e' {
        'E'
    } else if c == 'f' {
        'F'
    } else {
        c
    }
}

/// MAC address of a Bluetooth device.
#[derive(Clone, Debug, Eq, Hash, Ord, PartialOrd)]
pub struct MacAddress(String);

impl PartialEq for MacAddress {
    fn eq(&self, other: &Self) -> (r: bool) {
        self.0 == other.0
    }
}

impl vstd::std_specs::cmp::PartialEqSpecImpl for MacAddress {
    open spec fn obeys_eq_spec() -> bool {
        true
    }

    open spec fn eq_spec(&self, other: &Self) -> bool {
        self@ == other@
    }
}

/// An error parsing a MAC address from a string.
#[derive(Clone, Debug, Eq, PartialEq)]
pub struct ParseMacAddressError();

impl View for MacAddress {
    type V = Seq<char>;

    closed spec fn view(&self) -> Seq<char> {
        self.0@
    }
}

impl MacAddress {
    /// The address that the daemon reports as `text`, taken as it stands.
    pub fn from_reported(text: &str) -> (address: Self)
        ensures
            address@ == text@,
    {
        MacAddress(String::from_str(text))
    }

    /// Parses six colon-separated pairs of hexadecimal digits. The address
    /// holds them in upper case; any other text is refused.
    pub fn parse(text: &str) -> (r: Result<Self, ParseMacAddressError>)
        ensures
            is_mac_text(text@) ==> r is Ok && r->Ok_0@ == canonical_mac(text@),
            !is_mac_text(text@) ==> r is Err,
    {
        let n: usize = text.unicode_len();
        if n != 17 {
            return Err(ParseMacAddressError());
        }
        let mut out = String::new();
        let mut i: usize = 0;
        while i < 17
            invariant
                i <= 17,
                text@.len() == 17,
                out@.len() == i,
                forall|j: int|
                    0 <= j < i ==> if j % 3 == 2 {
                        text@[j] == ':'
                    } else {
                        is_hex_digit(#[trigger] text@[j])
                    },
                forall|j: int| 0 <= j < i ==> out@[j] == upper_hex(text@[j]),
            decreases 17 - i,
        {
            let c = text.get_char(i);
            if i % 3 == 2 {
                if c != ':' {
                    return Err(ParseMacAddressError());
                }
            } else if !hex_digit(c) {
                return Err(ParseMacAddressError());
            }
            push_char(&mut out, to_upper_hex(c));
            i += 1;
        }
        assert(out@ =~= canonical_mac(text@));
        Ok(MacAddress(out))
    }

    /// The address as text.
    pub fn to_string(&self) -> (text: String)
        ensures
            text@ == self@,
    {
        self.0.clone()
    }

    /// The address as a string slice.
    pub fn as_str(&self) -> (text: &str)
        ensures
            text@ == self@,
    {
        self.0.as_str()
    }
}

impl core::str::FromStr for MacAddress {
    type Err = ParseMacAddressError;

    /// Parses as `MacAddress::parse` does.
    fn from_str(s: &str) -> (r: Result<Self, Self::Err>)
        ensures
            is_mac_text(s@) ==> r is Ok && r->Ok_0@ == canonical_mac(s@),
            !is_mac_text(s@) ==> r is Err,
    {
        MacAddress::parse(s)
    }
}

/// Parsing is idempotent: the canonical form of an address is itself
/// well-formed text, and parsing it again changes nothing.
pub proof fn lemma_canonical_mac_is_fixed(text: Seq<char>)
    requires
        is_mac_text(text),
    ensures
        is_mac_text(canonical_mac(text)),
        canonical_mac(canonical_mac(text)) == canonical_mac(text),
{
    let c = canonical_mac(text);
    assert forall|i: int| 0 <= i < 17 implies if i % 3 == 2 {
        c[i] == ':'
    } else {
        is_hex_digit(#[trigger] c[i])
    } by {
        if i % 3 != 2 {
            assert(is_hex_digit(text[i]));
        }
    }
    assert(canonical_mac(c) =~= c);
}

} // verus!
