//! Numbers in requests, and the address to serve on.
use vstd::prelude::*;
use vstd::utf8::encode_utf8;
use crate::text::numerals::{parse_unsigned, unsigned_value};

verus! {

/// Any JSON value.
#[verifier::external_type_specification]
#[verifier::external_body]
pub struct ExJsonValue(serde_json::Value);

/// The unsigned number that a JSON value is, where it is one that fits in 64 bits.
pub uninterp spec fn json_unsigned(value: serde_json::Value) -> Option<u64>;

/// The text that a JSON value is, where it is a string.
pub uninterp spec fn json_text(value: serde_json::Value) -> Option<Seq<char>>;

/// `serde_json::Value::as_u64`: the number, where the value is an integer that fits in `u64`.
#[verifier::external_body]
fn value_as_u64(value: &serde_json::Value) -> (number: Option<u64>)
    ensures
        number == json_unsigned(*value),
{
    value.as_u64()
}

/// `serde_json::Value::as_str`: the text, where the value is a string.
#[verifier::external_body]
fn value_as_str(value: &serde_json::Value) -> (text: Option<&str>)
    ensures
        text matches Some(t) ==> json_text(*value) == Some(t@),
        text is None ==> json_text(*value) is None,
{
    value.as_str()
}

/// The 16-bit number in a field that is a number or a numeral, or what is wrong with the field.
pub open spec fn u16_field(
    number: Option<u64>,
    text: Option<Seq<char>>,
    field_name: Seq<char>,
) -> Result<u16, Seq<char>> {
    match (number, text) {
        (Some(n), _) => if n <= u16::MAX {
            Ok(n as u16)
        } else {
            Err(field_name + " must be a valid u16."@)
        },
        (None, Some(t)) => match unsigned_value(encode_utf8(t)) {
            Some(n) => if n <= u16::MAX {
                Ok(n as u16)
            } else {
                Err(field_name + " must be a valid u16 string."@)
            },
            None => Err(field_name + " must be a valid u16 string."@),
        },
        (None, None) => Err(field_name + " must be a number or a valid string."@),
    }
}

/// A result with its message taken as text.
pub open spec fn result_view<T>(result: Result<T, String>) -> Result<T, Seq<char>> {
    match result {
        Ok(value) => Ok(value),
        Err(message) => Err(message@),
    }
}

/// The 16-bit number in a field, given the number or the text that stands in it.
pub fn parse_u16_field(number: Option<u64>, text: Option<&str>, field_name: &str) -> (result: Result<
    u16,
    String,
>)
    ensures
        result_view(result) == u16_field(
            number,
            match text {
                Some(t) => Some(t@),
                None => None,
            },
            field_name@,
        ),
{
    let name = String::from_str(field_name);
    match number {
        Some(n) => if n <= u16::MAX as u64 {
            Ok(n as u16)
        } else {
            Err(name.concat(" must be a valid u16."))
        },
        None => match text {
            Some(t) => match parse_unsigned(t.as_bytes(), u16::MAX as u64) {
                Some(n) => Ok(n as u16),
                None => Err(name.concat(" must be a valid u16 string.")),
            },
            None => Err(name.concat(" must be a number or a valid string.")),
        },
    }
}

/// The 16-bit number in a field of a request. Older clients send it as a string.
pub fn parse_u16(value: &serde_json::Value, field_name: &str) -> (result: Result<u16, String>)
    ensures
        result_view(result) == u16_field(json_unsigned(*value), json_text(*value), field_name@),
{
    parse_u16_field(value_as_u64(value), value_as_str(value), field_name)
}

/// An address of version four: its four numbers from left to right.
#[derive(Clone, Copy, Debug, PartialEq, Eq, Structural)]
pub struct Ipv4 {
    pub a: u8,
    pub b: u8,
    pub c: u8,
    pub d: u8,
}

/// An address of a network interface. Only addresses of version four are looked at.
#[derive(Clone, Copy, Debug, PartialEq, Eq, Structural)]
pub enum InterfaceAddress {
    V4(Ipv4),
    V6,
}

/// The first address among those of all interfaces, in their order, that others can reach.
pub open spec fn first_reachable(
    interfaces: Seq<Vec<InterfaceAddress>>,
) -> Option<Ipv4>
    decreases interfaces.len(),
{
    if interfaces.len() == 0 {
        None
    } else {
        match first_of(interfaces[0]@) {
            Some(address) => Some(address),
            None => first_reachable(interfaces.skip(1)),
        }
    }
}

/// The first address of one interface that others can reach.
pub open spec fn first_of(addresses: Seq<InterfaceAddress>) -> Option<Ipv4>
    decreases addresses.len(),
{
    if addresses.len() == 0 {
        None
    } else {
        match addresses[0] {
            InterfaceAddress::V4(ip) if ip.a != 127 => Some(ip),
            _ => first_of(addresses.skip(1)),
        }
    }
}

/// The address under which this machine is reached in its network, given the addresses of its
/// interfaces.
pub fn get_ip_address(interfaces: &Vec<Vec<InterfaceAddress>>) -> (found: Option<Ipv4>)
    ensures
        found == first_reachable(interfaces@),
{
    let mut i: usize = 0;
    assert(interfaces@.skip(0) =~= interfaces@);
    while i < interfaces.len()
        invariant
            i <= interfaces@.len(),
            first_reachable(interfaces@.skip(i as int)) == first_reachable(interfaces@),
        decreases interfaces@.len() - i,
    {
        let addresses = &interfaces[i];
        let ghost rest = interfaces@.skip(i as int);
        let mut j: usize = 0;
        assert(addresses@.skip(0) =~= addresses@);
        while j < addresses.len()
            invariant
                i < interfaces@.len(),
                addresses == interfaces@[i as int],
                rest == interfaces@.skip(i as int),
                first_reachable(rest) == first_reachable(interfaces@),
                j <= addresses@.len(),
                first_of(addresses@.skip(j as int)) == first_of(addresses@),
            decreases addresses@.len() - j,
        {
            let address = addresses[j];
            let ghost later = addresses@.skip(j as int);
            assert(later[0] == address);
            if let InterfaceAddress::V4(ip) = address {
                if ip.a != 127 {
                    assert(rest[0] == interfaces@[i as int]);
                    return Some(ip);
                }
            }
            assert(later.skip(1) =~= addresses@.skip(j + 1));
            j = j + 1;
        }
        assert(rest[0] == interfaces@[i as int]);
        assert(rest.skip(1) =~= interfaces@.skip(i + 1));
        i = i + 1;
    }
    None
}

/// An address that is found does not point back to this machine.
pub proof fn law_found_address_is_reachable(interfaces: Seq<Vec<InterfaceAddress>>)
    ensures
        first_reachable(interfaces) matches Some(ip) ==> ip.a != 127,
    decreases interfaces.len(),
{
    if interfaces.len() > 0 {
        lemma_first_of(interfaces[0]@);
        law_found_address_is_reachable(interfaces.skip(1));
    }
}

proof fn lemma_first_of(addresses: Seq<InterfaceAddress>)
    ensures
        first_of(addresses) matches Some(ip) ==> ip.a != 127,
    decreases addresses.len(),
{
    if addresses.len() > 0 {
        lemma_first_of(addresses.skip(1));
    }
}

} // verus!
