//! Plain-value forms of on-chain identifiers and their canonical text.

use vstd::prelude::*;

verus! {

/// An ASCII hexadecimal digit, in either case.
pub open spec fn is_hex_digit(c: char) -> bool {
    ('0' <= c && c <= '9') || ('a' <= c && c <= 'f') || ('A' <= c && c <= 'F')
}

/// The value of a hexadecimal digit.
pub open spec fn hex_value(c: char) -> int {
    if '0' <= c && c <= '9' {
        c as int - '0' as int
    } else if 'a' <= c && c <= 'f' {
        c as int - 'a' as int + 10
    } else {
        c as int - 'A' as int + 10
    }
}

/// The digits of an address text: what is left after an optional `0x` or `0X`.
pub open spec fn address_digits(s: Seq<char>) -> Seq<char> {
    if s.len() >= 2 && s[0] == '0' && (s[1] == 'x' || s[1] == 'X') {
        s.subrange(2, s.len() as int)
    } else {
        s
    }
}

/// A well-formed address text: forty hexadecimal digits, optionally prefixed.
pub open spec fn is_address_text(s: Seq<char>) -> bool {
    let d = address_digits(s);
    &&& d.len() == 40
    &&& forall|i: int| 0 <= i < d.len() ==> is_hex_digit(#[trigger] d[i])
}

/// The bytes that a string of hexadecimal digits spells, two digits per byte.
pub open spec fn hex_decode(d: Seq<char>) -> Seq<u8> {
    Seq::new(d.len() / 2, |i: int| (hex_value(d[2 * i]) * 16 + hex_value(d[2 * i + 1])) as u8)
}

/// The sixteen lower-case hexadecimal digits.
pub open spec fn lower_hex_digits() -> Seq<char> {
    seq!['0', '1', '2', '3', '4', '5', '6', '7', '8', '9', 'a', 'b', 'c', 'd', 'e', 'f']
}

/// Two lower-case hexadecimal digits per byte, high nibble first.
pub open spec fn lower_hex(b: Seq<u8>) -> Seq<char> {
    Seq::new(
        2 * b.len(),
        |i: int|
            if i % 2 == 0 {
                lower_hex_digits()[b[i / 2] as int / 16]
            } else {
                lower_hex_digits()[b[i / 2] as int % 16]
            },
    )
}

/// The canonical text of a hash: `0x` and its lower-case hexadecimal digits.
pub open spec fn prefixed_lower_hex(b: Seq<u8>) -> Seq<char> {
    seq!['0', 'x'] + lower_hex(b)
}

/// The mixed-case checksummed text of a twenty-byte address.
pub uninterp spec fn checksum_text(bytes: Seq<u8>) -> Seq<char>;

/// A twenty-byte account address.
#[derive(Clone, Copy, Debug, Eq, Hash)]
pub struct Address {
    pub bytes: [u8; 20],
}

/// A thirty-two-byte transaction hash.
#[derive(Clone, Copy, Debug, PartialEq, Eq, Hash)]
pub struct TxHash {
    pub bytes: [u8; 32],
}

impl View for Address {
    type V = Seq<u8>;

    closed spec fn view(&self) -> Seq<u8> {
        self.bytes@
    }
}

impl View for TxHash {
    type V = Seq<u8>;

    closed spec fn view(&self) -> Seq<u8> {
        self.bytes@
    }
}

impl PartialEq for Address {
    fn eq(&self, other: &Address) -> (r: bool) {
        let mut i: usize = 0;
        while i < 20
            invariant
                0 <= i <= 20,
                forall|j: int| 0 <= j < i ==> self.bytes[j] == other.bytes[j],
            decreases 20 - i,
        {
            if self.bytes[i] != other.bytes[i] {
                return false;
            }
            i = i + 1;
        }
        assert(self@ =~= other@);
        true
    }
}

impl vstd::std_specs::cmp::PartialEqSpecImpl for Address {
    open spec fn obeys_eq_spec() -> bool {
        true
    }

    open spec fn eq_spec(&self, other: &Address) -> bool {
        self@ == other@
    }
}

impl Address {
    pub fn new(bytes: [u8; 20]) -> (r: Address)
        ensures
            r.bytes == bytes,
            r@ == bytes@,
    {
        Address { bytes }
    }

    /// Reads an address from its text: forty hexadecimal digits in either
    /// case, optionally prefixed by `0x`. The checksum is not validated.
    pub fn parse(s: &str) -> (r: Option<Address>)
        ensures
            r is Some <==> is_address_text(s@),
            r matches Some(a) ==> a@ == hex_decode(address_digits(s@)),
    {
        parse_address(s)
    }

    /// The canonical text of the address: `0x` and forty checksummed digits.
    pub fn to_checksum_string(&self) -> (r: String)
        ensures
            r@ == checksum_text(self@),
    {
        checksummed_text(self)
    }
}

impl TxHash {
    pub fn new(bytes: [u8; 32]) -> (r: TxHash)
        ensures
            r.bytes == bytes,
            r@ == bytes@,
    {
        TxHash { bytes }
    }

    /// The canonical text of the hash: `0x` and sixty-four lower-case digits.
    pub fn to_hex_string(&self) -> (r: String)
        ensures
            r@ == prefixed_lower_hex(self@),
    {
        hash_text(self)
    }
}

/// Relies on `alloy::primitives::Address::from_str`, which decodes through
/// `const_hex`: an optional `0x`/`0X` prefix, then exactly forty hexadecimal
/// digits of either case, two per byte; any other input is an error.
#[verifier::external_body]
fn parse_address(s: &str) -> (r: Option<Address>)
    ensures
        r is Some <==> is_address_text(s@),
        r matches Some(a) ==> a@ == hex_decode(address_digits(s@)),
{
    match <alloy::primitives::Address as core::str::FromStr>::from_str(s) {
        Ok(a) => Some(Address { bytes: a.into_array() }),
        Err(_) => None,
    }
}

/// Relies on `Display` of `alloy::primitives::Address`, which writes the
/// checksummed text of the address; its value depends on the bytes alone.
#[verifier::external_body]
fn checksummed_text(a: &Address) -> (r: String)
    ensures
        r@ == checksum_text(a@),
{
    alloy::primitives::Address::new(a.bytes).to_string()
}

/// Relies on `Display` of `alloy::primitives::B256`, which writes `0x` and
/// the lower-case hexadecimal digits of every byte.
#[verifier::external_body]
fn hash_text(h: &TxHash) -> (r: String)
    ensures
        r@ == prefixed_lower_hex(h@),
{
    alloy::primitives::B256::new(h.bytes).to_string()
}

} // verus!
