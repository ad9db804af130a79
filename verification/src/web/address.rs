//! Which network addresses are public.
use vstd::prelude::*;

verus! {

/// A network address: the number of an IPv4 address, or the eight parts of an IPv6 address.
#[derive(Clone, Copy, Debug)]
pub enum Address {
    V4(u32),
    V6([u16; 8]),
}

/// Whether an IPv4 address lies between two others.
pub open spec fn between(value: u32, first: u32, last: u32) -> bool {
    first <= value <= last
}

/// Whether an IPv4 address can be reached from anywhere: it is in none of the ranges for this host,
/// private networks, shared address space, loopback, link-local use, protocol assignments,
/// documentation, benchmarks, and multicast or later use.
pub open spec fn public_number(value: u32) -> bool {
    &&& !between(value, 0x0000_0000, 0x00ff_ffff)
    &&& !between(value, 0x0a00_0000, 0x0aff_ffff)
    &&& !between(value, 0x6440_0000, 0x647f_ffff)
    &&& !between(value, 0x7f00_0000, 0x7fff_ffff)
    &&& !between(value, 0xa9fe_0000, 0xa9fe_ffff)
    &&& !between(value, 0xac10_0000, 0xac1f_ffff)
    &&& !between(value, 0xc000_0000, 0xc000_00ff)
    &&& !between(value, 0xc000_0200, 0xc000_02ff)
    &&& !between(value, 0xc0a8_0000, 0xc0a8_ffff)
    &&& !between(value, 0xc612_0000, 0xc613_ffff)
    &&& !between(value, 0xc633_6400, 0xc633_64ff)
    &&& !between(value, 0xcb00_7100, 0xcb00_71ff)
    &&& !between(value, 0xe000_0000, 0xffff_ffff)
}

/// Whether an IPv6 address can be reached from anywhere: it is a global unicast address and not one
/// for documentation.
pub open spec fn public_parts(parts: Seq<u16>) -> bool {
    0x2000 <= parts[0] <= 0x3fff && !(parts[0] == 0x2001 && parts[1] == 0x0db8)
}

impl Address {
    /// Whether the address can be reached from anywhere.
    pub open spec fn public(self) -> bool {
        match self {
            Address::V4(value) => public_number(value),
            Address::V6(parts) => public_parts(parts@),
        }
    }

    /// Whether the address is in the range for benchmarks, which local proxies answer names with.
    pub open spec fn benchmark(self) -> bool {
        self matches Address::V4(value) && between(value, 0xc612_0000, 0xc613_ffff)
    }
}

fn shifted_equal(value: u32, network: u32, prefix: u32) -> (r: bool)
    requires
        1 <= prefix <= 32,
    ensures
        r == (value >> ((32 - prefix) as u32) == network >> ((32 - prefix) as u32)),
{
    let shift: u32 = 32 - prefix;
    value >> shift == network >> shift
}

fn public_v4(value: u32) -> (r: bool)
    ensures
        r == public_number(value),
{
    assert(value >> 24u32 == 0x0000_0000u32 >> 24u32 <==> value <= 0x00ff_ffffu32) by (bit_vector);
    assert(value >> 24u32 == 0x0a00_0000u32 >> 24u32 <==> (0x0a00_0000u32 <= value && value
        <= 0x0aff_ffffu32)) by (bit_vector);
    assert(value >> 22u32 == 0x6440_0000u32 >> 22u32 <==> (0x6440_0000u32 <= value && value
        <= 0x647f_ffffu32)) by (bit_vector);
    assert(value >> 24u32 == 0x7f00_0000u32 >> 24u32 <==> (0x7f00_0000u32 <= value && value
        <= 0x7fff_ffffu32)) by (bit_vector);
    assert(value >> 16u32 == 0xa9fe_0000u32 >> 16u32 <==> (0xa9fe_0000u32 <= value && value
        <= 0xa9fe_ffffu32)) by (bit_vector);
    assert(value >> 20u32 == 0xac10_0000u32 >> 20u32 <==> (0xac10_0000u32 <= value && value
        <= 0xac1f_ffffu32)) by (bit_vector);
    assert(value >> 8u32 == 0xc000_0000u32 >> 8u32 <==> (0xc000_0000u32 <= value && value
        <= 0xc000_00ffu32)) by (bit_vector);
    assert(value >> 8u32 == 0xc000_0200u32 >> 8u32 <==> (0xc000_0200u32 <= value && value
        <= 0xc000_02ffu32)) by (bit_vector);
    assert(value >> 16u32 == 0xc0a8_0000u32 >> 16u32 <==> (0xc0a8_0000u32 <= value && value
        <= 0xc0a8_ffffu32)) by (bit_vector);
    assert(value >> 17u32 == 0xc612_0000u32 >> 17u32 <==> (0xc612_0000u32 <= value && value
        <= 0xc613_ffffu32)) by (bit_vector);
    assert(value >> 8u32 == 0xc633_6400u32 >> 8u32 <==> (0xc633_6400u32 <= value && value
        <= 0xc633_64ffu32)) by (bit_vector);
    assert(value >> 8u32 == 0xcb00_7100u32 >> 8u32 <==> (0xcb00_7100u32 <= value && value
        <= 0xcb00_71ffu32)) by (bit_vector);
    assert(value >> 29u32 == 0xe000_0000u32 >> 29u32 <==> 0xe000_0000u32 <= value) by (bit_vector);
    !(shifted_equal(value, 0x0000_0000, 8) || shifted_equal(value, 0x0a00_0000, 8)
        || shifted_equal(value, 0x6440_0000, 10) || shifted_equal(value, 0x7f00_0000, 8)
        || shifted_equal(value, 0xa9fe_0000, 16) || shifted_equal(value, 0xac10_0000, 12)
        || shifted_equal(value, 0xc000_0000, 24) || shifted_equal(value, 0xc000_0200, 24)
        || shifted_equal(value, 0xc0a8_0000, 16) || shifted_equal(value, 0xc612_0000, 15)
        || shifted_equal(value, 0xc633_6400, 24) || shifted_equal(value, 0xcb00_7100, 24)
        || shifted_equal(value, 0xe000_0000, 3))
}

fn public_v6(parts: [u16; 8]) -> (r: bool)
    ensures
        r == public_parts(parts@),
{
    let first: u16 = parts[0];
    let second: u16 = parts[1];
    assert(first & 0xe000u16 == 0x2000u16 <==> (0x2000u16 <= first && first <= 0x3fffu16))
        by (bit_vector);
    first & 0xe000 == 0x2000 && !(first == 0x2001 && second == 0x0db8)
}

/// Whether an address can be reached from anywhere.
pub fn is_public(address: Address) -> (r: bool)
    ensures
        r == address.public(),
{
    match address {
        Address::V4(value) => public_v4(value),
        Address::V6(parts) => public_v6(parts),
    }
}

fn is_benchmark_proxy_range(address: Address) -> (r: bool)
    ensures
        r == address.benchmark(),
{
    match address {
        Address::V4(value) => {
            assert(value >> 17u32 == 0xc612_0000u32 >> 17u32 <==> (0xc612_0000u32 <= value && value
                <= 0xc613_ffffu32)) by (bit_vector);
            shifted_equal(value, 0xc612_0000, 15)
        },
        Address::V6(_) => false,
    }
}

/// Whether an address that a host was resolved to may be asked; `domain` tells whether the host is a
/// name.
pub fn safe_resolution(address: Address, domain: bool) -> (r: bool)
    ensures
        r == (address.public() || (domain && address.benchmark())),
{
    is_public(address) || (domain && is_benchmark_proxy_range(address))
}

/// Whether an IPv4 address has these two numbers in front.
pub open spec fn begins_with(value: u32, first: int, second: int) -> bool {
    value as int / 0x100_0000 == first && (value as int / 0x1_0000) % 0x100 == second
}

/// Addresses of this host, of private networks and of loopback, and those for several receivers, are not
/// public, whatever their other numbers are.
pub proof fn law_private_addresses_are_not_public(value: u32, second: int)
    requires
        0 <= second < 256,
    ensures
        begins_with(value, 0, second) ==> !Address::V4(value).public(),
        begins_with(value, 10, second) ==> !Address::V4(value).public(),
        begins_with(value, 127, second) ==> !Address::V4(value).public(),
        begins_with(value, 169, 254) ==> !Address::V4(value).public(),
        begins_with(value, 192, 168) ==> !Address::V4(value).public(),
        16 <= second < 32 && begins_with(value, 172, second) ==> !Address::V4(value).public(),
        64 <= second < 128 && begins_with(value, 100, second) ==> !Address::V4(value).public(),
        begins_with(value, 198, 18) || begins_with(value, 198, 19) ==> !Address::V4(value).public()
            && Address::V4(value).benchmark(),
        value as int / 0x100_0000 >= 224 ==> !Address::V4(value).public(),
{
}

/// Addresses of ordinary networks are public: those that begin with a number that no other use takes.
pub proof fn law_ordinary_addresses_are_public(value: u32)
    requires
        ({
            let first = value as int / 0x100_0000;
            &&& 1 <= first < 224
            &&& first != 10 && first != 100 && first != 127 && first != 169 && first != 172
            &&& first != 192 && first != 198 && first != 203
        }),
    ensures
        Address::V4(value).public(),
        !Address::V4(value).benchmark(),
{
}

/// An address of eight parts is public where its first part begins with the bits for that, but for those
/// of documentation.
pub proof fn law_global_addresses_are_public(parts: [u16; 8])
    ensures
        Address::V6(parts).public() <==> 0x2000 <= parts@[0] < 0x4000 && !(parts@[0] == 0x2001
            && parts@[1] == 0x0db8),
        !Address::V6(parts).benchmark(),
{
}

} // verus!
