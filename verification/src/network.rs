//! Networks in CIDR notation and the addresses they cover.
//!
//! An IPv4 address is held as a 32-bit number whose highest byte is the first
//! octet, so that the numeric order is the order of the addresses.

use crate::error::ScanError;
use crate::text::{chars_of, find_char, trim, trimmed};
use vstd::arithmetic::power2::{lemma2_to64, lemma_pow2_adds, lemma_pow2_pos, pow2};
use vstd::bits::lemma_u64_shl_is_mul;
use vstd::prelude::*;
use vstd::string::StringExecFns;

verus! {

/// The number of addresses in a block with a prefix of `prefix_length` bits.
pub open spec fn block_size(prefix_length: u8) -> nat {
    pow2((32 - prefix_length) as nat)
}

/// Whether `base_address` and `prefix_length` form a block: the prefix is at
/// most 32 bits long, and no bit behind the prefix is set in the address.
pub open spec fn is_block(base_address: u32, prefix_length: u8) -> bool {
    prefix_length <= 32 && base_address as nat % block_size(prefix_length) == 0
}

/// The address with the octets `a.b.c.d`.
pub open spec fn address_of_octets(a: u8, b: u8, c: u8, d: u8) -> u32 {
    (a * 0x100_0000 + b * 0x1_0000 + c * 0x100 + d) as u32
}

/// The address with the octets `a.b.c.d`.
pub fn ipv4(a: u8, b: u8, c: u8, d: u8) -> (address: u32)
    ensures
        address == address_of_octets(a, b, c, d),
{
    (a as u32) * 0x100_0000 + (b as u32) * 0x1_0000 + (c as u32) * 0x100 + (d as u32)
}

/// A block of size `block_size(prefix_length)` that starts at a multiple of
/// its size ends within the 32-bit addresses.
pub proof fn lemma_block_fits(base_address: u32, prefix_length: u8)
    requires
        is_block(base_address, prefix_length),
    ensures
        0 < block_size(prefix_length) <= 0x1_0000_0000,
        base_address + block_size(prefix_length) <= 0x1_0000_0000,
        prefix_length == 32 ==> block_size(prefix_length) == 1,
{
    let size = block_size(prefix_length) as int;
    let blocks = pow2(prefix_length as nat) as int;
    let base = base_address as int;
    lemma2_to64();
    lemma_pow2_pos((32 - prefix_length) as nat);
    lemma_pow2_pos(prefix_length as nat);
    lemma_pow2_adds(prefix_length as nat, (32 - prefix_length) as nat);
    assert(blocks * size == 0x1_0000_0000);
    assert(size <= 0x1_0000_0000) by (nonlinear_arith)
        requires
            blocks * size == 0x1_0000_0000,
            blocks >= 1,
            size >= 1,
    ;
    let q = base / size;
    assert(base == q * size) by (nonlinear_arith)
        requires
            q == base / size,
            base % size == 0,
            size > 0,
    ;
    assert(base + size <= 0x1_0000_0000) by (nonlinear_arith)
        requires
            base == q * size,
            blocks * size == 0x1_0000_0000,
            base < 0x1_0000_0000,
            size > 0,
    ;
}

/// Computes `block_size`.
fn size_of_block(prefix_length: u8) -> (size: u64)
    requires
        prefix_length <= 32,
    ensures
        size == block_size(prefix_length),
        0 < size <= 0x1_0000_0000,
{
    let shift: u64 = (32 - prefix_length) as u64;
    proof {
        lemma2_to64();
        lemma_pow2_pos(shift as nat);
        lemma_pow2_adds(prefix_length as nat, shift as nat);
        let size = pow2(shift as nat) as int;
        let blocks = pow2(prefix_length as nat) as int;
        lemma_pow2_pos(prefix_length as nat);
        assert(size <= 0x1_0000_0000) by (nonlinear_arith)
            requires
                blocks * size == 0x1_0000_0000,
                blocks >= 1,
                size >= 1,
        ;
        lemma_u64_shl_is_mul(1, shift);
    }
    1u64 << shift
}

/// An IPv4 network: a base address and the length of the prefix that all its
/// addresses share. Every value of this type is a block (see `is_block`), and
/// none changes after it is built.
#[derive(Clone, Copy, Debug, PartialEq, Eq, Structural)]
pub struct NetworkRange {
    base_address: u32,
    prefix_length: u8,
}

impl NetworkRange {
    #[verifier::type_invariant]
    spec fn well_formed(self) -> bool {
        is_block(self.base_address, self.prefix_length)
    }

    pub closed spec fn spec_base_address(&self) -> u32 {
        self.base_address
    }

    pub closed spec fn spec_prefix_length(&self) -> u8 {
        self.prefix_length
    }

    /// What holds of every network that was built.
    pub open spec fn wf(&self) -> bool {
        is_block(self.spec_base_address(), self.spec_prefix_length())
    }

    /// The number of addresses in the network.
    pub open spec fn count(&self) -> nat {
        block_size(self.spec_prefix_length())
    }

    /// The addresses of the network in ascending order, the base address
    /// (the network address) first and the highest (the broadcast address)
    /// last.
    pub open spec fn addresses(&self) -> Seq<u32> {
        Seq::new(self.count(), |i: int| (self.spec_base_address() + i) as u32)
    }

    /// Builds the network of `base_address` and `prefix_length`, which must
    /// form a block.
    pub fn new(base_address: u32, prefix_length: u8) -> (r: Result<NetworkRange, ScanError>)
        ensures
            is_block(base_address, prefix_length) ==> r is Ok,
            !is_block(base_address, prefix_length) ==> r == Err::<NetworkRange, ScanError>(
                ScanError::InvalidNetworkConfiguration,
            ),
            r matches Ok(range) ==> range.wf() && range.spec_base_address() == base_address
                && range.spec_prefix_length() == prefix_length,
    {
        if prefix_length > 32 {
            return Err(ScanError::InvalidNetworkConfiguration);
        }
        let size = size_of_block(prefix_length);
        if base_address as u64 % size != 0 {
            return Err(ScanError::InvalidNetworkConfiguration);
        }
        Ok(NetworkRange { base_address, prefix_length })
    }

    #[verifier::when_used_as_spec(spec_base_address)]
    pub fn base_address(&self) -> (r: u32)
        ensures
            r == self.spec_base_address(),
            self.wf(),
    {
        proof {
            use_type_invariant(self);
        }
        self.base_address
    }

    #[verifier::when_used_as_spec(spec_prefix_length)]
    pub fn prefix_length(&self) -> (r: u8)
        ensures
            r == self.spec_prefix_length(),
            self.wf(),
    {
        proof {
            use_type_invariant(self);
        }
        self.prefix_length
    }

    /// The number of addresses in the network: 2 to the power of the bits
    /// that the prefix leaves free.
    pub fn address_count(&self) -> (n: u64)
        ensures
            n == self.count(),
            n == pow2((32 - self.spec_prefix_length()) as nat),
            n == self.addresses().len(),
            self.wf(),
    {
        proof {
            use_type_invariant(self);
        }
        size_of_block(self.prefix_length)
    }

    /// The address at `index` in `addresses`, if there is one.
    pub fn address_at(&self, index: u64) -> (r: Option<u32>)
        ensures
            self.wf(),
            index < self.count() ==> r == Some(self.addresses()[index as int]),
            index >= self.count() ==> r is None,
    {
        proof {
            use_type_invariant(self);
            lemma_block_fits(self.base_address, self.prefix_length);
        }
        let size = size_of_block(self.prefix_length);
        if index < size {
            Some((self.base_address as u64 + index) as u32)
        } else {
            None
        }
    }

    /// All addresses of the network, as `addresses` lists them.
    pub fn expand(&self) -> (v: Vec<u32>)
        requires
            self.count() <= usize::MAX,
        ensures
            v@ == self.addresses(),
    {
        proof {
            use_type_invariant(self);
            lemma_block_fits(self.base_address, self.prefix_length);
        }
        let size = size_of_block(self.prefix_length);
        let base: u64 = self.base_address as u64;
        let mut v: Vec<u32> = Vec::new();
        let mut i: u64 = 0;
        while i < size
            invariant
                i <= size,
                size == self.count(),
                base == self.spec_base_address(),
                base + size <= 0x1_0000_0000,
                v@ == self.addresses().take(i as int),
            decreases size - i,
        {
            v.push((base + i) as u32);
            assert(v@ =~= self.addresses().take(i + 1));
            i += 1;
        }
        assert(self.addresses().take(size as int) =~= self.addresses());
        v
    }
}

/// The addresses of a network are as many as its block size, ascend by one
/// from the base address, and all lie in the block.
pub proof fn lemma_addresses(range: NetworkRange)
    requires
        range.wf(),
    ensures
        range.addresses().len() == pow2((32 - range.spec_prefix_length()) as nat),
        range.addresses().len() > 0,
        range.addresses().first() == range.spec_base_address(),
        forall|i: int|
            0 <= i < range.addresses().len() ==> #[trigger] range.addresses()[i]
                == range.spec_base_address() + i,
        forall|i: int, j: int|
            0 <= i < j < range.addresses().len() ==> #[trigger] range.addresses()[i]
                < #[trigger] range.addresses()[j],
{
    lemma_block_fits(range.spec_base_address(), range.spec_prefix_length());
}

/// A network with a prefix of 32 bits has one address, its base address.
pub proof fn lemma_host_network(range: NetworkRange)
    requires
        range.wf(),
        range.spec_prefix_length() == 32,
    ensures
        range.addresses() == seq![range.spec_base_address()],
{
    lemma_block_fits(range.spec_base_address(), range.spec_prefix_length());
    assert(range.addresses() =~= seq![range.spec_base_address()]);
}

/// Two networks with the same base address and prefix length have the same
/// addresses in the same order.
pub proof fn lemma_expansion_is_determined(a: NetworkRange, b: NetworkRange)
    requires
        a.spec_base_address() == b.spec_base_address(),
        a.spec_prefix_length() == b.spec_prefix_length(),
    ensures
        a.addresses() == b.addresses(),
{
}

/// Walks through the addresses of a network one at a time, in the order of
/// `NetworkRange::addresses`. A new walk starts with `new`.
pub struct AddressRangeExpander {
    range: NetworkRange,
    position: u64,
}

impl AddressRangeExpander {
    #[verifier::type_invariant]
    spec fn well_formed(self) -> bool {
        self.range.wf() && self.position <= self.range.count()
    }

    /// The network that is walked through.
    pub closed spec fn range(&self) -> NetworkRange {
        self.range
    }

    /// How many addresses have been handed out.
    pub closed spec fn position(&self) -> nat {
        self.position as nat
    }

    pub open spec fn wf(&self) -> bool {
        self.range().wf() && self.position() <= self.range().count()
    }

    /// The addresses that are still to come.
    pub open spec fn remaining(&self) -> Seq<u32> {
        self.range().addresses().skip(self.position() as int)
    }

    /// Starts at the first address of `range`.
    pub fn new(range: NetworkRange) -> (r: AddressRangeExpander)
        ensures
            r.wf(),
            r.range() == range,
            r.position() == 0,
            r.remaining() == range.addresses(),
    {
        let _ = range.address_count();
        assert(range.addresses().skip(0) =~= range.addresses());
        AddressRangeExpander { range, position: 0 }
    }

    /// Hands out the next address, or `None` when all have been handed out.
    pub fn next(&mut self) -> (r: Option<u32>)
        ensures
            final(self).wf(),
            final(self).range() == old(self).range(),
            old(self).remaining().len() > 0 ==> r == Some(old(self).remaining()[0])
                && final(self).remaining() == old(self).remaining().drop_first()
                && final(self).position() == old(self).position() + 1,
            old(self).remaining().len() == 0 ==> r is None && final(self).position() == old(
                self,
            ).position(),
    {
        proof {
            use_type_invariant(&*self);
            lemma_block_fits(self.range.spec_base_address(), self.range.spec_prefix_length());
        }
        let r = self.range.address_at(self.position);
        if r.is_some() {
            self.position = self.position + 1;
            assert(self.remaining() =~= old(self).remaining().drop_first());
        }
        r
    }
}

/// What a text in CIDR notation reads as.
#[derive(Clone, Copy, Debug, PartialEq, Eq, Structural)]
pub enum ParsedNetwork {
    /// An IPv4 network: its first address and the length of its prefix.
    V4(u32, u8),
    /// An IPv6 network: its first address and the length of its prefix.
    V6(u128, u8),
    /// No network.
    Rejected,
}

/// What `cidr::IpCidr::from_str` makes of `text`.
pub uninterp spec fn parsed_network(text: Seq<char>) -> ParsedNetwork;

/// Calls `cidr::IpCidr::from_str` on `text`.
///
/// Trusted: that the outcome depends on the text alone. An accepted network
/// comes back as its first address, as a number, and its prefix length; an
/// error of any kind as `Rejected`.
#[verifier::external_body]
fn parse_network(text: &str) -> (r: ParsedNetwork)
    ensures
        r == parsed_network(text@),
{
    match text.parse::<cidr::IpCidr>() {
        Ok(cidr::IpCidr::V4(net)) => ParsedNetwork::V4(
            u32::from(net.first_address()),
            net.network_length(),
        ),
        Ok(cidr::IpCidr::V6(net)) => ParsedNetwork::V6(
            u128::from(net.first_address()),
            net.network_length(),
        ),
        Err(_) => ParsedNetwork::Rejected,
    }
}

/// The network to scan. Only an IPv4 network has addresses to probe.
#[derive(Clone, Copy, Debug, PartialEq, Eq, Structural)]
pub enum NetworkConfiguration {
    /// An IPv4 network.
    V4(NetworkRange),
    /// An IPv6 network: its first address and the length of its prefix.
    V6(u128, u8),
}

/// Whether `r` is what `parsed` leads to: an IPv4 block becomes its
/// `NetworkRange`, an IPv6 network is kept as it is, and anything else is an
/// `InvalidNetworkConfiguration`.
pub open spec fn is_network_of(
    parsed: ParsedNetwork,
    r: Result<NetworkConfiguration, ScanError>,
) -> bool {
    match parsed {
        ParsedNetwork::V4(base_address, prefix_length) => if is_block(
            base_address,
            prefix_length,
        ) {
            &&& r matches Ok(NetworkConfiguration::V4(range))
            &&& range.wf()
            &&& range.spec_base_address() == base_address
            &&& range.spec_prefix_length() == prefix_length
        } else {
            r == Err::<NetworkConfiguration, ScanError>(ScanError::InvalidNetworkConfiguration)
        },
        ParsedNetwork::V6(base_address, prefix_length) => r == Ok::<
            NetworkConfiguration,
            ScanError,
        >(NetworkConfiguration::V6(base_address, prefix_length)),
        ParsedNetwork::Rejected => r == Err::<NetworkConfiguration, ScanError>(
            ScanError::InvalidNetworkConfiguration,
        ),
    }
}

/// Turns what a text read as into the network to scan.
pub fn network_from_parsed(parsed: ParsedNetwork) -> (r: Result<NetworkConfiguration, ScanError>)
    ensures
        is_network_of(parsed, r),
{
    match parsed {
        ParsedNetwork::V4(base_address, prefix_length) => {
            match NetworkRange::new(base_address, prefix_length) {
                Ok(range) => Ok(NetworkConfiguration::V4(range)),
                Err(e) => Err(e),
            }
        },
        ParsedNetwork::V6(base_address, prefix_length) => Ok(
            NetworkConfiguration::V6(base_address, prefix_length),
        ),
        ParsedNetwork::Rejected => Err(ScanError::InvalidNetworkConfiguration),
    }
}

/// The text in CIDR notation for an address and a prefix length as they were
/// typed: both without surrounding whitespace, and a `/` between them unless
/// the prefix length came with one.
pub open spec fn network_text(network_id: Seq<char>, network_cidr: Seq<char>) -> Seq<char> {
    if network_cidr.contains('/') {
        trimmed(network_id) + trimmed(network_cidr)
    } else {
        trimmed(network_id) + seq!['/'] + trimmed(network_cidr)
    }
}

fn has_slash(s: &str) -> (r: bool)
    ensures
        r == s@.contains('/'),
{
    let v = chars_of(s);
    assert(v@.subrange(0, v.len() as int) =~= v@);
    find_char(&v, 0, v.len(), '/') < v.len()
}

/// Builds the network that `network_id` and `network_cidr` name.
///
/// The two are joined as `network_text` says and read by the `cidr` crate;
/// what comes of it is turned into a network as `is_network_of` says. Fails
/// with `InvalidNetworkConfiguration` where that is no network.
pub fn build_valid_network_configuration(network_id: String, network_cidr: String) -> (r: Result<
    NetworkConfiguration,
    ScanError,
>)
    ensures
        is_network_of(parsed_network(network_text(network_id@, network_cidr@)), r),
{
    let mut network_string: String = String::new();
    network_string.append(trim(network_id.as_str()));
    if !has_slash(network_cidr.as_str()) {
        proof {
            reveal_strlit("/");
        }
        network_string.append("/");
        assert("/"@ =~= seq!['/']);
    }
    network_string.append(trim(network_cidr.as_str()));
    assert(network_string@ =~= network_text(network_id@, network_cidr@));
    network_from_parsed(parse_network(network_string.as_str()))
}

} // verus!
