//! Subnets: an address with a prefix length, and the range of host addresses
//! that the pair denotes.

use vstd::prelude::*;
use vstd::arithmetic::div_mod::*;
use vstd::arithmetic::mul::*;
use vstd::arithmetic::power2::*;
use vstd::bits::lemma_u128_shr_is_div;
use crate::address::{lemma_pow2_values, Family, HostAddress};
use crate::error::ScanError;

verus! {

/// The mathematical content of a subnet.
pub struct SubnetModel {
    pub family: Family,
    pub addr: nat,
    pub prefix_len: nat,
}

impl SubnetModel {
    /// The prefix fits the family, and so does the address.
    pub open spec fn valid(self) -> bool {
        &&& self.prefix_len <= self.family.width()
        &&& self.addr <= self.family.max_address()
    }

    /// Number of address bits that the prefix leaves free.
    pub open spec fn host_bits(self) -> nat {
        (self.family.width() - self.prefix_len) as nat
    }

    /// Number of addresses in the block.
    pub open spec fn block(self) -> nat {
        pow2(self.host_bits())
    }

    /// The block's lowest address: the address with its free bits cleared.
    pub open spec fn network(self) -> int {
        self.addr - self.addr % self.block()
    }

    /// The block's highest address: the address with its free bits set.
    pub open spec fn broadcast(self) -> int {
        self.network() + self.block() - 1
    }

    /// Whether the address `a` belongs to the block: it has the subnet's
    /// prefix.
    pub open spec fn contains(self, a: int) -> bool {
        0 <= a && a / (self.block() as int) == self.addr as int / (self.block() as int)
    }

    /// Whether the lowest and highest address are reserved. They are in an IPv4
    /// block of four addresses or more, and nowhere else.
    pub open spec fn trims_edges(self) -> bool {
        self.family == Family::V4 && self.prefix_len < 31
    }

    /// The lowest host address.
    pub open spec fn first_host(self) -> int {
        if self.trims_edges() {
            self.network() + 1
        } else {
            self.network()
        }
    }

    /// The highest host address.
    pub open spec fn last_host(self) -> int {
        if self.trims_edges() {
            self.broadcast() - 1
        } else {
            self.broadcast()
        }
    }

    /// Number of host addresses.
    pub open spec fn host_count(self) -> nat {
        (self.last_host() - self.first_host() + 1) as nat
    }

    /// The host addresses in ascending order.
    pub open spec fn hosts(self) -> Seq<HostAddress> {
        Seq::new(
            self.host_count(),
            |i: int| HostAddress { family: self.family, bits: (self.first_host() + i) as u128 },
        )
    }
}

/// The textbook count of usable hosts under a prefix: for IPv4 the block less
/// its two reserved addresses, except that a /31 keeps both of its addresses
/// and a /32 is a single host; for IPv6 the whole block.
pub open spec fn usable_hosts(family: Family, prefix_len: nat) -> nat {
    match family {
        Family::V4 => if prefix_len <= 30 {
            (pow2((32 - prefix_len) as nat) - 2) as nat
        } else if prefix_len == 31 {
            2
        } else {
            1
        },
        Family::V6 => pow2((128 - prefix_len) as nat),
    }
}

/// The block of a valid subnet lies within its family, holds the subnet's own
/// address, and starts at a multiple of its size.
pub proof fn lemma_block_bounds(m: SubnetModel)
    requires
        m.valid(),
    ensures
        1 <= m.block() <= pow2(m.family.width()),
        0 <= m.network() <= m.addr <= m.broadcast() <= m.family.max_address(),
        m.network() % (m.block() as int) == 0,
{
    let block = m.block() as int;
    let addr = m.addr as int;
    let q = addr / block;
    let cap = pow2(m.prefix_len) as int;
    lemma_pow2_pos(m.host_bits());
    lemma_pow2_pos(m.prefix_len);
    lemma_pow2_adds(m.host_bits(), m.prefix_len);
    assert(pow2(m.family.width()) == block * cap);
    lemma_fundamental_div_mod(addr, block);
    lemma_mod_pos_bound(addr, block);
    assert(m.network() == block * q);
    assert(q < cap) by {
        lemma_multiply_divide_lt(addr, block, cap);
    }
    assert(block * (q + 1) <= block * cap) by {
        lemma_mul_inequality(q + 1, cap, block);
        lemma_mul_is_commutative(q + 1, block);
        lemma_mul_is_commutative(cap, block);
    }
    assert(block * (q + 1) == block * q + block) by {
        lemma_mul_is_distributive_add(block, q, 1);
    }
    assert(0 <= block * q) by {
        lemma_div_pos_is_pos(addr, block);
        lemma_mul_nonnegative(block, q);
    }
    assert(block <= block * cap) by {
        lemma_mul_inequality(1, cap, block);
        lemma_mul_is_commutative(cap, block);
    }
    assert((block * q) % block == 0) by {
        lemma_mod_multiples_basic(q, block);
        lemma_mul_is_commutative(q, block);
    }
}

/// The number of hosts that a valid subnet enumerates is the textbook count for
/// its prefix length, and where the block's edges are reserved, neither the
/// network address nor the broadcast address is among the hosts.
pub proof fn lemma_host_count_is_usable_hosts(m: SubnetModel)
    requires
        m.valid(),
    ensures
        m.hosts().len() == usable_hosts(m.family, m.prefix_len),
        m.network() <= m.first_host() <= m.last_host() <= m.broadcast(),
        forall|i: int|
            0 <= i < m.hosts().len() ==> {
                &&& (#[trigger] m.hosts()[i]).family == m.family
                &&& m.hosts()[i].bits == m.first_host() + i
                &&& m.network() <= m.hosts()[i].bits <= m.broadcast()
                &&& m.hosts()[i].valid()
            },
        m.trims_edges() ==> forall|i: int|
            0 <= i < m.hosts().len() ==> {
                &&& (#[trigger] m.hosts()[i]).bits != m.network()
                &&& m.hosts()[i].bits != m.broadcast()
            },
{
    lemma_block_bounds(m);
    lemma_pow2_values();
    lemma2_to64();
    if m.trims_edges() {
        assert(m.block() >= 4) by {
            if m.host_bits() > 2 {
                lemma_pow2_strictly_increases(2, m.host_bits());
            }
        }
    }
    if m.family == Family::V4 && m.prefix_len == 31 {
        assert(m.host_bits() == 1);
    }
    if m.family == Family::V4 && m.prefix_len == 32 {
        assert(m.host_bits() == 0);
    }
}

/// What `ipnet` reads from a subnet written as text: nothing where it rejects
/// the text, else whether the address is IPv6, the address as an integer, and
/// the prefix length.
pub uninterp spec fn ipnet_from_str(text: Seq<char>) -> Option<(bool, u128, u8)>;

/// The error that `ipnet` returns for text that is no subnet; it carries no
/// detail.
#[verifier::external_type_specification]
#[verifier::external_body]
pub struct ExAddrParseError(ipnet::AddrParseError);

/// Parses `text` with `ipnet::IpNet::from_str` and takes the result apart into
/// integers. The contract only names the outcome: the same text always gives
/// the same outcome, and an error comes exactly when `ipnet` accepts no
/// subnet in the text.
#[verifier::external_body]
fn parse_ipnet(text: &str) -> (r: Result<(bool, u128, u8), ipnet::AddrParseError>)
    ensures
        match r {
            Ok(fields) => ipnet_from_str(text@) == Some(fields),
            Err(_) => ipnet_from_str(text@) is None,
        },
{
    match text.parse::<ipnet::IpNet>() {
        Ok(ipnet::IpNet::V4(net)) => Ok(
            (false, u128::from(u32::from(net.addr())), net.prefix_len()),
        ),
        Ok(ipnet::IpNet::V6(net)) => Ok((true, u128::from(net.addr()), net.prefix_len())),
        Err(e) => Err(e),
    }
}

/// The family that a parsed subnet's flag stands for.
pub open spec fn family_of(is_v6: bool) -> Family {
    if is_v6 {
        Family::V6
    } else {
        Family::V4
    }
}

/// The subnet that `text` denotes, if it denotes one: the parser accepts it
/// and what it read is valid.
pub open spec fn parsed_subnet(text: Seq<char>) -> Option<SubnetModel> {
    match ipnet_from_str(text) {
        Some((is_v6, addr, prefix_len)) => {
            let m = SubnetModel {
                family: family_of(is_v6),
                addr: addr as nat,
                prefix_len: prefix_len as nat,
            };
            if m.valid() {
                Some(m)
            } else {
                None
            }
        },
        None => None,
    }
}

/// The hosts of a valid subnet are the addresses that have its prefix, less
/// the network and the broadcast address where these are reserved: nothing
/// else is enumerated, and none of them is left out.
pub proof fn lemma_hosts_are_the_block(m: SubnetModel, h: HostAddress)
    requires
        m.valid(),
    ensures
        m.contains(h.bits as int) <==> m.network() <= h.bits <= m.broadcast(),
        m.hosts().contains(h) <==> {
            &&& h.family == m.family
            &&& m.contains(h.bits as int)
            &&& !(m.trims_edges() && (h.bits == m.network() || h.bits == m.broadcast()))
        },
{
    let block = m.block() as int;
    let a = h.bits as int;
    let q = m.addr as int / block;
    lemma_block_bounds(m);
    lemma_host_count_is_usable_hosts(m);
    lemma_fundamental_div_mod(m.addr as int, block);
    lemma_fundamental_div_mod(a, block);
    lemma_mod_pos_bound(a, block);
    assert(m.network() == block * q);
    if m.network() <= a <= m.broadcast() {
        assert(a == q * block + (a - m.network())) by {
            lemma_mul_is_commutative(q, block);
        }
        lemma_fundamental_div_mod_converse_div(a, block, q, a - m.network());
    }
    if m.first_host() <= a <= m.last_host() && h.family == m.family {
        let i = a - m.first_host();
        assert(m.hosts()[i] == h);
    }
}

/// A network address with its prefix length.
#[derive(Clone, Copy, Debug, PartialEq, Eq, Structural)]
pub struct Subnet {
    family: Family,
    addr: u128,
    prefix_len: u8,
}

impl View for Subnet {
    type V = SubnetModel;

    closed spec fn view(&self) -> SubnetModel {
        SubnetModel {
            family: self.family,
            addr: self.addr as nat,
            prefix_len: self.prefix_len as nat,
        }
    }
}

impl Subnet {
    /// The invariant of every subnet that this module hands out.
    pub open spec fn wf(&self) -> bool {
        self@.valid()
    }

    /// The subnet of `addr` under `prefix_len`, if the prefix length is valid
    /// for the family and the address belongs to it.
    pub fn new(family: Family, addr: u128, prefix_len: u8) -> (r: Result<Subnet, ScanError>)
        ensures
            match r {
                Ok(s) => s.wf() && s@ == (SubnetModel {
                    family,
                    addr: addr as nat,
                    prefix_len: prefix_len as nat,
                }),
                Err(e) => e == ScanError::InvalidSubnet && !(SubnetModel {
                    family,
                    addr: addr as nat,
                    prefix_len: prefix_len as nat,
                }).valid(),
            },
    {
        if prefix_len > family.bits() || addr > family.last_address() {
            Err(ScanError::InvalidSubnet)
        } else {
            Ok(Subnet { family, addr, prefix_len })
        }
    }

    /// Reads a subnet in address/prefix-length notation, such as
    /// `192.168.1.0/24` or `fd00::/64`.
    pub fn parse(text: &str) -> (r: Result<Subnet, ScanError>)
        ensures
            match r {
                Ok(s) => s.wf() && parsed_subnet(text@) == Some(s@),
                Err(e) => e == ScanError::InvalidSubnet && parsed_subnet(text@) is None,
            },
    {
        match parse_ipnet(text) {
            Ok((is_v6, addr, prefix_len)) => {
                let family: Family = if is_v6 {
                    Family::V6
                } else {
                    Family::V4
                };
                Subnet::new(family, addr, prefix_len)
            },
            Err(_) => Err(ScanError::InvalidSubnet),
        }
    }

    /// The address family.
    pub fn family(&self) -> (f: Family)
        ensures
            f == self@.family,
    {
        self.family
    }

    /// The address as written, host bits included.
    pub fn addr(&self) -> (a: HostAddress)
        ensures
            a.family == self@.family,
            a.bits == self@.addr,
    {
        HostAddress { family: self.family, bits: self.addr }
    }

    /// The prefix length.
    pub fn prefix_len(&self) -> (p: u8)
        ensures
            p == self@.prefix_len,
    {
        self.prefix_len
    }

    /// The mask of the bits that the prefix leaves free: one less than the
    /// number of addresses in the block.
    pub fn host_mask(&self) -> (mask: u128)
        requires
            self.wf(),
        ensures
            mask == self@.block() - 1,
    {
        let free: u8 = self.family.bits() - self.prefix_len;
        if free == 0 {
            proof {
                lemma_pow2_values();
            }
            0
        } else {
            let shift: u128 = (128 - free) as u128;
            proof {
                lemma_low_mask_by_shift(free as nat);
                assert(shift == 128 - free);
            }
            u128::MAX >> shift
        }
    }

    /// The block's lowest address.
    pub fn network(&self) -> (a: HostAddress)
        requires
            self.wf(),
        ensures
            a.family == self@.family,
            a.bits == self@.network(),
    {
        let mask: u128 = self.host_mask();
        proof {
            lemma_block_bounds(self@);
            lemma_pow2_values();
        }
        if mask == u128::MAX {
            proof {
                lemma_small_mod(self@.addr, self@.block());
            }
            HostAddress { family: self.family, bits: 0 }
        } else {
            let block: u128 = mask + 1;
            HostAddress { family: self.family, bits: self.addr - self.addr % block }
        }
    }

    /// The block's highest address.
    pub fn broadcast(&self) -> (a: HostAddress)
        requires
            self.wf(),
        ensures
            a.family == self@.family,
            a.bits == self@.broadcast(),
    {
        let mask: u128 = self.host_mask();
        let low: HostAddress = self.network();
        proof {
            lemma_block_bounds(self@);
            lemma_pow2_values();
        }
        HostAddress { family: self.family, bits: low.bits + mask }
    }

    /// Whether the block's lowest and highest address are reserved.
    pub fn trims_edges(&self) -> (b: bool)
        ensures
            b == self@.trims_edges(),
    {
        self.family == Family::V4 && self.prefix_len < 31
    }

    /// The lowest host address.
    pub fn first_host(&self) -> (a: HostAddress)
        requires
            self.wf(),
        ensures
            a.family == self@.family,
            a.bits == self@.first_host(),
    {
        let low: HostAddress = self.network();
        proof {
            lemma_block_bounds(self@);
            lemma_pow2_values();
        }
        if self.trims_edges() {
            HostAddress { family: self.family, bits: low.bits + 1 }
        } else {
            low
        }
    }

    /// The highest host address.
    pub fn last_host(&self) -> (a: HostAddress)
        requires
            self.wf(),
        ensures
            a.family == self@.family,
            a.bits == self@.last_host(),
    {
        let high: HostAddress = self.broadcast();
        proof {
            lemma_host_count_is_usable_hosts(self@);
            lemma_block_bounds(self@);
        }
        if self.trims_edges() {
            HostAddress { family: self.family, bits: high.bits - 1 }
        } else {
            high
        }
    }

    /// The number of host addresses, computed from the block's bounds. `None`
    /// stands for the one count that exceeds `u128`: the 2^128 addresses of the
    /// whole IPv6 space.
    pub fn host_count(&self) -> (n: Option<u128>)
        requires
            self.wf(),
        ensures
            match n {
                Some(count) => count == self@.host_count(),
                None => self@.host_count() > u128::MAX,
            },
            self@.host_count() == usable_hosts(self@.family, self@.prefix_len),
    {
        let first: HostAddress = self.first_host();
        let last: HostAddress = self.last_host();
        proof {
            lemma_host_count_is_usable_hosts(self@);
            lemma_block_bounds(self@);
        }
        let gap: u128 = last.bits - first.bits;
        if gap == u128::MAX {
            None
        } else {
            Some(gap + 1)
        }
    }
}

/// Shifting the all-ones word right leaves exactly the low `free` bits set.
proof fn lemma_low_mask_by_shift(free: nat)
    requires
        1 <= free <= 128,
    ensures
        (u128::MAX >> ((128 - free) as u128)) == pow2(free) - 1,
{
    let shift = (128 - free) as nat;
    let d = pow2(shift) as int;
    let q = pow2(free) as int - 1;
    lemma_pow2_values();
    lemma_pow2_pos(shift);
    lemma_pow2_pos(free);
    lemma_pow2_adds(shift, free);
    assert(u128::MAX as int == q * d + (d - 1)) by {
        lemma_mul_is_distributive_sub_other_way(d, pow2(free) as int, 1);
        lemma_mul_is_commutative(d, pow2(free) as int);
    }
    lemma_fundamental_div_mod_converse_div(u128::MAX as int, d, q, d - 1);
    lemma_u128_shr_is_div(u128::MAX, shift as u128);
}

} // verus!
