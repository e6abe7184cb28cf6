//! The lazy sequence of a subnet's host addresses.

use vstd::prelude::*;
use crate::address::{Family, HostAddress};
use crate::error::ScanError;
use crate::subnet::{
    lemma_block_bounds, lemma_host_count_is_usable_hosts, parsed_subnet, usable_hosts, Subnet,
};

verus! {

/// A cursor over the host addresses of one subnet, in ascending order. It never
/// holds more than the two ends of what is left, so a block of any size can be
/// walked and counted.
#[derive(Clone, Copy, Debug)]
pub struct AddressEnumerator {
    family: Family,
    next: u128,
    last: u128,
    live: bool,
}

impl View for AddressEnumerator {
    type V = Seq<HostAddress>;

    /// The addresses that are still to come, in the order in which they come.
    closed spec fn view(&self) -> Seq<HostAddress> {
        if self.live {
            Seq::new(
                (self.last - self.next + 1) as nat,
                |i: int| HostAddress { family: self.family, bits: (self.next + i) as u128 },
            )
        } else {
            Seq::empty()
        }
    }
}

impl AddressEnumerator {
    /// The invariant of every enumerator that this module hands out.
    pub closed spec fn wf(&self) -> bool {
        self.live ==> self.next <= self.last <= self.family.max_address()
    }

    /// Every address that a well-formed enumerator still holds is an address
    /// of its family.
    pub proof fn lemma_hosts_are_valid(self)
        requires
            self.wf(),
        ensures
            forall|i: int| 0 <= i < self@.len() ==> (#[trigger] self@[i]).valid(),
    {
    }

    /// An enumerator at the start of `subnet`'s hosts. Calling this again
    /// restarts the sequence.
    pub fn new(subnet: &Subnet) -> (e: Self)
        requires
            subnet.wf(),
        ensures
            e.wf(),
            e@ == subnet@.hosts(),
            e@.len() == usable_hosts(subnet@.family, subnet@.prefix_len),
    {
        let first: HostAddress = subnet.first_host();
        let last: HostAddress = subnet.last_host();
        proof {
            lemma_host_count_is_usable_hosts(subnet@);
            lemma_block_bounds(subnet@);
        }
        let e = AddressEnumerator {
            family: subnet.family(),
            next: first.bits,
            last: last.bits,
            live: true,
        };
        assert(e@ =~= subnet@.hosts());
        e
    }

    /// An enumerator over the hosts of the subnet written in `text`.
    pub fn parse(text: &str) -> (r: Result<Self, ScanError>)
        ensures
            match r {
                Ok(e) => e.wf() && parsed_subnet(text@) is Some && e@ == parsed_subnet(
                    text@,
                )->0.hosts(),
                Err(err) => err == ScanError::InvalidSubnet && parsed_subnet(text@) is None,
            },
    {
        match Subnet::parse(text) {
            Ok(subnet) => Ok(AddressEnumerator::new(&subnet)),
            Err(err) => Err(err),
        }
    }

    /// Whether no address is left.
    pub fn is_exhausted(&self) -> (b: bool)
        requires
            self.wf(),
        ensures
            b == (self@.len() == 0),
    {
        !self.live
    }

    /// The number of addresses that are left, found without walking them.
    /// `None` stands for the one count that exceeds `u128`: all 2^128 addresses
    /// of the IPv6 space.
    pub fn remaining(&self) -> (n: Option<u128>)
        requires
            self.wf(),
        ensures
            match n {
                Some(count) => count == self@.len(),
                None => self@.len() > u128::MAX,
            },
    {
        if !self.live {
            Some(0)
        } else {
            let gap: u128 = self.last - self.next;
            if gap == u128::MAX {
                None
            } else {
                Some(gap + 1)
            }
        }
    }

    /// Takes the next address off the front, if one is left.
    pub fn next_host(&mut self) -> (host: Option<HostAddress>)
        requires
            old(self).wf(),
        ensures
            final(self).wf(),
            old(self)@.len() == 0 ==> host is None && final(self)@ == old(self)@,
            old(self)@.len() > 0 ==> host == Some(old(self)@[0]) && final(self)@ == old(
                self,
            )@.drop_first(),
            host matches Some(h) ==> h.valid(),
    {
        if !self.live {
            return None;
        }
        let current = HostAddress { family: self.family, bits: self.next };
        if self.next == self.last {
            self.live = false;
        } else {
            self.next = self.next + 1;
        }
        assert(self@ =~= old(self)@.drop_first());
        Some(current)
    }
}

} // verus!
