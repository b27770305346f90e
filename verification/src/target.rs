//! Targets: every address of a network paired with every port.

use crate::network::{lemma_block_fits, NetworkRange};
use crate::text::{append_decimal, decimal_text};
use vstd::arithmetic::div_mod::lemma_fundamental_div_mod_converse;
use vstd::prelude::*;
use vstd::string::StringExecFns;

verus! {

/// One endpoint to probe.
#[derive(Clone, Copy, Debug, PartialEq, Eq, Structural)]
pub struct Target {
    pub address: u32,
    pub port: u16,
}

/// The targets for `addresses` and `ports`: for every address in order, one
/// target for every port in order. Nothing is left out and nothing is merged,
/// so there are as many targets as addresses times ports.
pub open spec fn target_set(addresses: Seq<u32>, ports: Seq<u16>) -> Seq<Target> {
    Seq::new(
        addresses.len() * ports.len(),
        |k: int|
            Target {
                address: addresses[k / ports.len() as int],
                port: ports[k % ports.len() as int],
            },
    )
}

/// The place of the pair (address `i`, port `j`) among the targets.
pub proof fn lemma_target_index(i: int, j: int, address_count: int, port_count: int)
    requires
        0 <= i < address_count,
        0 <= j < port_count,
    ensures
        0 <= i * port_count + j < address_count * port_count,
        (i * port_count + j) / port_count == i,
        (i * port_count + j) % port_count == j,
        (i + 1) * port_count == i * port_count + port_count,
{
    assert(0 <= i * port_count) by (nonlinear_arith)
        requires
            0 <= i,
            0 < port_count,
    ;
    assert((i + 1) * port_count == i * port_count + port_count) by (nonlinear_arith);
    assert((i + 1) * port_count <= address_count * port_count) by (nonlinear_arith)
        requires
            i + 1 <= address_count,
            0 < port_count,
    ;
    lemma_fundamental_div_mod_converse(i * port_count + j, port_count, i, j);
}

/// The targets come address by address, and within an address port by port:
/// there are as many as addresses times ports, and the target of address `i`
/// and port `j` stands at `i * ports.len() + j`.
pub proof fn lemma_target_set(addresses: Seq<u32>, ports: Seq<u16>, i: int, j: int)
    requires
        0 <= i < addresses.len(),
        0 <= j < ports.len(),
    ensures
        target_set(addresses, ports).len() == addresses.len() * ports.len(),
        0 <= i * ports.len() + j < target_set(addresses, ports).len(),
        target_set(addresses, ports)[i * ports.len() + j] == (Target {
            address: addresses[i],
            port: ports[j],
        }),
{
    lemma_target_index(i, j, addresses.len() as int, ports.len() as int);
}

/// Equal addresses and equal ports give equal targets in equal order.
pub proof fn lemma_target_set_is_determined(
    addresses: Seq<u32>,
    ports: Seq<u16>,
    other_addresses: Seq<u32>,
    other_ports: Seq<u16>,
)
    requires
        addresses == other_addresses,
        ports == other_ports,
    ensures
        target_set(addresses, ports) == target_set(other_addresses, other_ports),
{
}

/// Builds all targets for `addresses` and `ports`.
pub fn build_targets(addresses: &Vec<u32>, ports: &Vec<u16>) -> (targets: Vec<Target>)
    requires
        addresses.len() * ports.len() <= usize::MAX,
    ensures
        targets@ == target_set(addresses@, ports@),
        targets.len() == addresses.len() * ports.len(),
{
    let ghost all = target_set(addresses@, ports@);
    let mut targets: Vec<Target> = Vec::new();
    let mut i: usize = 0;
    while i < addresses.len()
        invariant
            i <= addresses.len(),
            all == target_set(addresses@, ports@),
            0 <= i * ports.len() <= all.len(),
            targets@ == all.take(i * ports.len()),
        decreases addresses.len() - i,
    {
        let mut j: usize = 0;
        while j < ports.len()
            invariant
                i < addresses.len(),
                j <= ports.len(),
                all == target_set(addresses@, ports@),
                0 <= i * ports.len() + j <= all.len(),
                targets@ == all.take(i * ports.len() + j),
            decreases ports.len() - j,
        {
            proof {
                lemma_target_index(i as int, j as int, addresses.len() as int, ports.len() as int);
            }
            targets.push(Target { address: addresses[i], port: ports[j] });
            assert(targets@ =~= all.take(i * ports.len() + j + 1));
            j += 1;
        }
        proof {
            assert((i + 1) * ports.len() == i * ports.len() + ports.len()) by (nonlinear_arith);
            assert((i + 1) * ports.len() <= addresses.len() * ports.len()) by (nonlinear_arith)
                requires
                    i + 1 <= addresses.len(),
            ;
        }
        i += 1;
    }
    assert(all.take(all.len() as int) =~= all);
    targets
}

/// Hands out the targets of a network and a list of ports one at a time, in
/// the order of `target_set`, without holding them all.
pub struct TargetSetBuilder {
    range: NetworkRange,
    ports: Vec<u16>,
    address_index: u64,
    port_index: usize,
}

impl TargetSetBuilder {
    #[verifier::type_invariant]
    spec fn well_formed(self) -> bool {
        &&& self.range.wf()
        &&& self.address_index <= self.range.count()
        &&& self.address_index < self.range.count() ==> self.port_index < self.ports.len()
        &&& self.address_index == self.range.count() ==> self.port_index == 0
    }

    /// The network whose addresses are paired.
    pub closed spec fn range(&self) -> NetworkRange {
        self.range
    }

    /// The ports that every address is paired with.
    pub closed spec fn ports(&self) -> Seq<u16> {
        self.ports@
    }

    /// How many targets have been handed out.
    pub closed spec fn position(&self) -> nat {
        if self.ports.len() == 0 {
            0
        } else {
            (self.address_index * self.ports.len() + self.port_index) as nat
        }
    }

    /// All targets, handed out or not.
    pub open spec fn targets(&self) -> Seq<Target> {
        target_set(self.range().addresses(), self.ports())
    }

    /// Starts before the first target. A network paired with no port has no
    /// targets.
    pub fn new(range: NetworkRange, ports: Vec<u16>) -> (r: TargetSetBuilder)
        ensures
            r.range() == range,
            r.ports() == ports@,
            r.position() == 0,
    {
        let count = range.address_count();
        proof {
            lemma_block_fits(range.spec_base_address(), range.spec_prefix_length());
        }
        if ports.len() == 0 {
            TargetSetBuilder { range, ports, address_index: count, port_index: 0 }
        } else {
            TargetSetBuilder { range, ports, address_index: 0, port_index: 0 }
        }
    }

    /// Hands out the next target, or `None` when all have been handed out.
    pub fn next(&mut self) -> (r: Option<Target>)
        ensures
            final(self).range() == old(self).range(),
            final(self).ports() == old(self).ports(),
            old(self).position() <= old(self).targets().len(),
            old(self).position() < old(self).targets().len() ==> r == Some(
                old(self).targets()[old(self).position() as int],
            ) && final(self).position() == old(self).position() + 1,
            old(self).position() == old(self).targets().len() ==> r is None
                && final(self).position() == old(self).position(),
    {
        proof {
            use_type_invariant(&*self);
            lemma_block_fits(self.range.spec_base_address(), self.range.spec_prefix_length());
        }
        let count = self.range.address_count();
        if self.address_index >= count {
            proof {
                if self.ports.len() > 0 {
                    assert(self.address_index * self.ports.len() == self.range.count()
                        * self.ports.len()) by (nonlinear_arith)
                        requires
                            self.address_index == self.range.count(),
                    ;
                } else {
                    assert(self.range.count() * self.ports.len() == 0) by (nonlinear_arith)
                        requires
                            self.ports.len() == 0,
                    ;
                }
            }
            return None;
        }
        let address = match self.range.address_at(self.address_index) {
            Some(address) => address,
            None => {
                return None;
            },
        };
        let port = self.ports[self.port_index];
        proof {
            lemma_target_index(
                self.address_index as int,
                self.port_index as int,
                self.range.count() as int,
                self.ports.len() as int,
            );
        }
        if self.port_index + 1 < self.ports.len() {
            self.port_index = self.port_index + 1;
        } else {
            self.port_index = 0;
            self.address_index = self.address_index + 1;
        }
        Some(Target { address, port })
    }
}

/// The octets of `address` in decimal, with dots between them.
pub open spec fn dotted_quad(address: u32) -> Seq<char> {
    decimal_text((address / 0x100_0000) as nat) + seq!['.'] + decimal_text(
        (address / 0x1_0000 % 0x100) as nat,
    ) + seq!['.'] + decimal_text((address / 0x100 % 0x100) as nat) + seq!['.'] + decimal_text(
        (address % 0x100) as nat,
    )
}

/// The endpoint of a target as text: the address, a colon, the port.
pub open spec fn endpoint_text(target: Target) -> Seq<char> {
    dotted_quad(target.address) + seq![':'] + decimal_text(target.port as nat)
}

impl Target {
    /// The endpoint as text, such as `10.0.0.1:80`. There is one for every
    /// address and every port.
    pub fn endpoint(&self) -> (r: String)
        ensures
            r@ == endpoint_text(*self),
    {
        proof {
            reveal_strlit(".");
            reveal_strlit(":");
        }
        assert("."@ =~= seq!['.']);
        assert(":"@ =~= seq![':']);
        let mut text = String::new();
        append_decimal(&mut text, (self.address / 0x100_0000) as u64);
        text.append(".");
        append_decimal(&mut text, (self.address / 0x1_0000 % 0x100) as u64);
        text.append(".");
        append_decimal(&mut text, (self.address / 0x100 % 0x100) as u64);
        text.append(".");
        append_decimal(&mut text, (self.address % 0x100) as u64);
        text.append(":");
        append_decimal(&mut text, self.port as u64);
        assert(text@ =~= endpoint_text(*self));
        text
    }
}

} // verus!
