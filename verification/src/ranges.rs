//! Expansion of address ranges in CIDR notation into the addresses they cover.

use std::str::FromStr;
use vstd::prelude::*;
use vstd::arithmetic::power2::{
    lemma2_to64,
    lemma_pow2_adds,
    lemma_pow2_pos,
    lemma_pow2_strictly_increases,
    lemma_pow2_unfold,
    pow2,
};
use crate::address::Address;

verus! {

/// An address range: an address and the number of its leading bits that all
/// members of the range share.
#[allow(inconsistent_fields)]
#[derive(Debug, Clone, Copy, PartialEq, Eq, Hash, Structural)]
pub enum Network {
    V4 { address: u32, prefix: u8 },
    V6 { address: u128, prefix: u8 },
}

impl Network {
    /// Number of bits in an address of the range's family.
    pub open spec fn bits(self) -> nat {
        match self {
            Network::V4 { .. } => 32,
            Network::V6 { .. } => 128,
        }
    }

    /// The address the range was written with.
    pub open spec fn address(self) -> nat {
        match self {
            Network::V4 { address, .. } => address as nat,
            Network::V6 { address, .. } => address as nat,
        }
    }

    /// Number of leading bits that the members share.
    pub open spec fn prefix(self) -> nat {
        match self {
            Network::V4 { prefix, .. } => prefix as nat,
            Network::V6 { prefix, .. } => prefix as nat,
        }
    }

    /// Whether the prefix is no longer than an address.
    pub open spec fn wf(self) -> bool {
        self.prefix() <= self.bits()
    }

    /// Number of addresses in the range.
    pub open spec fn size(self) -> nat {
        pow2((self.bits() - self.prefix()) as nat)
    }

    /// The lowest address of the range: the written address with the bits
    /// after the prefix cleared.
    pub open spec fn first(self) -> nat {
        (self.address() - self.address() % self.size()) as nat
    }

    /// The member at position `at`, counted from the lowest.
    pub open spec fn member(self, at: int) -> Address {
        match self {
            Network::V4 { .. } => Address::V4((self.first() + at) as u32),
            Network::V6 { .. } => Address::V6((self.first() + at) as u128),
        }
    }

    /// All addresses of the range, ascending.
    pub open spec fn addresses(self) -> Seq<Address> {
        Seq::new(self.size(), |at: int| self.member(at))
    }
}

/// The range ends within its family's addresses: its lowest address plus its
/// size is at most two to the number of address bits.
pub proof fn range_stays_in_family(network: Network)
    requires
        network.wf(),
    ensures
        network.size() > 0,
        network.first() + network.size() <= pow2(network.bits()),
        network.first() <= network.address() < network.first() + network.size(),
{
    let size = network.size();
    let address = network.address();
    let first = network.first();
    let shared = pow2(network.prefix());
    lemma_pow2_pos((network.bits() - network.prefix()) as nat);
    lemma_pow2_pos(network.prefix());
    lemma_pow2_adds(network.prefix(), (network.bits() - network.prefix()) as nat);
    assert(pow2(network.bits()) == shared * size);
    family_limits();
    assert(address < shared * size);
    assert(0 <= address % size <= address && address % size < size) by (nonlinear_arith)
        requires
            size > 0,
            address >= 0,
    ;
    assert(first + size <= shared * size) by (nonlinear_arith)
        requires
            size > 0,
            shared > 0,
            0 <= address < shared * size,
            first == address - address % size,
    ;
}

/// The number of IPv4 and of IPv6 addresses.
pub proof fn family_limits()
    ensures
        pow2(32) == 0x1_0000_0000,
        pow2(128) == 0x1_0000_0000_0000_0000_0000_0000_0000_0000,
{
    lemma2_to64();
    lemma_pow2_adds(64, 64);
}

/// Two to the power of `exponent`.
fn power_of_two(exponent: u32) -> (power: u64)
    requires
        exponent <= 63,
    ensures
        power == pow2(exponent as nat),
{
    let mut power: u64 = 1;
    let mut done: u32 = 0;
    proof {
        lemma2_to64();
    }
    while done < exponent
        invariant
            done <= exponent <= 63,
            power == pow2(done as nat),
        decreases exponent - done,
    {
        proof {
            lemma_pow2_unfold((done + 1) as nat);
            lemma_pow2_strictly_increases(done as nat, 63);
            lemma_pow2_unfold(64);
            lemma2_to64();
        }
        power = power * 2;
        done = done + 1;
    }
    power
}

/// The number of addresses in a range, where the machine can count that far.
pub fn network_size(network: &Network) -> (size: Option<usize>)
    requires
        network.wf(),
    ensures
        size == if network.size() <= usize::MAX {
            Some(network.size() as usize)
        } else {
            None::<usize>
        },
{
    let host_bits: u32 = match network {
        Network::V4 { prefix, .. } => 32 - (*prefix as u32),
        Network::V6 { prefix, .. } => 128 - (*prefix as u32),
    };
    proof {
        lemma2_to64();
    }
    if host_bits > 63 {
        proof {
            if host_bits > 64 {
                lemma_pow2_strictly_increases(64, host_bits as nat);
            }
        }
        None
    } else {
        let size = power_of_two(host_bits);
        if size > usize::MAX as u64 {
            None
        } else {
            Some(size as usize)
        }
    }
}

/// Appends all addresses of a range, ascending.
pub fn append_addresses(out: &mut Vec<Address>, network: &Network)
    requires
        network.wf(),
        old(out)@.len() + network.size() <= usize::MAX,
    ensures
        final(out)@ == old(out)@ + network.addresses(),
{
    proof {
        range_stays_in_family(*network);
        family_limits();
        let (address, size) = (network.address() as int, network.size() as int);
        assert(0 <= address % size <= address) by (nonlinear_arith)
            requires
                size > 0,
                address >= 0,
        ;
    }
    let size = match network_size(network) {
        Some(size) => size,
        None => 0,
    };
    match network {
        Network::V4 { address, .. } => {
            let first: u64 = (*address as u64) - (*address as u64) % (size as u64);
            let mut at: usize = 0;
            assert(out@ =~= old(out)@ + network.addresses().take(0));
            while at < size
                invariant
                    at <= size == network.size(),
                    first == network.first(),
                    network.first() + network.size() <= 0x1_0000_0000,
                    *network matches Network::V4 { .. },
                    old(out)@.len() + network.size() <= usize::MAX,
                    out@ == old(out)@ + network.addresses().take(at as int),
                decreases size - at,
            {
                out.push(Address::V4((first + at as u64) as u32));
                assert(out@ =~= old(out)@ + network.addresses().take(at + 1));
                at = at + 1;
            }
            assert(network.addresses().take(at as int) =~= network.addresses());
        },
        Network::V6 { address, .. } => {
            let first: u128 = *address - *address % (size as u128);
            let mut at: usize = 0;
            assert(out@ =~= old(out)@ + network.addresses().take(0));
            while at < size
                invariant
                    at <= size == network.size(),
                    first == network.first(),
                    network.first() + network.size() <= 0x1_0000_0000_0000_0000_0000_0000_0000_0000,
                    *network matches Network::V6 { .. },
                    old(out)@.len() + network.size() <= usize::MAX,
                    out@ == old(out)@ + network.addresses().take(at as int),
                decreases size - at,
            {
                out.push(Address::V6(first + at as u128));
                assert(out@ =~= old(out)@ + network.addresses().take(at + 1));
                at = at + 1;
            }
            assert(network.addresses().take(at as int) =~= network.addresses());
        },
    }
}


/// The addresses that a list of ranges covers: those of each range in turn,
/// in the order of the list. An entry that is no range covers nothing.
pub open spec fn covered(networks: Seq<Option<Network>>) -> Seq<Address>
    decreases networks.len(),
{
    if networks.len() == 0 {
        Seq::empty()
    } else {
        covered(networks.drop_last()) + match networks.last() {
            Some(network) => network.addresses(),
            None => Seq::empty(),
        }
    }
}

/// The sizes of the ranges in a list, added up.
pub open spec fn total_size(networks: Seq<Option<Network>>) -> nat
    decreases networks.len(),
{
    if networks.len() == 0 {
        0
    } else {
        total_size(networks.drop_last()) + match networks.last() {
            Some(network) => network.size(),
            None => 0,
        }
    }
}

/// The positions of the entries that are no range, ascending.
pub open spec fn rejected_positions(networks: Seq<Option<Network>>) -> Seq<usize>
    decreases networks.len(),
{
    if networks.len() == 0 {
        Seq::empty()
    } else {
        let before = rejected_positions(networks.drop_last());
        match networks.last() {
            Some(_) => before,
            None => before.push((networks.len() - 1) as usize),
        }
    }
}

/// Whether every range in the list has a prefix that fits its family.
pub open spec fn all_wf(networks: Seq<Option<Network>>) -> bool {
    forall|at: int|
        0 <= at < networks.len() ==> (#[trigger] networks[at] matches Some(network)
            ==> network.wf())
}

/// What expanding a list of ranges yields.
#[derive(Debug, Clone)]
pub struct Expansion {
    /// Every address that the ranges cover, range after range.
    pub addresses: Vec<Address>,
    /// Positions in the list of the entries that could not be read as a range.
    pub rejected: Vec<usize>,
}

/// Expands ranges that have been read already; `None` stands for an entry
/// that could not be read. No entry keeps the others from being expanded.
pub fn expand_networks(networks: &Vec<Option<Network>>) -> (expansion: Expansion)
    requires
        all_wf(networks@),
        total_size(networks@) <= usize::MAX,
    ensures
        expansion.addresses@ == covered(networks@),
        expansion.rejected@ == rejected_positions(networks@),
{
    let mut addresses: Vec<Address> = Vec::new();
    let mut rejected: Vec<usize> = Vec::new();
    let mut at: usize = 0;
    assert(networks@.take(0) =~= Seq::<Option<Network>>::empty());
    while at < networks.len()
        invariant
            at <= networks@.len(),
            all_wf(networks@),
            total_size(networks@) <= usize::MAX,
            addresses@ == covered(networks@.take(at as int)),
            addresses@.len() == total_size(networks@.take(at as int)),
            rejected@ == rejected_positions(networks@.take(at as int)),
        decreases networks@.len() - at,
    {
        proof {
            assert(networks@.take(at + 1).drop_last() =~= networks@.take(at as int));
            assert(networks@.take(at + 1).last() == networks@[at as int]);
            total_size_grows(networks@, at + 1);
        }
        match &networks[at] {
            Some(network) => {
                append_addresses(&mut addresses, network);
            },
            None => {
                rejected.push(at);
                assert(addresses@ =~= addresses@ + Seq::<Address>::empty());
            },
        }
        at = at + 1;
    }
    assert(networks@.take(at as int) =~= networks@);
    Expansion { addresses, rejected }
}

/// The sizes of the first entries of a list add up to no more than those of
/// the whole list.
pub proof fn total_size_grows(networks: Seq<Option<Network>>, count: int)
    requires
        0 <= count <= networks.len(),
    ensures
        total_size(networks.take(count)) <= total_size(networks),
    decreases networks.len(),
{
    if count == networks.len() {
        assert(networks.take(count) =~= networks);
    } else {
        total_size_grows(networks.drop_last(), count);
        assert(networks.drop_last().take(count) =~= networks.take(count));
    }
}

/// A list covers as many addresses as its ranges have between them; entries
/// that are no range add none.
pub proof fn covered_len_is_total_size(networks: Seq<Option<Network>>)
    ensures
        covered(networks).len() == total_size(networks),
    decreases networks.len(),
{
    if networks.len() > 0 {
        covered_len_is_total_size(networks.drop_last());
    }
}

/// An entry that is no range contributes no address: the list covers the
/// same addresses with the entry and without it.
pub proof fn malformed_entry_contributes_nothing(networks: Seq<Option<Network>>, at: int)
    requires
        0 <= at < networks.len(),
        networks[at] is None,
    ensures
        covered(networks) == covered(networks.remove(at)),
        total_size(networks) == total_size(networks.remove(at)),
    decreases networks.len(),
{
    if at == networks.len() - 1 {
        assert(networks.remove(at) =~= networks.drop_last());
        assert(covered(networks) =~= covered(networks.drop_last()));
    } else {
        malformed_entry_contributes_nothing(networks.drop_last(), at);
        assert(networks.remove(at).drop_last() =~= networks.drop_last().remove(at));
        assert(networks.remove(at).last() == networks.last());
    }
}

/// What `str::trim` of the standard library leaves of a text: the text
/// without the white space at its two ends.
pub uninterp spec fn trimmed(text: Seq<char>) -> Seq<char>;

/// Calls `str::trim`. The contract gives the result its name and states no
/// more of it.
#[verifier::external_body]
fn trim(text: &str) -> (inner: &str)
    ensures
        inner@ == trimmed(text@),
{
    text.trim()
}

/// The range that `ipnetwork` reads from a text in CIDR notation, `None`
/// where it reads none.
pub uninterp spec fn cidr_network(text: Seq<char>) -> Option<Network>;

/// Calls `ipnetwork::IpNetwork::from_str` and hands the address and the prefix
/// of what it read on as numbers. An error becomes `None`. The contract names
/// the result, and states of it that the prefix is no longer than an address:
/// the crate builds a network through `Ipv4Network::new` and
/// `Ipv6Network::new`, which refuse a longer one.
#[verifier::external_body]
fn read_network(text: &str) -> (network: Option<Network>)
    ensures
        network == cidr_network(text@),
        network matches Some(read) ==> read.wf(),
{
    match ipnetwork::IpNetwork::from_str(text) {
        Ok(ipnetwork::IpNetwork::V4(range)) => Some(
            Network::V4 { address: u32::from(range.ip()), prefix: range.prefix() },
        ),
        Ok(ipnetwork::IpNetwork::V6(range)) => Some(
            Network::V6 { address: u128::from(range.ip()), prefix: range.prefix() },
        ),
        Err(_) => None,
    }
}

/// The range that an entry of the list stands for: white space at its ends
/// does not count.
pub open spec fn network_of_entry(entry: Seq<char>) -> Option<Network> {
    cidr_network(trimmed(entry))
}

/// The ranges that the entries of a list stand for, `None` for an entry that
/// is no range.
pub open spec fn networks_of(cidr_list: Seq<Seq<char>>) -> Seq<Option<Network>> {
    Seq::new(cidr_list.len(), |at: int| network_of_entry(cidr_list[at]))
}

/// Reads every entry of a list.
pub fn read_networks(cidr_list: &Vec<String>) -> (networks: Vec<Option<Network>>)
    ensures
        networks@ == networks_of(cidr_list.deep_view()),
        all_wf(networks@),
{
    let mut networks: Vec<Option<Network>> = Vec::new();
    let mut at: usize = 0;
    while at < cidr_list.len()
        invariant
            at <= cidr_list@.len(),
            networks@ == networks_of(cidr_list.deep_view()).take(at as int),
            all_wf(networks@),
        decreases cidr_list@.len() - at,
    {
        let network = read_network(trim(cidr_list[at].as_str()));
        assert(cidr_list.deep_view()[at as int] == cidr_list@[at as int]@);
        networks.push(network);
        assert(networks@ =~= networks_of(cidr_list.deep_view()).take(at + 1));
        at = at + 1;
    }
    assert(networks@ =~= networks_of(cidr_list.deep_view()));
    networks
}

/// Expands a list of ranges in CIDR notation into the addresses they cover,
/// range after range. An entry that cannot be read as a range is left out and
/// its position reported; it never keeps the other entries from being
/// expanded.
pub fn parse_cidr_list(cidr_list: &Vec<String>) -> (expansion: Expansion)
    requires
        total_size(networks_of(cidr_list.deep_view())) <= usize::MAX,
    ensures
        expansion.addresses@ == covered(networks_of(cidr_list.deep_view())),
        expansion.rejected@ == rejected_positions(networks_of(cidr_list.deep_view())),
{
    let networks = read_networks(cidr_list);
    expand_networks(&networks)
}

/// The sizes of the ranges in a list added up, where the machine can count
/// that far.
pub fn total_network_size(networks: &Vec<Option<Network>>) -> (total: Option<usize>)
    requires
        all_wf(networks@),
    ensures
        total == if total_size(networks@) <= usize::MAX {
            Some(total_size(networks@) as usize)
        } else {
            None::<usize>
        },
{
    let mut total: usize = 0;
    let mut at: usize = 0;
    assert(networks@.take(0) =~= Seq::<Option<Network>>::empty());
    while at < networks.len()
        invariant
            at <= networks@.len(),
            all_wf(networks@),
            total == total_size(networks@.take(at as int)),
        decreases networks@.len() - at,
    {
        proof {
            assert(networks@.take(at + 1).drop_last() =~= networks@.take(at as int));
            assert(networks@.take(at + 1).last() == networks@[at as int]);
            total_size_grows(networks@, at + 1);
        }
        match &networks[at] {
            Some(network) => {
                match network_size(network) {
                    Some(size) => {
                        if size > usize::MAX - total {
                            return None;
                        }
                        total = total + size;
                    },
                    None => {
                        return None;
                    },
                }
            },
            None => {},
        }
        at = at + 1;
    }
    assert(networks@.take(at as int) =~= networks@);
    Some(total)
}

/// Expands a list of ranges like `parse_cidr_list`, for any list: where the
/// ranges cover more addresses than the machine can hold in one list, the
/// answer is `None`.
pub fn checked_parse_cidr_list(cidr_list: &Vec<String>) -> (expansion: Option<Expansion>)
    ensures
        expansion is Some <==> total_size(networks_of(cidr_list.deep_view())) <= usize::MAX,
        expansion matches Some(found) ==> {
            &&& found.addresses@ == covered(networks_of(cidr_list.deep_view()))
            &&& found.rejected@ == rejected_positions(networks_of(cidr_list.deep_view()))
        },
{
    let networks = read_networks(cidr_list);
    match total_network_size(&networks) {
        Some(_) => Some(parse_cidr_list(cidr_list)),
        None => None,
    }
}

} // verus!
