//! IP reputation: a blocklist and an allowlist of networks, each replaced
//! as a whole when it is loaded again.

use crate::text::{
    chars_of, push_str, split, split_on, string_of, trim, trimmed, views,
};
use crate::trie::{some_network_holds, IpAddress, IpNetwork, IpTrie};
use arc_swap::ArcSwap;
use std::sync::Arc;
use vstd::prelude::*;

verus! {

broadcast use vstd::string::group_string_axioms;

/// What the lists say of an address.
#[derive(Debug, Clone, Copy, PartialEq, Eq, Structural)]
pub enum IpAction {
    /// The address is on the allowlist.
    Allow,
    /// The address is on the blocklist and not on the allowlist.
    Block,
    /// The address is on neither list.
    Unlisted,
}

/// A cell that holds one trie and hands out the one it holds at the moment
/// it is asked: an `ArcSwap` of the `arc_swap` crate.
#[verifier::external_body]
pub struct TrieCell {
    inner: ArcSwap<IpTrie>,
}

/// The networks of the trie that a cell holds, each as its family (true for
/// IPv6) and its prefix.
pub uninterp spec fn held_networks(cell: TrieCell) -> Set<(bool, Seq<bool>)>;

/// `ArcSwap::from_pointee`: a cell that holds `trie`.
#[verifier::external_body]
fn cell_new(trie: IpTrie) -> (cell: TrieCell)
    ensures
        held_networks(cell) == trie.networks(),
{
    TrieCell { inner: ArcSwap::from_pointee(trie) }
}

/// `ArcSwapAny::load_full`: the trie that the cell holds.
#[verifier::external_body]
fn cell_load(cell: &TrieCell) -> (trie: Arc<IpTrie>)
    ensures
        trie.networks() == held_networks(*cell),
{
    cell.inner.load_full()
}

/// `ArcSwapAny::store`: the cell holds `trie` afterwards.
#[verifier::external_body]
fn cell_store(cell: &mut TrieCell, trie: IpTrie)
    ensures
        held_networks(*final(cell)) == trie.networks(),
{
    cell.inner.store(Arc::new(trie));
}

// ---------------------------------------------------------------------------
// Reading networks and addresses
// ---------------------------------------------------------------------------

/// What the `ipnet` crate reads a text as: the family (true for IPv6), the
/// octets of the address and the length of the prefix of a network in CIDR
/// notation, or nothing where the text is no such network.
pub uninterp spec fn cidr_of_text(s: Seq<char>) -> Option<(bool, Seq<u8>, u8)>;

/// `IpNet::from_str`, the network taken apart into family, octets of the
/// address as written, and length of the prefix.
#[verifier::external_body]
fn parse_cidr_text(s: &str) -> (r: Option<(bool, Vec<u8>, u8)>)
    ensures
        match r {
            Some(parts) => cidr_of_text(s@) == Some((parts.0, parts.1@, parts.2)),
            None => cidr_of_text(s@) is None,
        },
{
    match s.parse::<ipnet::IpNet>() {
        Ok(ipnet::IpNet::V4(net)) => Some((false, net.addr().octets().to_vec(), net.prefix_len())),
        Ok(ipnet::IpNet::V6(net)) => Some((true, net.addr().octets().to_vec(), net.prefix_len())),
        Err(_) => None,
    }
}

/// A network as the trie holds it: its family and its prefix.
pub type NetworkKey = (bool, Seq<bool>);

/// The address that the parts of a network give, where the octets are as
/// many as the family asks for.
pub open spec fn address_of_parts(v6: bool, octets: Seq<u8>) -> Option<IpAddress> {
    if v6 && octets.len() == 16 {
        Some(
            IpAddress::V6(
                [
                    octets[0],
                    octets[1],
                    octets[2],
                    octets[3],
                    octets[4],
                    octets[5],
                    octets[6],
                    octets[7],
                    octets[8],
                    octets[9],
                    octets[10],
                    octets[11],
                    octets[12],
                    octets[13],
                    octets[14],
                    octets[15],
                ],
            ),
        )
    } else if !v6 && octets.len() == 4 {
        Some(IpAddress::V4([octets[0], octets[1], octets[2], octets[3]]))
    } else {
        None
    }
}

/// The key of the network that parts give: none where the octets do not fit
/// the family or the prefix is longer than the address.
pub open spec fn key_of_parts(parts: (bool, Seq<u8>, u8)) -> Option<NetworkKey> {
    match address_of_parts(parts.0, parts.1) {
        Some(addr) => if parts.2 <= addr.bits().len() {
            Some((parts.0, addr.bits().take(parts.2 as int)))
        } else {
            None
        },
        None => None,
    }
}

/// The address that a text writes: what stands before the `/` of the
/// network of that one address.
pub open spec fn address_of_text(s: Seq<char>) -> Option<IpAddress> {
    match cidr_of_text(s + "/32"@) {
        Some(parts) if !parts.0 && parts.2 == 32 => address_of_parts(false, parts.1),
        _ => match cidr_of_text(s + "/128"@) {
            Some(parts) if parts.0 && parts.2 == 128 => address_of_parts(true, parts.1),
            _ => None,
        },
    }
}

/// The key of the network that a text writes: a network in CIDR notation,
/// or else a single address, which stands for the network of that address
/// alone.
pub open spec fn key_of_text(s: Seq<char>) -> Option<NetworkKey> {
    match cidr_of_text(s) {
        Some(parts) if key_of_parts(parts) is Some => key_of_parts(parts),
        _ => match address_of_text(s) {
            Some(addr) => Some((addr.is_v6(), addr.bits())),
            None => None,
        },
    }
}

/// The key of a network, from the network itself.
pub open spec fn key_of(net: IpNetwork) -> NetworkKey {
    (net.is_v6(), net.prefix())
}

fn address_from_parts(v6: bool, octets: &Vec<u8>) -> (r: Option<IpAddress>)
    ensures
        r == address_of_parts(v6, octets@),
{
    if v6 && octets.len() == 16 {
        let mut o: [u8; 16] = [0;16];
        let mut i: usize = 0;
        while i < 16
            invariant
                i <= 16,
                octets@.len() == 16,
                forall|k: int| 0 <= k < i ==> o@[k] == octets@[k],
            decreases 16 - i,
        {
            o[i] = octets[i];
            i += 1;
        }
        let addr = IpAddress::V6(o);
        proof {
            assert(o@ =~= address_of_parts(v6, octets@)->Some_0.octets());
            assert(addr == address_of_parts(v6, octets@)->Some_0) by {
                let want = address_of_parts(v6, octets@)->Some_0;
                assert(want is V6);
                assert(want->V6_0@ =~= o@);
                vstd::array::axiom_array_ext_equal(want->V6_0, o);
            }
        }
        Some(addr)
    } else if !v6 && octets.len() == 4 {
        let o: [u8; 4] = [octets[0], octets[1], octets[2], octets[3]];
        Some(IpAddress::V4(o))
    } else {
        None
    }
}

/// Reads a network in CIDR notation: the address keeps the bits it was
/// written with, those beyond the prefix too.
pub fn parse_network(s: &str) -> (r: Option<IpNetwork>)
    ensures
        match r {
            Some(net) => {
                &&& cidr_of_text(s@) matches Some(parts)
                &&& key_of_parts(parts) == Some(key_of(net))
                &&& address_of_parts(parts.0, parts.1) == Some(net.address())
                &&& net.length() == parts.2
            },
            None => cidr_of_text(s@) is None || key_of_parts(cidr_of_text(s@)->Some_0) is None,
        },
{
    match parse_cidr_text(s) {
        Some(parts) => match address_from_parts(parts.0, &parts.1) {
            Some(addr) => IpNetwork::new(addr, parts.2),
            None => None,
        },
        None => None,
    }
}

/// Reads a single address.
pub fn parse_address(s: &str) -> (r: Option<IpAddress>)
    ensures
        r == address_of_text(s@),
{
    let mut four = chars_of(s);
    push_str(&mut four, "/32");
    let four_text = string_of(four.as_slice());
    match parse_cidr_text(four_text.as_str()) {
        Some(parts) => {
            if !parts.0 && parts.2 == 32 {
                return address_from_parts(false, &parts.1);
            }
        },
        None => {},
    }
    let mut six = chars_of(s);
    push_str(&mut six, "/128");
    let six_text = string_of(six.as_slice());
    match parse_cidr_text(six_text.as_str()) {
        Some(parts) => {
            if parts.0 && parts.2 == 128 {
                return address_from_parts(true, &parts.1);
            }
        },
        None => {},
    }
    None
}

/// Reads an entry of a list: a network in CIDR notation or a single
/// address.
pub fn parse_entry(s: &str) -> (r: Option<IpNetwork>)
    ensures
        match r {
            Some(net) => key_of_text(s@) == Some(key_of(net)),
            None => key_of_text(s@) is None,
        },
{
    match parse_network(s) {
        Some(net) => Some(net),
        None => match parse_address(s) {
            Some(addr) => {
                let net = IpNetwork::host(addr);
                proof {
                    assert(net.prefix() =~= addr.bits());
                }
                Some(net)
            },
            None => None,
        },
    }
}

// ---------------------------------------------------------------------------
// Lists
// ---------------------------------------------------------------------------

/// The key of the network that a line of a list writes. White space around
/// the entry does not count; an empty line and a line that begins with `#`
/// write none, and neither does a line that cannot be read.
pub open spec fn key_of_line(line: Seq<char>) -> Option<NetworkKey> {
    let entry = trimmed(line);
    if entry.len() == 0 || entry[0] == '#' {
        None
    } else {
        key_of_text(entry)
    }
}

/// The networks that the first `n` lines write.
pub open spec fn keys_of_lines(lines: Seq<Seq<char>>, n: int) -> Set<NetworkKey> {
    Set::new(
        |key: NetworkKey| exists|i: int| 0 <= i < n && key_of_line(#[trigger] lines[i]) == Some(key),
    )
}

/// The networks that a list writes, one line for each.
pub open spec fn networks_of_list(contents: Seq<char>) -> Set<NetworkKey> {
    let lines = split(contents, '\n');
    keys_of_lines(lines, lines.len() as int)
}

/// The trie of the networks that a list writes.
pub fn parse_list(contents: &str) -> (trie: IpTrie)
    ensures
        trie.wf(),
        trie.networks() == networks_of_list(contents@),
{
    let text = chars_of(contents);
    let lines = split_on(text.as_slice(), '\n');
    let mut trie = IpTrie::new();
    let mut i: usize = 0;
    let ghost all = views(lines@);
    proof {
        assert(trie.networks() =~= keys_of_lines(all, 0));
    }
    while i < lines.len()
        invariant
            i <= lines.len(),
            all == views(lines@),
            trie.wf(),
            trie.networks() == keys_of_lines(all, i as int),
        decreases lines.len() - i,
    {
        let entry = trim(lines[i].as_slice());
        proof {
            assert(all[i as int] == lines@[i as int]@);
        }
        let ghost before = trie.networks();
        if entry.len() > 0 && entry[0] != '#' {
            let entry_text = string_of(entry.as_slice());
            match parse_entry(entry_text.as_str()) {
                Some(net) => {
                    trie.insert(net);
                },
                None => {},
            }
        }
        proof {
            let line_key = key_of_line(all[i as int]);
            assert(trie.networks() == (match line_key {
                Some(k) => before.insert(k),
                None => before,
            }));
            assert(trie.networks() =~= keys_of_lines(all, i + 1)) by {
                assert forall|key: NetworkKey|
                    trie.networks().contains(key) <==> keys_of_lines(all, i + 1).contains(key) by {
                    if keys_of_lines(all, i + 1).contains(key) {
                        let j = choose|j: int|
                            0 <= j < i + 1 && key_of_line(#[trigger] all[j]) == Some(key);
                        if j < i {
                            assert(keys_of_lines(all, i as int).contains(key));
                        }
                    }
                    if before.contains(key) {
                        let j = choose|j: int|
                            0 <= j < i && key_of_line(#[trigger] all[j]) == Some(key);
                        assert(0 <= j < i + 1);
                    }
                }
            }
        }
        i += 1;
    }
    trie
}

// ---------------------------------------------------------------------------
// The matcher
// ---------------------------------------------------------------------------

/// What two lists say of an address: the allowlist is asked first, and the
/// blocklist only where the allowlist does not hold the address.
pub open spec fn action_of(allowed: bool, blocked: bool) -> IpAction {
    if allowed {
        IpAction::Allow
    } else if blocked {
        IpAction::Block
    } else {
        IpAction::Unlisted
    }
}

/// An address is allowed exactly when the allowlist holds it, and an
/// address that both lists hold is never blocked.
pub proof fn lemma_allowlist_precedence(allowed: bool, blocked: bool)
    ensures
        action_of(allowed, blocked) == IpAction::Allow <==> allowed,
        allowed && blocked ==> action_of(allowed, blocked) != IpAction::Block,
        action_of(allowed, blocked) == IpAction::Block <==> blocked && !allowed,
{
}

/// The allowlist and the blocklist.
pub struct IpReputation {
    blocklist: TrieCell,
    allowlist: TrieCell,
}

impl IpReputation {
    /// The networks on the blocklist.
    pub closed spec fn blocked(&self) -> Set<NetworkKey> {
        held_networks(self.blocklist)
    }

    /// The networks on the allowlist.
    pub closed spec fn allowed(&self) -> Set<NetworkKey> {
        held_networks(self.allowlist)
    }

    /// Two empty lists.
    pub fn new() -> (rep: IpReputation)
        ensures
            rep.blocked() == Set::<NetworkKey>::empty(),
            rep.allowed() == Set::<NetworkKey>::empty(),
    {
        IpReputation { blocklist: cell_new(IpTrie::new()), allowlist: cell_new(IpTrie::new()) }
    }

    /// Replaces the blocklist by the networks that `contents` writes, and
    /// gives their number. The allowlist stays.
    pub fn load_blocklist(&mut self, contents: &str) -> (count: usize)
        ensures
            final(self).blocked() == networks_of_list(contents@),
            final(self).allowed() == old(self).allowed(),
            count == (if networks_of_list(contents@).len() <= usize::MAX {
                networks_of_list(contents@).len() as int
            } else {
                usize::MAX as int
            }),
    {
        let trie = parse_list(contents);
        let count = trie.len();
        cell_store(&mut self.blocklist, trie);
        count
    }

    /// Replaces the allowlist by the networks that `contents` writes, and
    /// gives their number. The blocklist stays.
    pub fn load_allowlist(&mut self, contents: &str) -> (count: usize)
        ensures
            final(self).allowed() == networks_of_list(contents@),
            final(self).blocked() == old(self).blocked(),
            count == (if networks_of_list(contents@).len() <= usize::MAX {
                networks_of_list(contents@).len() as int
            } else {
                usize::MAX as int
            }),
    {
        let trie = parse_list(contents);
        let count = trie.len();
        cell_store(&mut self.allowlist, trie);
        count
    }

    /// Whether the blocklist holds `addr`.
    pub fn is_blocked(&self, addr: IpAddress) -> (r: bool)
        ensures
            r == some_network_holds(self.blocked(), addr),
    {
        let trie = cell_load(&self.blocklist);
        trie.contains(addr)
    }

    /// Whether the allowlist holds `addr`.
    pub fn is_allowed(&self, addr: IpAddress) -> (r: bool)
        ensures
            r == some_network_holds(self.allowed(), addr),
    {
        let trie = cell_load(&self.allowlist);
        trie.contains(addr)
    }

    /// What the lists say of `addr`; the allowlist goes first.
    pub fn check(&self, addr: IpAddress) -> (r: IpAction)
        ensures
            r == action_of(
                some_network_holds(self.allowed(), addr),
                some_network_holds(self.blocked(), addr),
            ),
    {
        if self.is_allowed(addr) {
            IpAction::Allow
        } else if self.is_blocked(addr) {
            IpAction::Block
        } else {
            IpAction::Unlisted
        }
    }

    /// Replaces both lists: each by the networks that its contents write,
    /// or by the empty list where there are no contents.
    pub fn reload_from_config(&mut self, blocklist: Option<&str>, allowlist: Option<&str>)
        ensures
            final(self).blocked() == (match blocklist {
                Some(contents) => networks_of_list(contents@),
                None => Set::<NetworkKey>::empty(),
            }),
            final(self).allowed() == (match allowlist {
                Some(contents) => networks_of_list(contents@),
                None => Set::<NetworkKey>::empty(),
            }),
    {
        match blocklist {
            Some(contents) => {
                self.load_blocklist(contents);
            },
            None => {
                cell_store(&mut self.blocklist, IpTrie::new());
            },
        }
        match allowlist {
            Some(contents) => {
                self.load_allowlist(contents);
            },
            None => {
                cell_store(&mut self.allowlist, IpTrie::new());
            },
        }
    }
}

} // verus!
