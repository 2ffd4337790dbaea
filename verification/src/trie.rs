//! A binary prefix trie over IPv4 and IPv6 networks.
//!
//! An address is a string of bits, the most significant bit of the first
//! octet first. A network is the set of addresses of one family that begin
//! with its prefix.

use crate::bits::{bit_of_byte, bits_of};
use vstd::prelude::*;

verus! {

/// An IP address, as its octets in network order.
#[derive(Debug, Clone, Copy)]
pub enum IpAddress {
    V4([u8; 4]),
    V6([u8; 16]),
}

impl IpAddress {
    /// The address is an IPv6 address.
    pub open spec fn is_v6(&self) -> bool {
        self is V6
    }

    /// The octets of the address.
    pub open spec fn octets(&self) -> Seq<u8> {
        match self {
            IpAddress::V4(o) => o@,
            IpAddress::V6(o) => o@,
        }
    }

    /// The bits of the address: 32 or 128 of them.
    pub open spec fn bits(&self) -> Seq<bool> {
        bits_of(self.octets())
    }

    /// Whether the address is an IPv6 address.
    pub fn is_ipv6(&self) -> (r: bool)
        ensures
            r == self.is_v6(),
    {
        match self {
            IpAddress::V4(_) => false,
            IpAddress::V6(_) => true,
        }
    }

    /// The number of bits of the address.
    pub fn width(&self) -> (w: u8)
        ensures
            w == self.bits().len(),
            w == 32 || w == 128,
    {
        match self {
            IpAddress::V4(_) => 32,
            IpAddress::V6(_) => 128,
        }
    }

    /// Bit `i` of the address, counted from the most significant bit of the
    /// first octet.
    pub fn bit(&self, i: usize) -> (r: bool)
        requires
            i < self.bits().len(),
        ensures
            r == self.bits()[i as int],
    {
        match self {
            IpAddress::V4(o) => bit_of_byte(o[i / 8], i % 8),
            IpAddress::V6(o) => bit_of_byte(o[i / 8], i % 8),
        }
    }

    /// The bits of the address as numbers 0 and 1, the most significant bit
    /// of the first octet first.
    pub fn to_bits(&self) -> (out: Vec<u8>)
        ensures
            out@.len() == self.bits().len(),
            forall|i: int|
                0 <= i < out@.len() ==> out@[i] == (if self.bits()[i] {
                    1u8
                } else {
                    0u8
                }),
    {
        let width: usize = self.width() as usize;
        let mut out: Vec<u8> = Vec::new();
        let mut i: usize = 0;
        while i < width
            invariant
                i <= width,
                width == self.bits().len(),
                out@.len() == i,
                forall|k: int|
                    0 <= k < i ==> out@[k] == (if self.bits()[k] {
                        1u8
                    } else {
                        0u8
                    }),
            decreases width - i,
        {
            if self.bit(i) {
                out.push(1);
            } else {
                out.push(0);
            }
            i += 1;
        }
        out
    }
}

/// A network: an address and the number of its leading bits that count.
#[derive(Debug, Clone, Copy)]
pub struct IpNetwork {
    addr: IpAddress,
    prefix_len: u8,
}

impl IpNetwork {
    #[verifier::type_invariant]
    spec fn well_formed(self) -> bool {
        self.prefix_len <= self.addr.bits().len()
    }

    /// The address the network was written with.
    pub closed spec fn address(&self) -> IpAddress {
        self.addr
    }

    /// The length of the prefix in bits.
    pub closed spec fn length(&self) -> nat {
        self.prefix_len as nat
    }

    /// The network is one of IPv6 addresses.
    pub open spec fn is_v6(&self) -> bool {
        self.address().is_v6()
    }

    /// The prefix: the leading bits that every address of the network has.
    pub open spec fn prefix(&self) -> Seq<bool> {
        self.address().bits().take(self.length() as int)
    }

    /// The network holds `addr`: both are of one family, and the address
    /// begins with the prefix.
    pub open spec fn holds(&self, addr: IpAddress) -> bool {
        self.is_v6() == addr.is_v6() && self.prefix().is_prefix_of(addr.bits())
    }

    /// The network of the first `prefix_len` bits of `addr`; `None` where
    /// the address has fewer bits.
    pub fn new(addr: IpAddress, prefix_len: u8) -> (r: Option<IpNetwork>)
        ensures
            r is Some <==> prefix_len <= addr.bits().len(),
            r matches Some(net) ==> net.address() == addr && net.length() == prefix_len,
    {
        if prefix_len <= addr.width() {
            Some(IpNetwork { addr, prefix_len })
        } else {
            None
        }
    }

    /// The network that holds `addr` and nothing else.
    pub fn host(addr: IpAddress) -> (net: IpNetwork)
        ensures
            net.address() == addr,
            net.length() == addr.bits().len(),
    {
        let prefix_len = addr.width();
        IpNetwork { addr, prefix_len }
    }

    /// The address the network was written with.
    pub fn addr(&self) -> (a: IpAddress)
        ensures
            a == self.address(),
    {
        self.addr
    }

    /// The length of the prefix in bits.
    pub fn prefix_len(&self) -> (n: u8)
        ensures
            n == self.length(),
            n <= self.address().bits().len(),
    {
        proof {
            use_type_invariant(self);
        }
        self.prefix_len
    }

    /// Whether the network holds `addr`.
    pub fn contains(&self, addr: IpAddress) -> (r: bool)
        ensures
            r == self.holds(addr),
    {
        proof {
            use_type_invariant(self);
        }
        if self.addr.is_ipv6() != addr.is_ipv6() {
            return false;
        }
        let n: usize = self.prefix_len as usize;
        let mut i: usize = 0;
        while i < n
            invariant
                i <= n,
                n == self.length(),
                n <= self.address().bits().len(),
                self.address().bits().len() == addr.bits().len(),
                forall|k: int| 0 <= k < i ==> self.address().bits()[k] == addr.bits()[k],
            decreases n - i,
        {
            if self.addr.bit(i) != addr.bit(i) {
                proof {
                    if self.prefix().is_prefix_of(addr.bits()) {
                        assert(self.prefix()[i as int] == addr.bits()[i as int]);
                    }
                }
                return false;
            }
            i += 1;
        }
        proof {
            assert(self.prefix() =~= addr.bits().take(n as int));
        }
        true
    }
}

/// A node of the trie.
pub struct TrieNode {
    zero: Option<Box<TrieNode>>,
    one: Option<Box<TrieNode>>,
    is_terminal: bool,
}

impl TrieNode {
    /// The child for a bit.
    pub closed spec fn child(&self, bit: bool) -> Option<Box<TrieNode>> {
        if bit {
            self.one
        } else {
            self.zero
        }
    }

    /// The node that `path` leads to from here is terminal.
    pub closed spec fn marks(&self, path: Seq<bool>) -> bool
        decreases path.len(),
    {
        if path.len() == 0 {
            self.is_terminal
        } else {
            match self.child(path[0]) {
                Some(c) => c.marks(path.drop_first()),
                None => false,
            }
        }
    }

    /// Some node on the way along `bits`, this one included, is terminal.
    pub closed spec fn covers(&self, bits: Seq<bool>) -> bool
        decreases bits.len(),
    {
        self.is_terminal || (bits.len() > 0 && match self.child(bits[0]) {
            Some(c) => c.covers(bits.drop_first()),
            None => false,
        })
    }

    /// The number of terminal nodes below and at this node.
    pub closed spec fn terminal_count(&self) -> nat
        decreases self,
    {
        (if self.is_terminal {
            1nat
        } else {
            0nat
        }) + (match self.zero {
            Some(c) => c.terminal_count(),
            None => 0,
        }) + (match self.one {
            Some(c) => c.terminal_count(),
            None => 0,
        })
    }

    /// Some node on the way is terminal exactly when some start of the way
    /// leads to a terminal node.
    pub proof fn lemma_covers_iff_marks_prefix(&self, bits: Seq<bool>)
        ensures
            self.covers(bits) <==> exists|k: int| 0 <= k <= bits.len() && self.marks(#[trigger] bits.take(k)),
        decreases bits.len(),
    {
        if self.is_terminal {
            assert(self.marks(bits.take(0)));
        } else if bits.len() > 0 {
            match self.child(bits[0]) {
                Some(c) => {
                    let rest = bits.drop_first();
                    c.lemma_covers_iff_marks_prefix(rest);
                    if c.covers(rest) {
                        let k = choose|k: int| 0 <= k <= rest.len() && c.marks(#[trigger] rest.take(k));
                        assert(bits.take(k + 1).drop_first() =~= rest.take(k));
                        assert(bits.take(k + 1)[0] == bits[0]);
                        assert(self.marks(bits.take(k + 1)));
                    }
                    if exists|k: int| 0 <= k <= bits.len() && self.marks(#[trigger] bits.take(k)) {
                        let k = choose|k: int| 0 <= k <= bits.len() && self.marks(#[trigger] bits.take(k));
                        assert(k > 0);
                        assert(bits.take(k).drop_first() =~= rest.take(k - 1));
                        assert(bits.take(k)[0] == bits[0]);
                        assert(c.marks(rest.take(k - 1)));
                    }
                },
                None => {
                    if exists|k: int| 0 <= k <= bits.len() && self.marks(#[trigger] bits.take(k)) {
                        let k = choose|k: int| 0 <= k <= bits.len() && self.marks(#[trigger] bits.take(k));
                        assert(k > 0);
                        assert(bits.take(k)[0] == bits[0]);
                    }
                },
            }
        } else {
            if exists|k: int| 0 <= k <= bits.len() && self.marks(#[trigger] bits.take(k)) {
                let k = choose|k: int| 0 <= k <= bits.len() && self.marks(#[trigger] bits.take(k));
                assert(bits.take(k).len() == 0);
            }
        }
    }

    /// A node without children that is not terminal.
    pub fn new() -> (node: TrieNode)
        ensures
            node.child(false) is None,
            node.child(true) is None,
            forall|path: Seq<bool>| !node.marks(path),
            node.terminal_count() == 0,
    {
        let node = TrieNode { zero: None, one: None, is_terminal: false };
        proof {
            assert forall|path: Seq<bool>| !node.marks(path) by {
                if path.len() > 0 {
                    assert(node.child(path[0]) is None);
                }
            }
        }
        node
    }

    /// The number of terminal nodes below and at this node, held at
    /// `usize::MAX` where it is larger.
    pub fn count_terminals(&self) -> (n: usize)
        ensures
            n == (if self.terminal_count() <= usize::MAX {
                self.terminal_count() as int
            } else {
                usize::MAX as int
            }),
        decreases self,
    {
        let mut count: usize = if self.is_terminal {
            1
        } else {
            0
        };
        match &self.zero {
            Some(c) => {
                count = count.saturating_add(c.count_terminals());
            },
            None => {},
        }
        match &self.one {
            Some(c) => {
                count = count.saturating_add(c.count_terminals());
            },
            None => {},
        }
        count
    }

    /// Marks the node at the end of the way along bits `depth..prefix_len`
    /// of `addr` as terminal, making the nodes on the way that are missing.
    fn insert_path(&mut self, addr: &IpAddress, depth: usize, prefix_len: usize)
        requires
            depth <= prefix_len <= addr.bits().len(),
        ensures
            forall|path: Seq<bool>|
                final(self).marks(path) <==> old(self).marks(path) || path == addr.bits().subrange(
                    depth as int,
                    prefix_len as int,
                ),
            final(self).terminal_count() == old(self).terminal_count() + (if old(self).marks(
                addr.bits().subrange(depth as int, prefix_len as int),
            ) {
                0nat
            } else {
                1nat
            }),
        decreases prefix_len - depth,
    {
        let ghost target = addr.bits().subrange(depth as int, prefix_len as int);
        if depth == prefix_len {
            self.is_terminal = true;
            proof {
                assert(target =~= Seq::<bool>::empty());
                assert forall|path: Seq<bool>|
                    self.marks(path) <==> old(self).marks(path) || path == target by {
                    if path.len() == 0 {
                        assert(path =~= target);
                    } else {
                        assert(self.child(path[0]) == old(self).child(path[0]));
                    }
                }
            }
        } else {
            let bit = addr.bit(depth);
            let ghost rest = addr.bits().subrange(depth + 1, prefix_len as int);
            proof {
                assert(target[0] == bit);
                assert(target.drop_first() =~= rest);
            }
            if bit {
                let taken = self.one.take();
                let mut child: TrieNode = match taken {
                    Some(c) => *c,
                    None => TrieNode::new(),
                };
                let ghost before = child;
                child.insert_path(addr, depth + 1, prefix_len);
                self.one = Some(Box::new(child));
                proof {
                    assert forall|path: Seq<bool>|
                        self.marks(path) <==> old(self).marks(path) || path == target by {
                        if path.len() > 0 {
                            if path[0] {
                                assert(child.marks(path.drop_first()) <==> before.marks(
                                    path.drop_first(),
                                ) || path.drop_first() == rest);
                                if path.drop_first() == rest {
                                    assert(path =~= seq![path[0]] + path.drop_first());
                                    assert(target =~= seq![target[0]] + target.drop_first());
                                }
                                if path == target {
                                    assert(path.drop_first() =~= rest);
                                }
                            } else {
                                assert(self.child(false) == old(self).child(false));
                            }
                        }
                    }
                }
            } else {
                let taken = self.zero.take();
                let mut child: TrieNode = match taken {
                    Some(c) => *c,
                    None => TrieNode::new(),
                };
                let ghost before = child;
                child.insert_path(addr, depth + 1, prefix_len);
                self.zero = Some(Box::new(child));
                proof {
                    assert forall|path: Seq<bool>|
                        self.marks(path) <==> old(self).marks(path) || path == target by {
                        if path.len() > 0 {
                            if !path[0] {
                                assert(child.marks(path.drop_first()) <==> before.marks(
                                    path.drop_first(),
                                ) || path.drop_first() == rest);
                                if path.drop_first() == rest {
                                    assert(path =~= seq![path[0]] + path.drop_first());
                                    assert(target =~= seq![target[0]] + target.drop_first());
                                }
                                if path == target {
                                    assert(path.drop_first() =~= rest);
                                }
                            } else {
                                assert(self.child(true) == old(self).child(true));
                            }
                        }
                    }
                }
            }
        }
    }
}

/// Some network of a set, each given as its family (true for IPv6) and its
/// prefix, holds `addr`: it is of the family of the address, and the
/// address begins with its prefix.
pub open spec fn some_network_holds(networks: Set<(bool, Seq<bool>)>, addr: IpAddress) -> bool {
    exists|net: (bool, Seq<bool>)|
        #![trigger networks.contains(net)]
        networks.contains(net) && net.0 == addr.is_v6() && net.1.is_prefix_of(addr.bits())
}

/// A set of networks, held as two binary tries, one for each family.
pub struct IpTrie {
    root_v4: TrieNode,
    root_v6: TrieNode,
}

impl IpTrie {
    /// The trie counts one terminal node for each network it holds, and
    /// holds finitely many.
    pub closed spec fn wf(&self) -> bool {
        &&& self.networks().finite()
        &&& self.networks().len() == self.root_v4.terminal_count() + self.root_v6.terminal_count()
    }

    /// The networks held, each as its family (true for IPv6) and its prefix.
    pub closed spec fn networks(&self) -> Set<(bool, Seq<bool>)> {
        Set::new(
            |net: (bool, Seq<bool>)|
                if net.0 {
                    self.root_v6.marks(net.1)
                } else {
                    self.root_v4.marks(net.1)
                },
        )
    }

    /// Some network held holds `addr`.
    pub open spec fn covers(&self, addr: IpAddress) -> bool {
        some_network_holds(self.networks(), addr)
    }

    /// A trie that holds no network.
    pub fn new() -> (trie: IpTrie)
        ensures
            trie.wf(),
            trie.networks() == Set::<(bool, Seq<bool>)>::empty(),
    {
        let trie = IpTrie { root_v4: TrieNode::new(), root_v6: TrieNode::new() };
        proof {
            assert(trie.networks() =~= Set::<(bool, Seq<bool>)>::empty());
        }
        trie
    }

    /// Adds a network. Adding one that is held already changes nothing.
    pub fn insert(&mut self, network: IpNetwork)
        requires
            old(self).wf(),
        ensures
            final(self).wf(),
            final(self).networks() == old(self).networks().insert(
                (network.is_v6(), network.prefix()),
            ),
    {
        proof {
            use_type_invariant(&network);
        }
        let addr = network.addr();
        let prefix_len = network.prefix_len() as usize;
        let ghost target = (network.is_v6(), network.prefix());
        proof {
            assert(addr.bits().subrange(0, prefix_len as int) =~= network.prefix());
        }
        match addr {
            IpAddress::V4(_) => {
                self.root_v4.insert_path(&addr, 0, prefix_len);
            },
            IpAddress::V6(_) => {
                self.root_v6.insert_path(&addr, 0, prefix_len);
            },
        }
        proof {
            assert(self.networks() =~= old(self).networks().insert(target));
        }
    }

    /// Whether some network held holds `addr`.
    pub fn contains(&self, addr: IpAddress) -> (r: bool)
        ensures
            r == self.covers(addr),
    {
        let root = match addr {
            IpAddress::V4(_) => &self.root_v4,
            IpAddress::V6(_) => &self.root_v6,
        };
        let width: usize = addr.width() as usize;
        let ghost bits = addr.bits();
        proof {
            root.lemma_covers_iff_marks_prefix(bits);
            if root.covers(bits) {
                let k = choose|k: int| 0 <= k <= bits.len() && root.marks(#[trigger] bits.take(k));
                let net = (addr.is_v6(), bits.take(k));
                assert(self.networks().contains(net));
                assert(net.1.is_prefix_of(bits));
            }
            if self.covers(addr) {
                let networks = self.networks();
                let net = choose|net: (bool, Seq<bool>)|
                    #![trigger networks.contains(net)]
                    networks.contains(net) && net.0 == addr.is_v6() && net.1.is_prefix_of(bits);
                assert(bits.take(net.1.len() as int) =~= net.1);
                assert(root.marks(bits.take(net.1.len() as int)));
            }
            assert(bits.skip(0) =~= bits);
        }
        if root.is_terminal {
            return true;
        }
        let mut current: &TrieNode = root;
        let mut i: usize = 0;
        while i < width
            invariant
                i <= width,
                width == bits.len(),
                bits == addr.bits(),
                !current.is_terminal,
                root.covers(bits) == self.covers(addr),
                root.covers(bits) == current.covers(bits.skip(i as int)),
            decreases width - i,
        {
            let bit = addr.bit(i);
            proof {
                assert(bits.skip(i as int)[0] == bit);
                assert(bits.skip(i as int).drop_first() =~= bits.skip(i + 1));
            }
            let next = if bit {
                &current.one
            } else {
                &current.zero
            };
            match next {
                Some(node) => {
                    proof {
                        assert(current.child(bit) == Some(*node));
                        if node.is_terminal {
                            assert(node.covers(bits.skip(i + 1)));
                        }
                    }
                    current = node;
                    if current.is_terminal {
                        return true;
                    }
                },
                None => {
                    return false;
                },
            }
            i += 1;
        }
        false
    }

    /// The number of networks held, held at `usize::MAX` where it is
    /// larger.
    pub fn len(&self) -> (n: usize)
        requires
            self.wf(),
        ensures
            n == (if self.networks().len() <= usize::MAX {
                self.networks().len() as int
            } else {
                usize::MAX as int
            }),
    {
        self.root_v4.count_terminals().saturating_add(self.root_v6.count_terminals())
    }

    /// Whether the trie holds no network.
    pub fn is_empty(&self) -> (r: bool)
        requires
            self.wf(),
        ensures
            r == (self.networks().len() == 0),
    {
        self.len() == 0
    }
}

/// The networks of a list, each as its family and its prefix.
pub open spec fn keys_of_networks(nets: Seq<IpNetwork>) -> Set<(bool, Seq<bool>)> {
    Set::new(
        |key: (bool, Seq<bool>)|
            exists|i: int|
                0 <= i < nets.len() && key == ((#[trigger] nets[i]).is_v6(), nets[i].prefix()),
    )
}

/// A trie that holds the networks of a list covers exactly the addresses
/// that some network of the list holds: every address of a network that
/// was inserted is found, and no address outside all of them is.
pub proof fn lemma_trie_covers_exactly_its_networks(
    trie: IpTrie,
    nets: Seq<IpNetwork>,
    addr: IpAddress,
)
    requires
        trie.networks() == keys_of_networks(nets),
    ensures
        trie.covers(addr) <==> exists|i: int| 0 <= i < nets.len() && (#[trigger] nets[i]).holds(addr),
{
    if trie.covers(addr) {
        let networks = trie.networks();
        let net = choose|net: (bool, Seq<bool>)|
            #![trigger networks.contains(net)]
            networks.contains(net) && net.0 == addr.is_v6() && net.1.is_prefix_of(addr.bits());
        assert(keys_of_networks(nets).contains(net));
        let i = choose|i: int|
            0 <= i < nets.len() && net == ((#[trigger] nets[i]).is_v6(), nets[i].prefix());
        assert(nets[i].holds(addr));
    }
    if exists|i: int| 0 <= i < nets.len() && (#[trigger] nets[i]).holds(addr) {
        let i = choose|i: int| 0 <= i < nets.len() && (#[trigger] nets[i]).holds(addr);
        let net = (nets[i].is_v6(), nets[i].prefix());
        assert(keys_of_networks(nets).contains(net));
        assert(trie.networks().contains(net));
    }
}

impl IpTrie {
    /// The trie of the networks of a list.
    pub fn from_networks(nets: &[IpNetwork]) -> (trie: IpTrie)
        ensures
            trie.wf(),
            trie.networks() == keys_of_networks(nets@),
    {
        let mut trie = IpTrie::new();
        let mut i: usize = 0;
        proof {
            assert(trie.networks() =~= keys_of_networks(nets@.take(0)));
        }
        while i < nets.len()
            invariant
                i <= nets.len(),
                trie.wf(),
                trie.networks() == keys_of_networks(nets@.take(i as int)),
            decreases nets.len() - i,
        {
            let ghost before = trie.networks();
            trie.insert(nets[i]);
            proof {
                let key = (nets@[i as int].is_v6(), nets@[i as int].prefix());
                let grown = nets@.take(i + 1);
                assert forall|k: (bool, Seq<bool>)|
                    before.insert(key).contains(k) <==> keys_of_networks(grown).contains(k) by {
                    if k == key {
                        assert(grown[i as int] == nets@[i as int]);
                    }
                    if before.contains(k) {
                        let j = choose|j: int|
                            0 <= j < i && k == ((#[trigger] nets@.take(i as int)[j]).is_v6(), nets@.take(
                                i as int,
                            )[j].prefix());
                        assert(grown[j] == nets@.take(i as int)[j]);
                    }
                    if keys_of_networks(grown).contains(k) {
                        let j = choose|j: int|
                            0 <= j < i + 1 && k == ((#[trigger] grown[j]).is_v6(), grown[j].prefix());
                        if j < i {
                            assert(nets@.take(i as int)[j] == grown[j]);
                        }
                    }
                }
                assert(trie.networks() =~= keys_of_networks(grown));
            }
            i += 1;
        }
        proof {
            assert(nets@.take(nets.len() as int) =~= nets@);
        }
        trie
    }
}

} // verus!
