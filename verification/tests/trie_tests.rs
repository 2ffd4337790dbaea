use layer7waf::ip_reputation::{parse_address, parse_entry, parse_network};
use layer7waf::trie::{IpAddress, IpNetwork, IpTrie, TrieNode};

fn addr(s: &str) -> IpAddress {
    parse_address(s).unwrap()
}

fn net(s: &str) -> IpNetwork {
    parse_network(s).unwrap()
}

#[test]
fn test_ip_to_bits_v4() {
    let bits = addr("192.168.1.1").to_bits();
    assert_eq!(bits.len(), 32);
    // 192 = 0b11000000
    assert_eq!(&bits[0..8], &[1, 1, 0, 0, 0, 0, 0, 0]);
}

#[test]
fn test_ip_to_bits_v6() {
    let bits = addr("::1").to_bits();
    assert_eq!(bits.len(), 128);
    // Last bit should be 1
    assert_eq!(bits[127], 1);
    // All other bits should be 0
    assert!(bits[..127].iter().all(|&b| b == 0));
}

#[test]
fn test_empty_trie() {
    let trie = IpTrie::new();
    assert!(trie.is_empty());
    assert_eq!(trie.len(), 0);
    assert!(!trie.contains(addr("10.0.0.1")));
}

#[test]
fn test_insert_and_contains_single_ip() {
    let mut trie = IpTrie::new();
    trie.insert(net("10.0.0.1/32"));

    assert_eq!(trie.len(), 1);
    assert!(trie.contains(addr("10.0.0.1")));
    assert!(!trie.contains(addr("10.0.0.2")));
}

#[test]
fn test_insert_and_contains_cidr() {
    let mut trie = IpTrie::new();
    trie.insert(net("192.168.1.0/24"));

    assert!(trie.contains(addr("192.168.1.0")));
    assert!(trie.contains(addr("192.168.1.1")));
    assert!(trie.contains(addr("192.168.1.255")));
    assert!(!trie.contains(addr("192.168.2.0")));
    assert!(!trie.contains(addr("192.168.0.255")));
}

#[test]
fn test_insert_and_contains_cidr_16() {
    let mut trie = IpTrie::new();
    trie.insert(net("10.0.0.0/16"));

    assert!(trie.contains(addr("10.0.0.0")));
    assert!(trie.contains(addr("10.0.255.255")));
    assert!(trie.contains(addr("10.0.128.42")));
    assert!(!trie.contains(addr("10.1.0.0")));
    assert!(!trie.contains(addr("11.0.0.0")));
}

#[test]
fn test_multiple_entries() {
    let mut trie = IpTrie::new();
    trie.insert(net("10.0.0.0/8"));
    trie.insert(net("172.16.0.0/12"));
    trie.insert(net("192.168.0.0/16"));

    assert_eq!(trie.len(), 3);
    assert!(trie.contains(addr("10.255.255.255")));
    assert!(trie.contains(addr("172.16.0.1")));
    assert!(trie.contains(addr("172.31.255.255")));
    assert!(trie.contains(addr("192.168.100.50")));
    assert!(!trie.contains(addr("172.32.0.0")));
    assert!(!trie.contains(addr("8.8.8.8")));
}

#[test]
fn test_ipv6_single() {
    let mut trie = IpTrie::new();
    trie.insert(net("::1/128"));

    assert!(trie.contains(addr("::1")));
    assert!(!trie.contains(addr("::2")));
}

#[test]
fn test_ipv6_cidr() {
    let mut trie = IpTrie::new();
    trie.insert(net("fd00::/8"));

    assert!(trie.contains(addr("fd00::1")));
    assert!(trie.contains(addr("fdff:ffff::1")));
    assert!(!trie.contains(addr("fe00::1")));
}

#[test]
fn test_mixed_v4_v6() {
    let mut trie = IpTrie::new();
    trie.insert(net("10.0.0.0/8"));
    trie.insert(net("fd00::/8"));

    assert_eq!(trie.len(), 2);
    assert!(trie.contains(addr("10.0.0.1")));
    assert!(trie.contains(addr("fd00::1")));
    // v4 address should not match v6 entry and vice versa
    assert!(!trie.contains(addr("8.8.8.8")));
    assert!(!trie.contains(addr("fe00::1")));
}

#[test]
fn test_overlapping_cidrs() {
    let mut trie = IpTrie::new();
    trie.insert(net("10.0.0.0/8"));
    trie.insert(net("10.0.0.0/24"));

    // Both should match addresses in the /24
    assert!(trie.contains(addr("10.0.0.1")));
    // The /8 should still match addresses outside the /24
    assert!(trie.contains(addr("10.1.0.1")));
}

#[test]
fn slash_zero_matches_the_whole_family() {
    let mut trie = IpTrie::new();
    trie.insert(net("0.0.0.0/0"));
    assert!(trie.contains(addr("1.2.3.4")));
    assert!(trie.contains(addr("255.255.255.255")));
    assert!(!trie.contains(addr("::1")));
    trie.insert(net("::/0"));
    assert!(trie.contains(addr("::1")));
    assert_eq!(trie.len(), 2);
}

#[test]
fn inserting_twice_counts_once() {
    let mut trie = IpTrie::new();
    trie.insert(net("10.0.0.0/8"));
    trie.insert(net("10.0.0.0/8"));
    // The same network written with host bits set.
    trie.insert(net("10.9.9.9/8"));
    assert_eq!(trie.len(), 1);
    assert!(!trie.is_empty());
    trie.insert(net("10.0.0.0/9"));
    assert_eq!(trie.len(), 2);
}

#[test]
fn trie_agrees_with_the_networks_it_was_built_from() {
    let nets: Vec<IpNetwork> = [
        "10.0.0.0/8", "10.128.0.0/9", "192.168.1.0/24", "192.168.1.77/32", "172.16.0.0/12",
        "fd00::/8", "2001:db8::/32", "2001:db8:0:1::/64", "::1/128", "128.0.0.0/1",
    ]
    .iter()
    .map(|s| net(s))
    .collect();
    let trie = IpTrie::from_networks(&nets);
    assert_eq!(trie.len(), nets.len());
    for probe in [
        "10.1.2.3", "11.0.0.0", "192.168.1.77", "192.168.1.78", "192.168.2.1", "172.31.255.255",
        "172.32.0.0", "127.0.0.1", "128.0.0.1", "200.1.1.1", "0.0.0.0", "fd12::1", "fe80::1",
        "2001:db8::5", "2001:db9::5", "::1", "::2", "::",
    ] {
        let a = addr(probe);
        let expected = nets.iter().any(|n| n.contains(a));
        assert_eq!(trie.contains(a), expected, "{probe}");
    }
}

#[test]
fn network_membership() {
    let n = net("192.168.1.0/24");
    assert_eq!(n.prefix_len(), 24);
    assert!(n.contains(addr("192.168.1.200")));
    assert!(!n.contains(addr("192.168.2.200")));
    assert!(!n.contains(addr("::1")));
    let host = IpNetwork::host(addr("::1"));
    assert_eq!(host.prefix_len(), 128);
    assert!(host.contains(addr("::1")));
    assert!(!host.contains(addr("::3")));
    assert!(IpNetwork::new(addr("1.2.3.4"), 32).is_some());
    assert!(IpNetwork::new(addr("1.2.3.4"), 33).is_none());
    assert!(IpNetwork::new(addr("::1"), 128).is_some());
    assert!(IpNetwork::new(addr("::1"), 129).is_none());
    assert!(IpNetwork::new(addr("1.2.3.4"), 0).unwrap().contains(addr("9.9.9.9")));
}

#[test]
fn addresses_and_their_bits() {
    match addr("1.2.3.4") {
        IpAddress::V4(o) => assert_eq!(o, [1, 2, 3, 4]),
        other => panic!("{:?}", other),
    }
    match addr("2001:db8::ff") {
        IpAddress::V6(o) => assert_eq!(o, [0x20, 1, 0xd, 0xb8, 0, 0, 0, 0, 0, 0, 0, 0, 0, 0, 0, 0xff]),
        other => panic!("{:?}", other),
    }
    let a = addr("128.0.0.1");
    assert!(a.bit(0));
    assert!(!a.bit(1));
    assert!(a.bit(31));
    assert_eq!(a.width(), 32);
    assert!(!a.is_ipv6());
    assert_eq!(addr("::").width(), 128);
    assert!(addr("::").is_ipv6());
}

#[test]
fn reading_addresses_and_networks() {
    assert!(parse_address("1.2.3.4").is_some());
    assert!(parse_address("::ffff:1.2.3.4").is_some());
    assert!(parse_address("1.2.3").is_none());
    assert!(parse_address("1.2.3.4.5").is_none());
    assert!(parse_address("256.1.1.1").is_none());
    assert!(parse_address("1.2.3.4/32").is_none());
    assert!(parse_address("").is_none());
    assert!(parse_address("not-an-ip").is_none());
    assert!(parse_address(" 1.2.3.4").is_none());
    assert!(parse_network("1.2.3.4/33").is_none());
    assert!(parse_network("1.2.3.4").is_none());
    assert!(parse_network("::/129").is_none());
    assert!(parse_network("1.2.3.4/").is_none());
    assert_eq!(parse_network("1.2.3.4/0").unwrap().prefix_len(), 0);
    assert_eq!(parse_entry("1.2.3.4").unwrap().prefix_len(), 32);
    assert_eq!(parse_entry("::1").unwrap().prefix_len(), 128);
    assert_eq!(parse_entry("::1/64").unwrap().prefix_len(), 64);
    assert!(parse_entry("x").is_none());
}

#[test]
fn a_new_node_counts_nothing() {
    assert_eq!(TrieNode::new().count_terminals(), 0);
    // And a new trie holds nothing, for either family.
    let trie = IpTrie::new();
    assert_eq!(trie.len(), 0);
    assert!(!trie.contains(addr("0.0.0.0")));
    assert!(!trie.contains(addr("::")));
}
