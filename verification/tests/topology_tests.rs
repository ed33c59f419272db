use multi_tcp_client::endpoint::Endpoint;
use multi_tcp_client::topology::gateway;
use multi_tcp_client::topology::mix;
use multi_tcp_client::topology::{NymTopology, NymTopologyError, RouteNode};

fn mk_mix(name: &str, layer: u64, version: &str) -> mix::Node {
    mix::Node {
        location: "somewhere".to_string(),
        host: Endpoint::new(0x7f000001, 1789),
        pub_key: name.to_string(),
        layer,
        last_seen: 0,
        version: version.to_string(),
    }
}

fn mk_gateway(identity: &str, version: &str, clients: Vec<&str>) -> gateway::Node {
    gateway::Node {
        location: "somewhere".to_string(),
        client_listener: "ws://gateway".to_string(),
        mixnet_listener: Endpoint::new(0x7f000001, 1790),
        identity_key: identity.to_string(),
        sphinx_key: identity.to_string(),
        registered_clients: clients
            .into_iter()
            .map(|k| gateway::Client { pub_key: k.to_string() })
            .collect(),
        last_seen: 0,
        version: version.to_string(),
    }
}

fn mk_topology(mixes: Vec<mix::Node>, gateways: Vec<gateway::Node>) -> NymTopology {
    NymTopology::new_from_nodes(mixes, Vec::new(), Vec::new(), gateways)
}

#[test]
fn gateway_knows_its_registered_clients() {
    let g = mk_gateway("gw", "0.8.0", vec!["alice", "bob"]);
    assert!(g.has_client("alice".to_string()));
    assert!(g.has_client("bob".to_string()));
    assert!(!g.has_client("carol".to_string()));
}

#[test]
fn pub_key_bytes_are_base58_decoded() {
    // base58 "he11owor1d" decodes to these eight bytes (zero-padded to 32)
    let mut expected = vec![0x04u8, 0x30, 0x5e, 0x2b, 0x24, 0x73, 0xf0, 0x58];
    expected.resize(32, 0);
    let node = mk_mix("he11owor1d", 1, "0.8.0");
    assert_eq!(node.get_pub_key_bytes(), Some(expected));
}

#[test]
fn invalid_base58_key_is_rejected() {
    // '0', 'O', 'I' and 'l' are not in the base58 alphabet
    let node = mk_mix("0OIl", 1, "0.8.0");
    assert_eq!(node.get_pub_key_bytes(), None);
}

#[test]
fn sphinx_key_bytes_are_base58_decoded() {
    let mut expected = vec![0x04u8, 0x30, 0x5e, 0x2b, 0x24, 0x73, 0xf0, 0x58];
    expected.resize(32, 0);
    let g = mk_gateway("he11owor1d", "0.8.0", vec![]);
    assert_eq!(g.get_sphinx_key_bytes(), Some(expected));
}

#[test]
fn layered_topology_groups_nodes_by_layer() {
    let t = mk_topology(
        vec![mk_mix("a", 1, "v"), mk_mix("b", 2, "v"), mk_mix("c", 1, "v")],
        vec![mk_gateway("gw", "v", vec![])],
    );
    let layered = t.make_layered_topology().expect("layers are usable");
    assert_eq!(layered.len(), 2);
    let layer1: Vec<String> = layered[&1].iter().map(|n| n.pub_key.clone()).collect();
    assert_eq!(layer1, vec!["a".to_string(), "c".to_string()]);
    let layer2: Vec<String> = layered[&2].iter().map(|n| n.pub_key.clone()).collect();
    assert_eq!(layer2, vec!["b".to_string()]);
}

#[test]
fn layer_above_the_path_bound_is_invalid() {
    let t = mk_topology(vec![mk_mix("a", 6, "v")], vec![]);
    assert!(matches!(
        t.make_layered_topology(),
        Err(NymTopologyError::InvalidMixLayerError)
    ));
}

#[test]
fn gap_in_the_layers_is_reported() {
    let t = mk_topology(vec![mk_mix("a", 1, "v"), mk_mix("c", 3, "v")], vec![]);
    match t.make_layered_topology() {
        Err(NymTopologyError::MissingLayerError(missing)) => {
            assert_eq!(missing, vec![2]);
        }
        other => panic!("expected a missing layer, got {:?}", other),
    }
}

#[test]
fn path_construction_needs_mixes_gateways_and_layers() {
    let good = mk_topology(
        vec![mk_mix("a", 1, "v")],
        vec![mk_gateway("gw", "v", vec![])],
    );
    assert!(good.can_construct_path_through());

    let no_gateway = mk_topology(vec![mk_mix("a", 1, "v")], vec![]);
    assert!(!no_gateway.can_construct_path_through());

    let no_mixes = mk_topology(vec![], vec![mk_gateway("gw", "v", vec![])]);
    assert!(!no_mixes.can_construct_path_through());

    let gap = mk_topology(
        vec![mk_mix("a", 2, "v")],
        vec![mk_gateway("gw", "v", vec![])],
    );
    assert!(!gap.can_construct_path_through());
}

#[test]
fn gateway_is_found_by_its_address_bytes() {
    // bs58::encode of these bytes is "he11owor1d"
    let address = vec![0x04u8, 0x30, 0x5e, 0x2b, 0x24, 0x73, 0xf0, 0x58];
    let t = mk_topology(vec![], vec![mk_gateway("he11owor1d", "v", vec![])]);
    assert!(t.gateway_exists(&address));
    assert!(!t.gateway_exists(&vec![1, 2, 3]));
}

#[test]
fn random_route_takes_one_node_per_layer() {
    let t = mk_topology(
        vec![
            mk_mix("a1", 1, "v"),
            mk_mix("a2", 1, "v"),
            mk_mix("a3", 1, "v"),
            mk_mix("b", 2, "v"),
        ],
        vec![mk_gateway("gw", "v", vec![])],
    );
    let route = t.random_mix_route().expect("layers are usable");
    assert_eq!(route.len(), 2);
    assert!(["a1", "a2", "a3"].contains(&route[0].pub_key.as_str()));
    assert_eq!(route[0].layer, 1);
    assert_eq!(route[1].pub_key, "b");
}

#[test]
fn random_route_propagates_layer_errors() {
    let t = mk_topology(vec![mk_mix("a", 2, "v")], vec![]);
    assert!(matches!(
        t.random_mix_route(),
        Err(NymTopologyError::MissingLayerError(_))
    ));
}

#[test]
fn route_to_gateway_ends_at_that_gateway() {
    let address = vec![0x04u8, 0x30, 0x5e, 0x2b, 0x24, 0x73, 0xf0, 0x58];
    let t = mk_topology(
        vec![mk_mix("a", 1, "v"), mk_mix("b", 2, "v")],
        vec![mk_gateway("he11owor1d", "v", vec![])],
    );
    let route = t.random_route_to_gateway(&address).expect("route exists");
    assert_eq!(route.len(), 3);
    match &route[0] {
        RouteNode::Mix(n) => assert_eq!(n.layer, 1),
        other => panic!("expected a mix node, got {:?}", other),
    }
    match &route[2] {
        RouteNode::Gateway(g) => assert_eq!(g.identity_key, "he11owor1d"),
        other => panic!("expected the gateway, got {:?}", other),
    }
}

#[test]
fn route_to_unknown_gateway_is_refused() {
    let t = mk_topology(
        vec![mk_mix("a", 1, "v")],
        vec![mk_gateway("he11owor1d", "v", vec![])],
    );
    assert!(matches!(
        t.random_route_to_gateway(&vec![9, 9, 9]),
        Err(NymTopologyError::NonExistentGatewayError)
    ));
}

#[test]
fn version_filter_keeps_only_matching_nodes() {
    let t = mk_topology(
        vec![
            mk_mix("a", 1, "0.8.0"),
            mk_mix("b", 1, "0.9.0"),
            mk_mix("c", 2, "0.8.0"),
        ],
        vec![
            mk_gateway("g1", "0.8.0", vec![]),
            mk_gateway("g2", "0.7.0", vec![]),
        ],
    );
    let filtered = t.filter_system_version(&"0.8.0".to_string());
    let kept: Vec<String> = filtered
        .mix_nodes
        .iter()
        .map(|n| n.pub_key.clone())
        .collect();
    assert_eq!(kept, vec!["a".to_string(), "c".to_string()]);
    assert_eq!(filtered.gateway_nodes.len(), 1);
    assert_eq!(filtered.gateway_nodes[0].identity_key, "g1");
}

#[test]
fn per_role_version_filter_is_independent() {
    let t = mk_topology(
        vec![mk_mix("a", 1, "0.8.0"), mk_mix("b", 1, "0.9.0")],
        vec![mk_gateway("g1", "0.9.0", vec![])],
    );
    let filtered = t.filter_node_versions(
        &"0.9.0".to_string(),
        &"x".to_string(),
        &"0.9.0".to_string(),
        &"x".to_string(),
    );
    assert_eq!(filtered.mix_nodes.len(), 1);
    assert_eq!(filtered.mix_nodes[0].pub_key, "b");
    assert_eq!(filtered.gateway_nodes.len(), 1);
}

#[test]
fn all_paths_enumerates_every_combination() {
    let t = mk_topology(
        vec![
            mk_mix("a1", 1, "v"),
            mk_mix("a2", 1, "v"),
            mk_mix("b", 2, "v"),
        ],
        vec![
            mk_gateway("g1", "v", vec![]),
            mk_gateway("g2", "v", vec![]),
        ],
    );
    let paths = t.all_paths().expect("layers are usable");
    assert_eq!(paths.len(), 4);
    for path in &paths {
        assert_eq!(path.len(), 3);
        match &path[0] {
            RouteNode::Mix(n) => assert_eq!(n.layer, 1),
            other => panic!("expected a layer-1 mix node, got {:?}", other),
        }
        match &path[1] {
            RouteNode::Mix(n) => assert_eq!(n.pub_key, "b"),
            other => panic!("expected the layer-2 mix node, got {:?}", other),
        }
        assert!(matches!(&path[2], RouteNode::Gateway(_)));
    }
}

#[test]
fn all_paths_without_gateways_is_empty() {
    let t = mk_topology(vec![mk_mix("a", 1, "v")], vec![]);
    let paths = t.all_paths().expect("layers are usable");
    assert!(paths.is_empty());
}

#[test]
fn all_paths_propagates_layer_errors() {
    let t = mk_topology(
        vec![mk_mix("a", 7, "v")],
        vec![mk_gateway("gw", "v", vec![])],
    );
    assert!(matches!(
        t.all_paths(),
        Err(NymTopologyError::InvalidMixLayerError)
    ));
}
