use raft_kv::config::{parse_peers, split_text, CliConfig, NodeConfig, Peer};

fn cli(node_id: u32, client_port: u16, raft_port: u16, peers: &str) -> CliConfig {
    CliConfig {
        node_id,
        client_port,
        raft_port,
        peers: peers.to_string(),
        data_dir: "./data".to_string(),
        snapshot_threshold: 1000,
    }
}

#[test]
fn test_node_config_from_cli() {
    let cli = cli(1, 50051, 60051, "2@127.0.0.1:60052,3@127.0.0.1:60053");

    let config = NodeConfig::from_cli(cli);

    assert_eq!(config.node_id, 1);
    assert_eq!(config.client_addr.to_string(), "127.0.0.1:50051");
    assert_eq!(config.raft_addr.to_string(), "127.0.0.1:60051");
    assert_eq!(config.peers.len(), 2);
    assert_eq!(config.peers[0].id, 2);
    assert_eq!(config.peers[0].raft_addr, "127.0.0.1:60052");
    assert_eq!(config.peers[1].id, 3);
}

#[test]
fn test_node_config_empty_peers() {
    let cli = cli(1, 50051, 60051, "");
    let config = NodeConfig::from_cli(cli);

    assert_eq!(config.peers.len(), 0);
}

#[test]
fn test_peer_deserialize() {
    let peer = Peer { id: 2, raft_addr: "127.0.0.1:60052".to_string() };

    assert_eq!(peer.id, 2);
    assert_eq!(peer.raft_addr, "127.0.0.1:60052");
}

#[test]
fn config_peers_skip_malformed_items() {
    let peers = parse_peers("2@a:1,x@b:2,3@c:3@d,,+4@e:4,99999999999@f");
    assert_eq!(peers.len(), 2);
    assert_eq!(peers[0].id, 2);
    assert_eq!(peers[0].raft_addr, "a:1");
    assert_eq!(peers[1].id, 4);
    assert_eq!(peers[1].raft_addr, "e:4");
}

#[test]
fn config_split_keeps_empty_pieces() {
    assert_eq!(split_text("a,,b", ','), vec!["a".to_string(), "".to_string(), "b".to_string()]);
    assert_eq!(split_text("", ','), vec!["".to_string()]);
    assert_eq!(split_text(",", ','), vec!["".to_string(), "".to_string()]);
}

#[test]
fn config_addresses_use_ports() {
    let config = NodeConfig::from_cli(cli(7, 1, 65535, "5@h:9"));
    assert_eq!(config.client_addr, "127.0.0.1:1");
    assert_eq!(config.raft_addr, "127.0.0.1:65535");
    assert_eq!(config.peer_ids(), vec![5]);
    assert_eq!(config.data_dir, "./data");
    assert_eq!(config.snapshot_threshold, 1000);
}
