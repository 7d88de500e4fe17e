use icn_core::blockchain::Block;
use icn_core::network::{Network, Node, NodeType, Packet, PacketType};
use icn_core::string_map::StringMap;

#[test]
fn test_network_operations() {
    let mut network = Network::new();

    let node1 = Node::new("node1", NodeType::PersonalDevice, "192.168.1.1");
    let node2 = Node::new("node2", NodeType::CooperativeServer, "192.168.1.2");
    network.add_node(node1.clone());
    network.add_node(node2.clone());

    assert_eq!(network.len(), 2);

    let retrieved_node = network.get_node("node1").unwrap();
    assert_eq!(retrieved_node.id, "node1");
    assert_eq!(retrieved_node.address, "192.168.1.1");

    network.remove_node("node1");
    assert_eq!(network.len(), 1);
    assert!(network.get_node("node1").is_none());

    let block = Block {
        index: 1,
        timestamp: 0,
        transactions: vec![],
        previous_hash: "previous_hash".to_string(),
        hash: "hash".to_string(),
        nonce: 0,
        gas_used: 0,
        smart_contract_results: StringMap::new(),
    };
    assert_eq!(network.broadcast_block(&block), "Broadcasting block 1 to all nodes");

    assert_eq!(
        network.synchronize_blockchain(&vec![block]),
        "Synchronizing blockchain across all nodes"
    );
}

#[test]
fn network_replaces_node_with_same_id() {
    let mut network = Network::new();
    network.add_node(Node::new("n", NodeType::PersonalDevice, "a"));
    network.add_node(Node::new("n", NodeType::GovernmentServer, "b"));
    assert_eq!(network.len(), 1);
    assert_eq!(network.get_node("n").unwrap().address, "b");
    assert_eq!(network.get_node("n").unwrap().node_type, NodeType::GovernmentServer);
}

#[test]
fn packets_carry_their_kind() {
    let p = Packet { packet_type: PacketType::Interest, name: "x".to_string(), content: vec![] };
    assert_eq!(p.packet_type, PacketType::Interest);
}
