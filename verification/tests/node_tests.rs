use icn_core::network::{Packet, PacketType};
use icn_core::node::IcnNode;

#[test]
fn test_icn_node_creation() {
    let node = IcnNode::new();
    assert!(node.content_store.is_empty());
    assert!(node.pit.is_empty());
    assert!(node.fib.is_empty());
}

#[test]
fn test_packet_processing() {
    let mut node = IcnNode::new();
    let interest_packet = Packet { packet_type: PacketType::Interest, name: "test_data".to_string(), content: vec![] };

    assert!(node.process_packet(interest_packet.clone()).is_err());

    let data_packet = Packet { packet_type: PacketType::Data, name: "test_data".to_string(), content: vec![1, 2, 3, 4] };

    assert!(node.process_packet(data_packet).is_ok());

    let interest_packet = Packet { packet_type: PacketType::Interest, name: "test_data".to_string(), content: vec![] };

    assert!(node.process_packet(interest_packet).is_ok());
}

#[test]
fn test_smart_contract_execution() {
    let mut node = IcnNode::new();
    let contract = r#"
        x = 10 + 5;
        y = 20 - 3;
        z = x * y;
        emit("Result", z);
        "#;

    assert!(node.execute_smart_contract(contract.to_string()).is_ok());
}

#[test]
fn missing_content_leaves_a_pending_interest() {
    let mut node = IcnNode::new();
    let p = Packet { packet_type: PacketType::Interest, name: "/a/b".to_string(), content: vec![] };
    assert_eq!(node.process_interest(p), Err("Content '/a/b' not found".to_string()));
    assert_eq!(node.pit.get_incoming_interfaces("/a/b"), Some(vec!["default_interface".to_string()]));
}
