//! The overlay network: its nodes, looked up by id, and the packets they exchange.
use vstd::prelude::*;
use crate::blockchain::Block;
use crate::string_map::StringMap;
use crate::text::{decimal_digits, u64_text};

verus! {

/// The kind of device a node runs on.
#[derive(Debug, Clone, Copy, PartialEq, Eq, Structural)]
pub enum NodeType {
    PersonalDevice,
    CooperativeServer,
    GovernmentServer,
}

/// A node of the network.
#[derive(Debug, Clone)]
pub struct Node {
    pub id: String,
    pub node_type: NodeType,
    pub address: String,
}

impl Node {
    /// A node with the given id, type and address.
    pub fn new(id: &str, node_type: NodeType, address: &str) -> (n: Node)
        ensures
            n.id@ == id@,
            n.node_type == node_type,
            n.address@ == address@,
    {
        Node { id: id.to_owned(), node_type, address: address.to_owned() }
    }
}

/// The nodes of the network, each stored under its own id.
pub struct Network {
    nodes: StringMap<Node>,
}

impl View for Network {
    type V = Map<Seq<char>, Node>;

    closed spec fn view(&self) -> Map<Seq<char>, Node> {
        self.nodes@
    }
}

impl Network {
    /// Every node is stored under its own id.
    pub closed spec fn wf(&self) -> bool {
        &&& self.nodes.wf()
        &&& forall|k: Seq<char>| #[trigger] self.nodes@.contains_key(k) ==> self.nodes@[k].id@ == k
    }

    /// An empty network.
    pub fn new() -> (net: Network)
        ensures
            net.wf(),
            net@ == Map::<Seq<char>, Node>::empty(),
    {
        Network { nodes: StringMap::new() }
    }

    /// Adds `node` under its id, replacing any node with the same id.
    pub fn add_node(&mut self, node: Node)
        requires
            old(self).wf(),
        ensures
            final(self).wf(),
            final(self)@ == old(self)@.insert(node.id@, node),
            final(self)@.dom().finite(),
            final(self)@.len() == old(self)@.len() + (if old(self)@.contains_key(node.id@) {
                0int
            } else {
                1int
            }),
    {
        proof {
            self.nodes.lemma_len();
        }
        let id = node.id.clone();
        self.nodes.insert(id, node);
        proof {
            self.nodes.lemma_len();
        }
    }

    /// Removes the node with id `node_id`, if there is one.
    pub fn remove_node(&mut self, node_id: &str)
        requires
            old(self).wf(),
        ensures
            final(self).wf(),
            final(self)@ == old(self)@.remove(node_id@),
    {
        let key = node_id.to_owned();
        self.nodes.remove(&key);
    }

    /// The node with id `node_id`, if there is one.
    pub fn get_node(&self, node_id: &str) -> (r: Option<&Node>)
        requires
            self.wf(),
        ensures
            r.is_some() == self@.contains_key(node_id@),
            r matches Some(n) ==> *n == self@[node_id@] && n.id@ == node_id@,
    {
        let key = node_id.to_owned();
        self.nodes.get(&key)
    }

    /// The line announcing that `block` goes out to every node; the caller
    /// prints it.
    pub fn broadcast_block(&self, block: &Block) -> (line: String)
        ensures
            line@ == "Broadcasting block "@ + decimal_digits(block.index as nat) + " to all nodes"@,
    {
        let mut line = "Broadcasting block ".to_owned();
        let digits = u64_text(block.index);
        line.append(digits.as_str());
        line.append(" to all nodes");
        line
    }

    /// The line announcing that the chain is brought in line across the
    /// nodes; the caller prints it.
    pub fn synchronize_blockchain(&self, _blockchain: &[Block]) -> (line: String)
        ensures
            line@ == "Synchronizing blockchain across all nodes"@,
    {
        "Synchronizing blockchain across all nodes".to_owned()
    }

    /// The number of nodes.
    pub fn len(&self) -> (n: usize)
        requires
            self.wf(),
        ensures
            n == self@.len(),
    {
        self.nodes.len()
    }
}

/// Whether a packet asks for content or carries it.
#[derive(Debug, Clone, Copy, PartialEq, Eq, Structural)]
pub enum PacketType {
    Interest,
    Data,
}

/// A named packet.
#[derive(Debug, Clone)]
pub struct Packet {
    pub packet_type: PacketType,
    pub name: String,
    pub content: Vec<u8>,
}

/// A node just added is found under its id, with the other nodes as they
/// were; a node just removed is found no more.
pub proof fn lemma_lookup_after_add_and_remove(
    before: Map<Seq<char>, Node>,
    added: Map<Seq<char>, Node>,
    removed: Map<Seq<char>, Node>,
    node: Node,
    other: Seq<char>,
)
    requires
        added == before.insert(node.id@, node),
        removed == added.remove(node.id@),
        other != node.id@,
    ensures
        added.contains_key(node.id@) && added[node.id@] == node,
        added.contains_key(other) == before.contains_key(other),
        before.contains_key(other) ==> added[other] == before[other],
        !removed.contains_key(node.id@),
        removed.contains_key(other) == before.contains_key(other),
{
}

} // verus!
