//! Topology contribution merged into SPR's router topology view: a root anchor
//! node, the relay's service node, and one edge between them.
use vstd::prelude::*;

verus! {

broadcast use vstd::string::group_string_axioms;

/// A node of the topology graph.
#[derive(Debug, Clone, PartialEq, Eq)]
pub struct TopoNode {
    pub id: String,
    pub kind: String,
    pub name: String,
    pub ip: String,
    pub conn_type: String,
    pub online: bool,
}

/// An edge of the topology graph.
#[derive(Debug, Clone, PartialEq, Eq)]
pub struct TopoEdge {
    pub from: String,
    pub to: String,
    pub layer: String,
    pub kind: String,
}

/// The graph this plugin contributes.
#[derive(Debug, Clone, PartialEq, Eq)]
pub struct Topology {
    pub nodes: Vec<TopoNode>,
    pub edges: Vec<TopoEdge>,
}

pub struct TopoNodeView {
    pub id: Seq<char>,
    pub kind: Seq<char>,
    pub name: Seq<char>,
    pub ip: Seq<char>,
    pub conn_type: Seq<char>,
    pub online: bool,
}

pub struct TopoEdgeView {
    pub from: Seq<char>,
    pub to: Seq<char>,
    pub layer: Seq<char>,
    pub kind: Seq<char>,
}

pub struct TopologyView {
    pub nodes: Seq<TopoNodeView>,
    pub edges: Seq<TopoEdgeView>,
}

impl View for TopoNode {
    type V = TopoNodeView;

    open spec fn view(&self) -> TopoNodeView {
        TopoNodeView {
            id: self.id@,
            kind: self.kind@,
            name: self.name@,
            ip: self.ip@,
            conn_type: self.conn_type@,
            online: self.online,
        }
    }
}

impl View for TopoEdge {
    type V = TopoEdgeView;

    open spec fn view(&self) -> TopoEdgeView {
        TopoEdgeView { from: self.from@, to: self.to@, layer: self.layer@, kind: self.kind@ }
    }
}

impl View for Topology {
    type V = TopologyView;

    open spec fn view(&self) -> TopologyView {
        TopologyView {
            nodes: self.nodes@.map_values(|n: TopoNode| n@),
            edges: self.edges@.map_values(|e: TopoEdge| e@),
        }
    }
}

/// The root anchor: only its ID, connection type and (always true) online
/// flag are set.
pub open spec fn root_anchor() -> TopoNodeView {
    TopoNodeView {
        id: "root"@,
        kind: Seq::empty(),
        name: Seq::empty(),
        ip: Seq::empty(),
        conn_type: "nostr"@,
        online: true,
    }
}

/// The relay's service node; it is online exactly when the relay runs.
pub open spec fn relay_node(running: bool, ip: Seq<char>) -> TopoNodeView {
    TopoNodeView {
        id: "nostr-relay"@,
        kind: "service"@,
        name: "Nostr relay"@,
        ip: ip,
        conn_type: "nostr"@,
        online: running,
    }
}

/// The single layer-1 edge from the root anchor to the relay.
pub open spec fn relay_edge() -> TopoEdgeView {
    TopoEdgeView { from: "root"@, to: "nostr-relay"@, layer: "l1"@, kind: "nostr"@ }
}

/// The topology for a relay state and container IP.
pub open spec fn topology_spec(running: bool, ip: Seq<char>) -> TopologyView {
    TopologyView { nodes: seq![root_anchor(), relay_node(running, ip)], edges: seq![relay_edge()] }
}

/// Build the topology: the root anchor plus one service node for the Nostr
/// relay. `running` is the live relay state; `ip` is the container IP on the
/// spr-nostr bridge (empty when unknown).
pub fn build_topology(running: bool, ip: &str) -> (topo: Topology)
    ensures
        topo@ == topology_spec(running, ip@),
{
    let root = TopoNode {
        id: "root".to_owned(),
        kind: String::new(),
        name: String::new(),
        ip: String::new(),
        conn_type: "nostr".to_owned(),
        online: true,
    };
    let relay = TopoNode {
        id: "nostr-relay".to_owned(),
        kind: "service".to_owned(),
        name: "Nostr relay".to_owned(),
        ip: ip.to_owned(),
        conn_type: "nostr".to_owned(),
        online: running,
    };
    let edge = TopoEdge {
        from: "root".to_owned(),
        to: "nostr-relay".to_owned(),
        layer: "l1".to_owned(),
        kind: "nostr".to_owned(),
    };
    let mut nodes: Vec<TopoNode> = Vec::new();
    nodes.push(root);
    nodes.push(relay);
    let mut edges: Vec<TopoEdge> = Vec::new();
    edges.push(edge);
    let topo = Topology { nodes, edges };
    assert(topo@.nodes == topology_spec(running, ip@).nodes);
    assert(topo@.edges == topology_spec(running, ip@).edges);
    topo
}

/// Whatever the relay state, the graph is the root anchor (always online)
/// and the relay node (online exactly when the relay runs), joined by one
/// edge from the root to the relay.
pub proof fn lemma_topology_shape(running: bool, ip: Seq<char>)
    ensures
        topology_spec(running, ip).nodes.len() == 2,
        topology_spec(running, ip).nodes[0].online,
        topology_spec(running, ip).nodes[1].online == running,
        topology_spec(running, ip).edges.len() == 1,
        topology_spec(running, ip).edges[0].from == topology_spec(running, ip).nodes[0].id,
        topology_spec(running, ip).edges[0].to == topology_spec(running, ip).nodes[1].id,
{
}

/// The relay node carries the given container IP whether or not the relay
/// runs; the relay state changes nothing but its online flag.
pub proof fn lemma_relay_node_keeps_ip(running: bool, ip: Seq<char>)
    ensures
        topology_spec(running, ip).nodes[1].ip == ip,
        topology_spec(true, ip).nodes[1].id == topology_spec(false, ip).nodes[1].id,
        topology_spec(true, ip).nodes[1].kind == topology_spec(false, ip).nodes[1].kind,
        topology_spec(true, ip).nodes[1].name == topology_spec(false, ip).nodes[1].name,
        topology_spec(true, ip).nodes[1].ip == topology_spec(false, ip).nodes[1].ip,
        topology_spec(true, ip).nodes[1].conn_type == topology_spec(false, ip).nodes[1].conn_type,
        topology_spec(true, ip).nodes[0] == topology_spec(false, ip).nodes[0],
        topology_spec(true, ip).edges == topology_spec(false, ip).edges,
{
}

} // verus!
