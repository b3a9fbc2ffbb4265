use spr_nostr::topology::build_topology;

#[test]
fn root_anchor_shape() {
    let topo = build_topology(true, "172.18.0.5");
    let root = &topo.nodes[0];
    assert_eq!(root.id, "root");
    assert_eq!(root.conn_type, "nostr");
    assert!(root.online);
    assert!(root.kind.is_empty());
    assert!(root.name.is_empty());
    assert!(root.ip.is_empty());
}

#[test]
fn service_node_reflects_live_state() {
    let topo = build_topology(true, "172.18.0.5");
    assert_eq!(topo.nodes.len(), 2);
    let svc = &topo.nodes[1];
    assert_eq!(svc.id, "nostr-relay");
    assert_eq!(svc.kind, "service");
    assert_eq!(svc.conn_type, "nostr");
    assert!(svc.online);
    assert_eq!(svc.ip, "172.18.0.5");
    assert_eq!(topo.edges.len(), 1);
    let e = &topo.edges[0];
    assert_eq!(e.from, "root");
    assert_eq!(e.to, "nostr-relay");
    assert_eq!(e.layer, "l1");
    assert_eq!(e.kind, "nostr");
}

#[test]
fn relay_down_keeps_anchor_online() {
    let topo = build_topology(false, "");
    assert!(topo.nodes[0].online, "root anchor is always online");
    assert!(!topo.nodes[1].online, "service offline when relay is down");
    assert!(topo.nodes[1].ip.is_empty());
    assert_eq!(topo.nodes[1].name, "Nostr relay");
    assert_eq!(topo.edges.len(), 1);
}
