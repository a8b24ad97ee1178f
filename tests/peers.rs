use ledger_node::fanout::Fanout;
use ledger_node::registry::{addresses_of, PeerRegistry};

fn sorted_ids(r: &PeerRegistry) -> Vec<(usize, Vec<u8>, String)> {
    let mut v: Vec<(usize, Vec<u8>, String)> = r
        .snapshot()
        .into_iter()
        .map(|p| (p.node_id, p.public_key, p.address))
        .collect();
    v.sort();
    v
}

#[test]
fn register_twice_same_as_once() {
    let mut once = PeerRegistry::new();
    once.register(3, vec![1, 2], "127.0.0.1:9000".to_string());
    let mut twice = PeerRegistry::new();
    twice.register(3, vec![1, 2], "127.0.0.1:9000".to_string());
    twice.register(3, vec![1, 2], "127.0.0.1:9000".to_string());
    assert_eq!(sorted_ids(&once), sorted_ids(&twice));
    assert_eq!(twice.snapshot().len(), 1);
}

#[test]
fn register_last_write_wins() {
    let mut r = PeerRegistry::new();
    r.register(1, vec![1], "a:1".to_string());
    r.register(2, vec![2], "b:2".to_string());
    r.register(1, vec![9], "c:3".to_string());
    let p = r.lookup(1).unwrap();
    assert_eq!(p.public_key, vec![9]);
    assert_eq!(p.address, "c:3");
    assert_eq!(r.snapshot().len(), 2);
    assert!(r.lookup(7).is_none());
}

#[test]
fn addresses_in_snapshot_order() {
    let mut r = PeerRegistry::new();
    r.register(1, vec![], "a:1".to_string());
    r.register(2, vec![], "b:2".to_string());
    let snap = r.snapshot();
    let addrs = addresses_of(&snap);
    assert_eq!(addrs.len(), 2);
    for (p, a) in snap.iter().zip(addrs.iter()) {
        assert_eq!(&p.address, a);
    }
}

#[test]
fn one_unreachable_peer_does_not_stop_others() {
    let targets = vec!["a:1".to_string(), "b:2".to_string(), "c:3".to_string(), "d:4".to_string()];
    let mut f = Fanout::new(targets);
    let mut sent = Vec::new();
    while let Some(t) = f.next_target() {
        let ok = t != "b:2";
        sent.push(t);
        f.record(ok);
    }
    assert_eq!(sent.len(), 4);
    assert_eq!(f.delivered(), vec!["a:1".to_string(), "c:3".to_string(), "d:4".to_string()]);
    assert_eq!(f.failed(), vec!["b:2".to_string()]);
}

#[test]
fn fanout_with_no_peers_is_done() {
    let f = Fanout::new(Vec::new());
    assert!(f.next_target().is_none());
    assert!(f.delivered().is_empty());
}
