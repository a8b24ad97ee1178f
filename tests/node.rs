use ledger_node::codec::{encode_result, encode_transaction};
use ledger_node::net::{PeerRegistrationResponse, WalletCreationRequest};
use ledger_node::node::Node;
use ledger_node::transactions::{Transaction, TransactionResult};
use threshold_crypto::SecretKey;

fn make_node(id: usize, address: &str) -> Node {
    Node::new(id, address.to_string(), SecretKey::random())
}

fn tx(from: &str, to: &str, amount: i32) -> Transaction {
    Transaction::new(from.to_string(), to.to_string(), amount)
}

fn link(a: &mut Node, b: &mut Node) {
    let ra = a.registration_request();
    let reply = b.handle_incoming_peer_registration(ra);
    a.register_with_peers(vec![Some(PeerRegistrationResponse {
        node_id: reply.node_id,
        public_key: reply.public_key,
        address: reply.address,
    })]);
}

#[test]
fn encode_transaction_bytes() {
    let bytes = encode_transaction(&tx("a", "bc", 5));
    assert_eq!(
        bytes,
        vec![1, 0, 0, 0, 0, 0, 0, 0, b'a', 2, 0, 0, 0, 0, 0, 0, 0, b'b', b'c', 5, 0, 0, 0]
    );
    let neg = encode_transaction(&tx("", "", -2));
    assert_eq!(neg[16..], [0xfe, 0xff, 0xff, 0xff]);
}

#[test]
fn encode_failed_result_bytes() {
    let r = TransactionResult { node_id: 258, success: false, transaction: None };
    assert_eq!(encode_result(&r), vec![2, 1, 0, 0, 0, 0, 0, 0, 0, 0]);
}

#[test]
fn signature_round_trip() {
    let mut a = make_node(1, "127.0.0.1:9001");
    let mut b = make_node(2, "127.0.0.1:9002");
    link(&mut b, &mut a);
    let w = b.handle_incoming_wallet_creation(WalletCreationRequest { initial_balance: 10 }).unwrap();
    let w2 = b.handle_incoming_wallet_creation(WalletCreationRequest { initial_balance: 0 }).unwrap();
    let signed = a.sign_transaction(tx(&w.wallet_id, &w2.wallet_id, 3));
    assert_eq!(signed.signature.len(), 96);
    assert_ne!(signed.signature, encode_transaction(&signed.transaction));
    let mut tampered = signed.duplicate();
    tampered.transaction.amount = 4;
    assert!(!b.process_transaction(&tampered));
    assert_eq!(b.balance(&w.wallet_id), Some(10));
    assert!(b.process_transaction(&signed));
    assert_eq!(b.balance(&w.wallet_id), Some(7));
    assert_eq!(b.balance(&w2.wallet_id), Some(3));
}

#[test]
fn unknown_sender_rejected() {
    let a = make_node(1, "127.0.0.1:9001");
    let mut b = make_node(2, "127.0.0.1:9002");
    let w = b.handle_incoming_wallet_creation(WalletCreationRequest { initial_balance: 10 }).unwrap();
    let signed = a.sign_transaction(tx(&w.wallet_id, &w.wallet_id, 1));
    assert!(!b.process_transaction(&signed));
}

#[test]
fn end_to_end_transfer_replicates() {
    let mut a = make_node(1, "127.0.0.1:9001");
    let mut b = make_node(2, "127.0.0.1:9002");
    link(&mut a, &mut b);
    assert_eq!(a.get_peers().len(), 1);
    assert_eq!(b.get_peers().len(), 1);
    let w1 = a.handle_incoming_wallet_creation(WalletCreationRequest { initial_balance: 100 }).unwrap();
    let w2 = a.handle_incoming_wallet_creation(WalletCreationRequest { initial_balance: 0 }).unwrap();
    b.handle_wallet_announcement(ledger_node::net::WalletCreationResponse {
        wallet_id: w1.wallet_id.clone(),
        initial_balance: w1.initial_balance,
    });
    b.handle_wallet_announcement(ledger_node::net::WalletCreationResponse {
        wallet_id: w2.wallet_id.clone(),
        initial_balance: w2.initial_balance,
    });
    let out = a.handle_incoming_transaction(tx(&w1.wallet_id, &w2.wallet_id, 40));
    assert!(out.result.success);
    assert_eq!(out.result.node_id, 1);
    assert_eq!(a.balance(&w1.wallet_id), Some(60));
    assert_eq!(a.balance(&w2.wallet_id), Some(40));
    let propagated = out.result.transaction.as_ref().unwrap();
    assert!(b.process_transaction(propagated));
    assert_eq!(b.balance(&w1.wallet_id), Some(60));
    assert_eq!(b.balance(&w2.wallet_id), Some(40));
    assert!(b.handle_incoming_transaction_verification(out.verification));
}

#[test]
fn insufficient_transfer_reports_failure() {
    let mut a = make_node(1, "127.0.0.1:9001");
    let w1 = a.handle_incoming_wallet_creation(WalletCreationRequest { initial_balance: 60 }).unwrap();
    let w2 = a.handle_incoming_wallet_creation(WalletCreationRequest { initial_balance: 40 }).unwrap();
    let out = a.handle_incoming_transaction(tx(&w1.wallet_id, &w2.wallet_id, 1000));
    assert!(!out.result.success);
    assert!(out.result.transaction.is_none());
    assert!(!out.verification.result.success);
    assert_eq!(a.balance(&w1.wallet_id), Some(60));
    assert_eq!(a.balance(&w2.wallet_id), Some(40));
}

#[test]
fn verification_from_unregistered_node_dropped() {
    let mut a = make_node(1, "127.0.0.1:9001");
    let mut b = make_node(2, "127.0.0.1:9002");
    let w1 = a.handle_incoming_wallet_creation(WalletCreationRequest { initial_balance: 5 }).unwrap();
    let out = a.handle_incoming_transaction(tx(&w1.wallet_id, &w1.wallet_id, 1));
    assert!(out.result.success);
    assert!(!b.handle_incoming_transaction_verification(out.verification));
}

#[test]
fn verification_with_forged_share_dropped() {
    let mut a = make_node(1, "127.0.0.1:9001");
    let mut b = make_node(2, "127.0.0.1:9002");
    link(&mut b, &mut a);
    let w1 = a.handle_incoming_wallet_creation(WalletCreationRequest { initial_balance: 5 }).unwrap();
    let mut out = a.handle_incoming_transaction(tx(&w1.wallet_id, &w1.wallet_id, 1));
    out.verification.result.success = false;
    out.verification.result.transaction = None;
    assert!(!b.handle_incoming_transaction_verification(out.verification));
}

#[test]
fn unreachable_initial_peer_skipped() {
    let mut a = make_node(1, "127.0.0.1:9001");
    a.register_with_peers(vec![
        None,
        Some(PeerRegistrationResponse { node_id: 4, public_key: vec![7], address: "x:1".to_string() }),
    ]);
    let peers = a.get_peers();
    assert_eq!(peers.len(), 1);
    assert_eq!(peers[0].node_id, 4);
}

#[test]
fn quorum_counts_distinct_reporters() {
    let mut a = make_node(1, "127.0.0.1:9001");
    let mut b = make_node(2, "127.0.0.1:9002");
    link(&mut b, &mut a);
    let w1 = a.handle_incoming_wallet_creation(WalletCreationRequest { initial_balance: 50 }).unwrap();
    let w2 = a.handle_incoming_wallet_creation(WalletCreationRequest { initial_balance: 0 }).unwrap();
    let t = tx(&w1.wallet_id, &w2.wallet_id, 5);
    let first = a.handle_incoming_transaction(t.duplicate());
    let second = a.handle_incoming_transaction(t.duplicate());
    assert!(!b.quorum_reached(&t, 1));
    assert!(b.quorum_reached(&t, 0));
    assert!(b.handle_incoming_transaction_verification(first.verification));
    assert!(b.handle_incoming_transaction_verification(second.verification));
    assert!(b.quorum_reached(&t, 1));
    assert!(!b.quorum_reached(&t, 2));
    assert!(!b.quorum_reached(&tx(&w1.wallet_id, &w2.wallet_id, 6), 1));
}

#[test]
fn public_key_is_compressed_bytes() {
    let sk = SecretKey::random();
    let pk = sk.public_key();
    let n = Node::new(3, "127.0.0.1:9003".to_string(), sk);
    assert_eq!(n.public_key(), pk.to_bytes().to_vec());
    assert_eq!(n.id(), 3);
    let me = n.registration_request();
    assert_eq!(me.address, "127.0.0.1:9003");
    assert_eq!(me.public_key.len(), 48);
}
