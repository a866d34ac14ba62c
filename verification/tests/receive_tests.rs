use p2p_node::directory::PeerDirectory;
use p2p_node::receive::{classify_receive, is_valid_hash, ReceiveDecision, ReceiveInput};

// A node identity known to name a valid public key, in its canonical
// 64-digit lowercase-hex form.
const VALID_NODE_ID: &str = "ae58ff8833241ac82d6ff7611046ed67b5072d142c588d0063e942d9a75502b6";

fn valid_hash() -> String {
    "00112233445566778899aabbccddeeff00112233445566778899aabbccddeeff".to_string()
}

#[test]
fn hash_grammar() {
    assert!(is_valid_hash(&valid_hash()));
    assert!(is_valid_hash(&"ABCDEF00".repeat(8)));
    assert!(!is_valid_hash(&"0011".to_string()));
    assert!(!is_valid_hash(&"zz112233445566778899aabbccddeeff00112233445566778899aabbccddeeff"
        .to_string()));
    assert!(!is_valid_hash(&"".to_string()));
}

#[test]
fn empty_request_is_malformed() {
    assert!(matches!(
        classify_receive(ReceiveInput::Empty),
        ReceiveDecision::Malformed
    ));
}

#[test]
fn bare_hash_with_bad_hash_is_malformed() {
    let d = classify_receive(ReceiveInput::BareHash {
        hash: "nonsense".to_string(),
        provider_node_id: Some(VALID_NODE_ID.to_string()),
    });
    assert!(matches!(d, ReceiveDecision::Malformed));
}

#[test]
fn bare_hash_ignores_unparsable_provider() {
    let d = classify_receive(ReceiveInput::BareHash {
        hash: valid_hash(),
        provider_node_id: Some("prov".to_string()),
    });
    match d {
        ReceiveDecision::Proceed { hash, fallback } => {
            assert_eq!(hash, valid_hash());
            assert_eq!(fallback, None);
        }
        ReceiveDecision::Malformed => panic!("a valid bare hash must proceed"),
    }
}

#[test]
fn bare_hash_with_valid_provider_carries_fallback() {
    let d = classify_receive(ReceiveInput::BareHash {
        hash: valid_hash(),
        provider_node_id: Some(VALID_NODE_ID.to_string()),
    });
    match d {
        ReceiveDecision::Proceed { fallback, .. } => {
            assert_eq!(fallback, Some(VALID_NODE_ID.to_string()));
        }
        ReceiveDecision::Malformed => panic!("a valid bare hash must proceed"),
    }
}

#[test]
fn reference_with_bad_address_is_malformed() {
    let d = classify_receive(ReceiveInput::Reference {
        hash: valid_hash(),
        provider: "not-a-key".to_string(),
    });
    assert!(matches!(d, ReceiveDecision::Malformed));
}

#[test]
fn reference_with_valid_address_proceeds() {
    let d = classify_receive(ReceiveInput::Reference {
        hash: valid_hash(),
        provider: VALID_NODE_ID.to_string(),
    });
    match d {
        ReceiveDecision::Proceed { hash, fallback } => {
            assert_eq!(hash, valid_hash());
            assert_eq!(fallback, Some(VALID_NODE_ID.to_string()));
        }
        ReceiveDecision::Malformed => panic!("a valid reference must proceed"),
    }
}

#[test]
fn notification_is_read_like_a_bare_hash() {
    let msg = p2p_node::notify::NotifyMsg {
        hash: valid_hash(),
        filename: "f.png".to_string(),
        content_type: "image/png".to_string(),
        provider_node_id: Some(VALID_NODE_ID.to_string()),
    };
    match classify_receive(ReceiveInput::Notification { msg }) {
        ReceiveDecision::Proceed { hash, fallback } => {
            assert_eq!(hash, valid_hash());
            assert_eq!(fallback, Some(VALID_NODE_ID.to_string()));
        }
        ReceiveDecision::Malformed => panic!("a valid notification must proceed"),
    }
    let bad = p2p_node::notify::NotifyMsg {
        hash: "abc123".to_string(),
        filename: "f.png".to_string(),
        content_type: "image/png".to_string(),
        provider_node_id: Some("prov".to_string()),
    };
    assert!(matches!(
        classify_receive(ReceiveInput::Notification { msg: bad }),
        ReceiveDecision::Malformed
    ));
}

#[test]
fn directory_keeps_only_parsable_answers() {
    let mut dir = PeerDirectory::new();
    dir.note_status("http://peer1".to_string(), None);
    assert!(dir.snapshot().is_empty());
    dir.note_status("http://peer1".to_string(), Some("garbage".to_string()));
    assert!(dir.snapshot().is_empty());
    dir.note_status("http://peer1".to_string(), Some(VALID_NODE_ID.to_string()));
    let snap = dir.snapshot();
    assert_eq!(snap.len(), 1);
    assert_eq!(snap[0].0, "http://peer1");
    assert_eq!(snap[0].1, VALID_NODE_ID);
}

#[test]
fn directory_overwrites_on_each_poll_and_never_evicts() {
    let mut dir = PeerDirectory::new();
    dir.note_status("http://peer1".to_string(), Some(VALID_NODE_ID.to_string()));
    dir.note_status("http://peer2".to_string(), Some(VALID_NODE_ID.to_string()));
    // A later poll of peer1 fails: its entry stays.
    dir.note_status("http://peer1".to_string(), Some("broken".to_string()));
    let snap = dir.snapshot();
    assert_eq!(snap.len(), 2);
    assert_eq!(snap[0].0, "http://peer1");
    assert_eq!(snap[1].0, "http://peer2");
    // A successful poll overwrites in place, keeping the order.
    dir.note_status("http://peer1".to_string(), Some(VALID_NODE_ID.to_string()));
    assert_eq!(dir.snapshot().len(), 2);
}
