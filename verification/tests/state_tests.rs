use p2p_node::state::TransferState;

fn fresh() -> TransferState {
    TransferState::new("node-a".to_string(), Some("selfid".to_string()))
}

#[test]
fn progress_follows_received_share() {
    let mut s = fresh();
    s.reset(
        "aa".repeat(32),
        "f.png".to_string(),
        "image/png".to_string(),
    );
    s.record_progress(50, Some(200));
    assert_eq!(s.bytes_received, 50);
    assert_eq!(s.bytes_total, Some(200));
    assert_eq!(s.progress, 25);
    s.record_progress(200, None);
    assert_eq!(s.progress, 100);
}

#[test]
fn progress_is_monotone_under_out_of_order_reports() {
    let mut s = fresh();
    s.reset("bb".repeat(32), "f".to_string(), "t".to_string());
    s.record_progress(80, None);
    s.record_progress(40, None);
    assert_eq!(s.bytes_received, 80);
}

#[test]
fn received_is_capped_at_known_total() {
    let mut s = fresh();
    s.reset("cc".repeat(32), "f".to_string(), "t".to_string());
    s.record_progress(500, Some(100));
    assert_eq!(s.bytes_received, 100);
    assert_eq!(s.progress, 100);
}

#[test]
fn provider_chunks_are_idempotent() {
    let mut s = fresh();
    s.reset("dd".repeat(32), "f".to_string(), "t".to_string());
    s.record_provider_chunk("p1".to_string(), "range1".to_string());
    s.record_provider_chunk("p1".to_string(), "range1".to_string());
    s.record_provider_chunk("p1".to_string(), "range2".to_string());
    assert_eq!(s.stripe_providers.len(), 1);
    assert_eq!(
        s.stripe_providers[0].1,
        vec!["range1".to_string(), "range2".to_string()]
    );
}

#[test]
fn ingest_marks_transfer_born_complete() {
    let mut s = fresh();
    s.record_ingest(
        "ee".repeat(32),
        "up.png".to_string(),
        "image/png".to_string(),
        4096,
        "selfid".to_string(),
        "all".to_string(),
    );
    assert!(s.has_image);
    assert_eq!(s.progress, 100);
    assert_eq!(s.bytes_total, Some(4096));
    assert_eq!(s.bytes_received, 4096);
    assert_eq!(s.stripe_providers.len(), 1);
    assert_eq!(s.stripe_providers[0].0, "selfid");
    assert_eq!(s.stripe_providers[0].1, vec!["all".to_string()]);
}

#[test]
fn snapshot_copies_every_field() {
    let mut s = fresh();
    s.reset("ff".repeat(32), "f.png".to_string(), "image/png".to_string());
    s.record_progress(10, Some(40));
    s.record_provider_chunk("p1".to_string(), "range1".to_string());
    let c = s.snapshot();
    assert_eq!(c.node_name, s.node_name);
    assert_eq!(c.node_addr, s.node_addr);
    assert_eq!(c.has_image, s.has_image);
    assert_eq!(c.current_filename, s.current_filename);
    assert_eq!(c.content_type, s.content_type);
    assert_eq!(c.current_hash, s.current_hash);
    assert_eq!(c.bytes_total, s.bytes_total);
    assert_eq!(c.bytes_received, s.bytes_received);
    assert_eq!(c.progress, s.progress);
    assert_eq!(c.stripe_providers, s.stripe_providers);
}

#[test]
fn clear_partial_leaves_no_partial_values() {
    let mut s = fresh();
    s.reset("ab".repeat(32), "f".to_string(), "t".to_string());
    s.record_progress(30, Some(60));
    s.record_provider_chunk("p1".to_string(), "range1".to_string());
    s.clear_partial();
    assert_eq!(s.bytes_received, 0);
    assert_eq!(s.bytes_total, None);
    assert_eq!(s.progress, 0);
    assert!(s.stripe_providers.is_empty());
    assert!(!s.has_image);
    // The transfer's identity is kept.
    assert_eq!(s.current_hash, Some("ab".repeat(32)));
}
