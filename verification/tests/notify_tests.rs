use p2p_node::notify::{artificial_delay, notify_alpn, plan_notify, NotifyRoute};

#[test]
fn test_notify_alpn_value() {
    assert_eq!(notify_alpn(), b"/iroh-demo/image-notify/1".to_vec());
}

/// Scenario: empty resolved-address directory but one configured peer
/// URL gives exactly one HTTP notification and no point-to-point send.
#[test]
fn scenario_fanout_empty_directory() {
    let directory: Vec<(String, String)> = Vec::new();
    let configured = vec!["http://peer1:8080".to_string()];
    let plan = plan_notify(&directory, &configured);
    assert_eq!(plan.len(), 1);
    match &plan[0] {
        NotifyRoute::HttpOnly { url } => assert_eq!(url, "http://peer1:8080"),
        NotifyRoute::P2pWithHttpFallback { .. } => panic!("point-to-point route planned"),
    }
}

#[test]
fn fanout_with_resolved_addresses_goes_p2p_first() {
    let directory = vec![
        ("http://peer1".to_string(), "p1".to_string()),
        ("http://peer2".to_string(), "p2".to_string()),
    ];
    let configured = vec!["http://peer1".to_string(), "http://peer9".to_string()];
    let plan = plan_notify(&directory, &configured);
    assert_eq!(plan.len(), 2);
    match &plan[0] {
        NotifyRoute::P2pWithHttpFallback { url, node_id } => {
            assert_eq!(url, "http://peer1");
            assert_eq!(node_id, "p1");
        }
        NotifyRoute::HttpOnly { .. } => panic!("expected a point-to-point route"),
    }
    match &plan[1] {
        NotifyRoute::P2pWithHttpFallback { url, node_id } => {
            assert_eq!(url, "http://peer2");
            assert_eq!(node_id, "p2");
        }
        NotifyRoute::HttpOnly { .. } => panic!("expected a point-to-point route"),
    }
}

#[test]
fn artificial_delay_bounds() {
    assert_eq!(artificial_delay(0, 0), None);
    assert_eq!(artificial_delay(7, 0), Some(7));
    for _ in 0..20 {
        let d = artificial_delay(5, 10).unwrap();
        assert!((5..=10).contains(&d));
    }
}
