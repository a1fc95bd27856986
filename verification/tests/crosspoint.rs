use srt_router::crosspoint::Crosspoint;

#[test]
fn route_rejects_unknown_ids() {
    let mut xp = Crosspoint::new();
    xp.register_source("a".to_string());
    xp.register_output("out1".to_string(), "a".to_string());
    assert!(!xp.route("out1", "nonexistent"));
    assert!(!xp.route("nonexistent", "a"));
}

#[test]
fn deregister_removes_and_reports_prior_existence() {
    let mut xp = Crosspoint::new();
    xp.register_source("a".to_string());
    xp.register_output("out1".to_string(), "a".to_string());

    assert!(xp.has_source("a"));
    assert!(xp.has_output("out1"));

    assert!(xp.deregister_source("a"));
    assert!(!xp.has_source("a"));
    assert!(!xp.deregister_source("a"), "second removal reports false");

    assert!(xp.deregister_output("out1"));
    assert!(!xp.has_output("out1"));

    assert!(xp.subscribe("a").is_none());
}

#[test]
fn output_follows_route_changes() {
    let rt = tokio::runtime::Builder::new_current_thread()
        .enable_all()
        .build()
        .unwrap();
    rt.block_on(async {
        let mut xp = Crosspoint::new();
        let tx_a = xp.register_source("a".to_string());
        let tx_b = xp.register_source("b".to_string());
        let mut route_rx = xp.register_output("out1".to_string(), "a".to_string());

        let mut rx = xp.subscribe(&route_rx.borrow().clone()).unwrap();
        tx_a.send(bytes::Bytes::from_static(b"from-a")).unwrap();
        assert_eq!(rx.recv().await.unwrap(), bytes::Bytes::from_static(b"from-a"));

        assert!(xp.route("out1", "b"));
        route_rx.changed().await.unwrap();
        let mut rx = xp.subscribe(&route_rx.borrow().clone()).unwrap();
        tx_b.send(bytes::Bytes::from_static(b"from-b")).unwrap();
        assert_eq!(rx.recv().await.unwrap(), bytes::Bytes::from_static(b"from-b"));
    });
}

#[test]
fn a_route_shows_in_the_table_even_with_no_receiver() {
    let mut xp = Crosspoint::new();
    xp.register_source("a".to_string());
    xp.register_source("b".to_string());
    drop(xp.register_output("out1".to_string(), "a".to_string()));
    assert!(xp.route("out1", "b"));
    assert_eq!(xp.routes(), vec![("out1".to_string(), "b".to_string())]);
}

#[test]
fn ids_are_listed_once_each() {
    let mut xp = Crosspoint::new();
    xp.register_source("a".to_string());
    xp.register_source("b".to_string());
    xp.register_source("a".to_string());
    let mut ids = xp.source_ids();
    ids.sort();
    assert_eq!(ids, vec!["a".to_string(), "b".to_string()]);
    xp.register_output("p".to_string(), "a".to_string());
    xp.register_output("p".to_string(), "b".to_string());
    assert_eq!(xp.output_ids(), vec!["p".to_string()]);
    assert_eq!(xp.routes(), vec![("p".to_string(), "b".to_string())]);
}

#[test]
fn removing_a_source_keeps_the_outputs_route() {
    let mut xp = Crosspoint::new();
    xp.register_source("a".to_string());
    xp.register_output("out".to_string(), "a".to_string());
    assert!(xp.deregister_source("a"));
    assert_eq!(xp.routes(), vec![("out".to_string(), "a".to_string())]);
    assert!(!xp.route("out", "a"));
}
