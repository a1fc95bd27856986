use srt_router::ndi::transport::library_candidates;
use srt_router::relay::{input_gives_up, output_action, OutputAction, OutputEvent, SILENCE_TIMEOUT_MS};

#[test]
fn a_routing_change_comes_before_everything_else() {
    assert_eq!(output_action(OutputEvent::RouteChanged), OutputAction::Resubscribe);
    assert_eq!(output_action(OutputEvent::Payload), OutputAction::Forward);
    assert_eq!(output_action(OutputEvent::Empty), OutputAction::Wait);
    assert_eq!(output_action(OutputEvent::Lagged(7)), OutputAction::Skip(7));
    assert_eq!(output_action(OutputEvent::Closed), OutputAction::Stop);
    assert_eq!(output_action(OutputEvent::RouteGone), OutputAction::Stop);
}

#[test]
fn an_input_waits_out_a_quiet_spell() {
    assert_eq!(SILENCE_TIMEOUT_MS, 30_000);
    assert!(!input_gives_up(false, 30_000));
    assert!(input_gives_up(false, 30_001));
    assert!(!input_gives_up(true, 90_000));
}

#[test]
fn runtime_candidates_follow_the_search_order() {
    let names = vec!["libndi.so.6".to_string(), "libndi.so".to_string()];
    let extra = vec!["/usr/local/lib".to_string(), "/usr/lib".to_string()];
    let got = library_candidates(Some("/opt/ndi6"), Some(""), Some("/app"), &names, &extra);
    let want: Vec<(Option<String>, String)> = vec![
        (Some("/opt/ndi6".into()), "libndi.so.6".into()),
        (Some("/opt/ndi6".into()), "libndi.so".into()),
        (Some("/app".into()), "libndi.so.6".into()),
        (Some("/app".into()), "libndi.so".into()),
        (None, "libndi.so.6".into()),
        (None, "libndi.so".into()),
        (Some("/usr/local/lib".into()), "libndi.so.6".into()),
        (Some("/usr/local/lib".into()), "libndi.so".into()),
        (Some("/usr/lib".into()), "libndi.so.6".into()),
        (Some("/usr/lib".into()), "libndi.so".into()),
    ];
    assert_eq!(got, want);
    let bare = library_candidates(None, None, None, &names, &Vec::new());
    assert_eq!(bare, vec![(None, "libndi.so.6".to_string()), (None, "libndi.so".to_string())]);
}
