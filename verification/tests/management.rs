use srt_router::crosspoint::Crosspoint;
use srt_router::kinds::TransportKind;
use srt_router::management::{
    available_transports, check_new_output, check_new_source, list_sources, remove_source,
    EndpointRequest, MediaEndpointRequest, SourceEndpointRequest, SrtEndpointRequest,
};
use srt_router::media;
use srt_router::registry::Registry;
use tokio_util::sync::CancellationToken;

#[test]
fn add_duplicate_id_is_a_conflict() {
    let mut xp = Crosspoint::new();
    xp.register_source("dup".to_string());
    let err = check_new_source(&xp, "dup").unwrap_err();
    assert_eq!(err.status, 409);
    assert!(err.error.contains("already exists"));
}

#[test]
fn remove_unknown_source_is_not_found() {
    let mut xp = Crosspoint::new();
    let mut reg = Registry::new();
    let err = remove_source(&mut xp, &mut reg, "nope").unwrap_err();
    assert_eq!(err.status, 404);
    assert!(err.error.contains("not found"));
    assert_eq!(err.error, "source 'nope' not found");
}

#[test]
fn blank_ids_are_a_bad_request() {
    let xp = Crosspoint::new();
    let err = check_new_source(&xp, "  \t").unwrap_err();
    assert_eq!(err.status, 400);
    assert_eq!(err.error, "id must not be empty");
    assert_eq!(check_new_output(&xp, "").unwrap_err().status, 400);
    assert!(check_new_output(&xp, "out").is_ok());
}

#[test]
fn removing_a_source_hands_back_its_token_and_deregisters_it() {
    let mut xp = Crosspoint::new();
    let mut reg = Registry::new();
    let token = CancellationToken::new();
    xp.register_source("cam".to_string());
    reg.insert_source("cam".to_string(), TransportKind::Srt, token.clone());
    let handed_back = remove_source(&mut xp, &mut reg, "cam").ok().unwrap();
    assert!(!token.is_cancelled());
    handed_back.cancel();
    assert!(token.is_cancelled());
    assert!(!xp.has_source("cam"));
    assert_eq!(reg.kind_of("cam"), None);
}

#[test]
fn transports_lists_srt_and_ndi_iff_the_feature_is_on() {
    assert_eq!(
        available_transports(false, false),
        vec![TransportKind::Srt, TransportKind::Media]
    );
    assert_eq!(
        available_transports(true, true),
        vec![TransportKind::Srt, TransportKind::Ndi, TransportKind::Omt, TransportKind::Media]
    );
}

#[test]
fn listing_is_sorted_by_id() {
    let mut reg = Registry::new();
    for (id, kind) in [("zeta", TransportKind::Srt), ("alpha", TransportKind::Media), ("mid", TransportKind::Ndi), ("Beta", TransportKind::Omt)] {
        reg.insert_source(id.to_string(), kind, CancellationToken::new());
    }
    let list = list_sources(&reg);
    let ids: Vec<&str> = list.iter().map(|e| e.id.as_str()).collect();
    assert_eq!(ids, vec!["Beta", "alpha", "mid", "zeta"]);
    assert_eq!(list[1].kind, TransportKind::Media);
}

#[test]
fn media_requests_fill_in_defaults() {
    let e: media::Endpoint = MediaEndpointRequest::MediaPlayer {
        file_path: "/tmp/x.mp4".to_string(),
        loop_playback: None,
        width: None,
        height: Some(480),
    }
    .into();
    match e {
        media::Endpoint::MediaPlayer { loop_playback, width, height, .. } => {
            assert!(loop_playback);
            assert_eq!(width, 1280);
            assert_eq!(height, 480);
        }
        _ => panic!("expected a media player"),
    }
}

#[test]
fn request_kinds_follow_the_transport_tag() {
    let s = SourceEndpointRequest::Media(MediaEndpointRequest::Scaler {
        source: "a".to_string(),
        width: None,
        height: None,
    });
    assert_eq!(s.kind(), TransportKind::Media);
    let o = EndpointRequest::Srt(SrtEndpointRequest::Listener { bind: "0.0.0.0:1".to_string() });
    assert_eq!(o.kind(), TransportKind::Srt);
}

#[test]
fn an_inserted_entry_is_listed_with_its_kind_and_removable() {
    let mut reg = Registry::new();
    reg.insert_source("cam".to_string(), TransportKind::Ndi, CancellationToken::new());
    reg.insert_output("cam".to_string(), TransportKind::Srt, CancellationToken::new());
    reg.insert_output("prog".to_string(), TransportKind::Omt, CancellationToken::new());
    // Sources are looked up first.
    assert_eq!(reg.kind_of("cam"), Some(TransportKind::Ndi));
    assert_eq!(reg.kind_of("prog"), Some(TransportKind::Omt));
    let removed = reg.remove_source("cam").expect("the source was inserted");
    assert_eq!(removed.kind, TransportKind::Ndi);
    assert!(reg.sources().is_empty());
    assert_eq!(reg.kind_of("cam"), Some(TransportKind::Srt));
    assert!(reg.remove_source("cam").is_none());
}

#[test]
fn the_removed_entry_carries_the_inserted_token() {
    let mut reg = Registry::new();
    let token = CancellationToken::new();
    reg.insert_source("cam".to_string(), TransportKind::Srt, token.clone());
    let removed = reg.remove_source("cam").expect("inserted");
    assert!(!token.is_cancelled(), "the registry does not cancel by itself");
    removed.cancel.cancel();
    assert!(token.is_cancelled());
}
