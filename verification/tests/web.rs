use srt_router::crosspoint::Crosspoint;
use srt_router::kinds::TransportKind;
use srt_router::registry::Registry;
use srt_router::web::{post_route, route_with_kinds, snapshot, RouteRequest};
use tokio_util::sync::CancellationToken;

fn req(output: &str, source: &str) -> RouteRequest {
    RouteRequest { output: output.to_string(), source: source.to_string() }
}

#[test]
fn same_kind_route_is_allowed() {
    let mut xp = Crosspoint::new();
    xp.register_source("cam1".to_string());
    xp.register_output("program".to_string(), "cam1".to_string());
    let res = route_with_kinds(
        &mut xp,
        Some(TransportKind::Srt),
        Some(TransportKind::Srt),
        "program",
        "cam1",
    );
    assert!(res.ok, "same-kind route should be allowed");
    assert!(res.error.is_none());
}

#[test]
fn cross_kind_route_is_rejected() {
    let mut xp = Crosspoint::new();
    xp.register_source("srt-cam".to_string()); // the output's untouched initial route
    xp.register_source("ndi-cam".to_string());
    xp.register_output("srt-out".to_string(), "srt-cam".to_string());
    let kind_of = |id: &str| {
        if id == "ndi-cam" {
            Some(TransportKind::Ndi)
        } else {
            Some(TransportKind::Srt)
        }
    };
    let res = route_with_kinds(&mut xp, kind_of("srt-out"), kind_of("ndi-cam"), "srt-out", "ndi-cam");
    assert!(!res.ok, "cross-kind route should be rejected");
    assert!(res.error.unwrap().contains("ndi"));
    // Rejected before ever reaching Crosspoint::route, so the output's route
    // must still be exactly what it started as.
    assert_eq!(xp.routes(), vec![("srt-out".to_string(), "srt-cam".to_string())]);
}

#[test]
fn unknown_kind_falls_back_to_allowing() {
    // No lookup at all must behave exactly as plain routing.
    let mut xp = Crosspoint::new();
    xp.register_source("cam1".to_string());
    xp.register_output("program".to_string(), "cam1".to_string());
    let res = post_route(&mut xp, None, &req("program", "cam1"));
    assert!(res.ok);
}

#[test]
fn registry_kinds_refuse_a_cross_payload_route() {
    let mut xp = Crosspoint::new();
    let mut reg = Registry::new();
    xp.register_source("cam".to_string());
    xp.register_source("ndi".to_string());
    xp.register_output("out".to_string(), "cam".to_string());
    reg.insert_source("cam".to_string(), TransportKind::Srt, CancellationToken::new());
    reg.insert_source("ndi".to_string(), TransportKind::Ndi, CancellationToken::new());
    reg.insert_output("out".to_string(), TransportKind::Srt, CancellationToken::new());
    let res = post_route(&mut xp, Some(&reg), &req("out", "ndi"));
    assert!(!res.ok);
    assert_eq!(
        res.error.as_deref(),
        Some("can't route a ndi source to a srt output without transcoding")
    );
    assert_eq!(xp.routes(), vec![("out".to_string(), "cam".to_string())]);
}

#[test]
fn media_sources_feed_srt_outputs() {
    let mut xp = Crosspoint::new();
    xp.register_source("slate".to_string());
    xp.register_source("cam".to_string());
    xp.register_output("out".to_string(), "cam".to_string());
    let res = route_with_kinds(&mut xp, Some(TransportKind::Srt), Some(TransportKind::Media), "out", "slate");
    assert!(res.ok);
    assert_eq!(xp.routes(), vec![("out".to_string(), "slate".to_string())]);
}

#[test]
fn unknown_ids_are_reported_not_ok_without_an_error() {
    let mut xp = Crosspoint::new();
    xp.register_source("a".to_string());
    let res = post_route(&mut xp, None, &req("nope", "a"));
    assert!(!res.ok);
    assert!(res.error.is_none());
}

#[test]
fn snapshot_shows_the_whole_state() {
    let mut xp = Crosspoint::new();
    xp.register_source("cam1".to_string());
    xp.register_source("cam2".to_string());
    xp.register_output("program".to_string(), "cam1".to_string());
    let s = snapshot(&xp);
    let mut sources = s.sources.clone();
    sources.sort();
    assert_eq!(sources, vec!["cam1".to_string(), "cam2".to_string()]);
    assert_eq!(s.outputs, vec!["program".to_string()]);
    assert_eq!(s.routes, vec![("program".to_string(), "cam1".to_string())]);
}
