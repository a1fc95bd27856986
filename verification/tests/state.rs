use srt_router::launcher::resolve_program;
use srt_router::state::{persisted_routes, routes_text};

#[test]
fn written_routes_read_back_as_the_same_table() {
    let table = vec![("out1".to_string(), "cam \"a\"".to_string()), ("out2".to_string(), "cam2".to_string())];
    let text = routes_text(&table).unwrap();
    let (mut back, refused) = persisted_routes(Some(&text));
    assert!(!refused);
    back.sort();
    assert_eq!(back, table);
}

#[test]
fn a_missing_or_corrupt_state_file_is_nothing_persisted() {
    assert_eq!(persisted_routes(None), (Vec::new(), false));
    assert_eq!(persisted_routes(Some("{not json")), (Vec::new(), true));
    assert_eq!(persisted_routes(Some("{\"out1\": 3}")), (Vec::new(), true));
    assert_eq!(persisted_routes(Some("{}")), (Vec::new(), false));
}

#[test]
fn the_program_is_filled_and_resolved_against_the_bundle() {
    assert_eq!(resolve_program("{resource}/node", Some("/opt/app"), false), "/opt/app/node");
    assert_eq!(resolve_program("flock", Some("/opt/app"), false), "/opt/app/flock");
    assert_eq!(resolve_program("flock", None, false), "flock");
}
