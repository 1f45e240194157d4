//! The live sync channel and the change tracker.

use bevity::sync::UnityChangeMap;
use bevity::{handle_editor_line, parse_editor_line, InboundAction};

#[test]
fn frame_parse_reads_kind_and_payload() {
    let (kind, payload) = parse_editor_line("EDITOR_CHANGE|0|[]").unwrap();
    assert_eq!(kind, 0);
    assert_eq!(payload, "[]");
}

#[test]
fn frame_without_marker_is_discarded() {
    assert!(parse_editor_line("random text").is_none());
    assert!(parse_editor_line("EDITOR_CHANGE|x|[]").is_none());
    assert!(parse_editor_line("EDITOR_CHANGE|2").is_none());
}

#[test]
fn inbound_transform_update_is_decided() {
    let object_map = vec![(5i64, 0usize)];
    let line = "EDITOR_CHANGE|0|[{\"object_id\":5,\"serialized\":\"{\\\"Transform\\\":{}}\"}]";
    let (actions, diags) = handle_editor_line(line, &object_map);
    assert_eq!(actions.len(), 1);
    assert_eq!(diags.len(), 0);
    match &actions[0] {
        InboundAction::UpdateTransform { entity, serialized } => {
            assert_eq!(*entity, 0);
            assert_eq!(serialized, "{\"Transform\":{}}");
        },
        _ => panic!("expected a transform update"),
    }
}

#[test]
fn unknown_id_drops_only_that_entry() {
    let object_map = vec![(5i64, 0usize), (6i64, 1usize)];
    let line = "EDITOR_CHANGE|0|[{\"object_id\":99,\"serialized\":\"{\\\"Transform\\\":{}}\"},{\"object_id\":6,\"serialized\":\"{\\\"Transform\\\":{}}\"}]";
    let (actions, diags) = handle_editor_line(line, &object_map);
    assert_eq!(actions.len(), 1);
    assert_eq!(diags.len(), 1);
    assert_eq!(diags[0], "got an unknown object_id: 99");
    match &actions[0] {
        InboundAction::UpdateTransform { entity, .. } => assert_eq!(*entity, 1),
        _ => panic!("expected a transform update"),
    }
}

#[test]
fn non_zero_kinds_decide_nothing() {
    let object_map = vec![(5i64, 0usize)];
    let (actions, diags) = handle_editor_line("EDITOR_CHANGE|1|[{\"object_id\":5}]", &object_map);
    assert_eq!(actions.len(), 0);
    assert_eq!(diags.len(), 0);
}

#[test]
fn malformed_payload_is_reported() {
    let object_map = vec![(5i64, 0usize)];
    let (actions, diags) = handle_editor_line("EDITOR_CHANGE|0|nonsense", &object_map);
    assert_eq!(actions.len(), 0);
    assert_eq!(diags, vec!["failed to parse change list".to_string()]);
}

#[test]
fn behavior_updates_route_by_variant_key() {
    let object_map = vec![(7i64, 3usize)];
    let line =
        "EDITOR_CHANGE|0|[{\"object_id\":7,\"serialized\":\"{\\\"MonoBehaviour\\\":{}}\"}]";
    let (actions, _) = handle_editor_line(line, &object_map);
    assert!(matches!(actions[0], InboundAction::UpdateBehavior { entity: 3, .. }));
}

#[test]
fn unchanged_value_buffers_no_new_change() {
    let mut map = UnityChangeMap::new();
    map.track_change(7, "v1".to_string(), false);
    assert_eq!(map.changes.len(), 1);
    map.clear_changes();
    assert_eq!(map.changes.len(), 0);
    // same value next tick: nothing new goes out
    map.track_change(7, "v1".to_string(), false);
    assert_eq!(map.changes.len(), 0);
    assert_eq!(map.send_changes().len(), 0);
    // a different value does
    map.track_change(7, "v2".to_string(), false);
    assert_eq!(map.changes.len(), 1);
}

#[test]
fn last_write_wins_within_a_tick() {
    let mut map = UnityChangeMap::new();
    map.track_change(7, "v1".to_string(), false);
    map.track_change(7, "v2".to_string(), false);
    assert_eq!(map.changes.len(), 1);
    assert_eq!(map.changes[0], (7, "v2".to_string()));
}

#[test]
fn dirty_components_are_acknowledged_not_resent() {
    let mut map = UnityChangeMap::new();
    map.track_change(7, "v1".to_string(), true);
    assert_eq!(map.changes.len(), 0);
    assert_eq!(map.dirty, vec![7]);
    let lines = map.send_changes();
    assert_eq!(lines, vec!["EDITOR_CHANGE|1|[{\"object_id\":7}]".to_string()]);
}

#[test]
fn outbound_change_line_is_exact() {
    let mut map = UnityChangeMap::new();
    map.track_change(7, "{\"Transform\":{}}".to_string(), false);
    let lines = map.send_changes();
    assert_eq!(
        lines,
        vec![
            "EDITOR_CHANGE|0|[{\"object_id\":7,\"serialized\":\"{\\\"Transform\\\":{}}\"}]"
                .to_string()
        ]
    );
}

#[test]
fn acks_precede_changes_and_buffers_clear() {
    let mut map = UnityChangeMap::new();
    map.track_change(1, "a".to_string(), true);
    map.track_change(2, "b".to_string(), false);
    let lines = map.send_changes();
    assert_eq!(lines.len(), 2);
    assert_eq!(lines[0], "EDITOR_CHANGE|1|[{\"object_id\":1}]");
    assert_eq!(lines[1], "EDITOR_CHANGE|0|[{\"object_id\":2,\"serialized\":\"b\"}]");
    map.clear_changes();
    assert_eq!(map.send_changes().len(), 0);
}

#[test]
fn control_characters_escape_to_hex_forms() {
    let mut map = UnityChangeMap::new();
    map.track_change(1, "a\u{1}b\u{8}c\u{c}d\u{1f}e".to_string(), false);
    let lines = map.send_changes();
    assert_eq!(
        lines,
        vec![
            "EDITOR_CHANGE|0|[{\"object_id\":1,\"serialized\":\"a\\u0001b\\bc\\fd\\u001fe\"}]"
                .to_string()
        ]
    );
}
