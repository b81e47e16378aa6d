use hier::clock::next_event_time;
use hier::host::{
    field, host_transform_flipped, host_workspace, json_answer, output_transform_flipped, workspace_output, Json,
};
use hier::keys::DepthSwitcher;
use hier::layout::TilingMode;

fn doc(text: &str) -> Option<Json> {
    json_answer(Some(text.as_bytes()))
}

const WINDOWS: &str = r#"[
    {"id": 1, "title": "Terminal", "pid": 100, "workspace_id": 3},
    {"id": 2, "title": "hier", "pid": 4242, "workspace_id": 7},
    {"id": 3, "title": "Smithay", "pid": 5, "workspace_id": 9}
]"#;

const WORKSPACES: &str = r#"[
    {"id": 3, "output": "DP-1"},
    {"id": 7, "output": "eDP-1"},
    {"id": 9, "output": "HDMI-A-1"}
]"#;

const OUTPUTS: &str = r#"{
    "eDP-1": {"name": "eDP-1", "logical": {"x": 0, "y": 0, "transform": "180"}},
    "DP-1": {"name": "DP-1", "logical": {"x": 0, "y": 0, "transform": "Normal"}}
}"#;

#[test]
fn json_answer_reads_documents() {
    match doc(r#"{"a": [1, "x", null, true, -3, 2.5, 18446744073709551615]}"#) {
        Some(Json::Object(members)) => {
            assert_eq!(members.len(), 1);
            assert_eq!(members[0].0, "a");
            match &members[0].1 {
                Json::Array(items) => {
                    assert_eq!(items.len(), 7);
                    assert!(matches!(items[0], Json::Number(Some(1))));
                    assert!(matches!(&items[1], Json::Str(s) if s == "x"));
                    assert!(matches!(items[2], Json::Null));
                    assert!(matches!(items[3], Json::Bool(true)));
                    assert!(matches!(items[4], Json::Number(Some(-3))));
                    assert!(matches!(items[5], Json::Number(None)));
                    assert!(matches!(items[6], Json::Number(None)));
                }
                _ => panic!("expected an array"),
            }
        }
        _ => panic!("expected an object"),
    }
}

#[test]
fn json_answer_without_document() {
    assert!(json_answer(None).is_none());
    assert!(doc("").is_none());
    assert!(doc("not json").is_none());
    assert!(doc("[1, 2").is_none());
}

#[test]
fn field_finds_members_of_objects_only() {
    let o = doc(r#"{"k": 5}"#).unwrap();
    assert!(matches!(field(&o, "k"), Some(Json::Number(Some(5)))));
    assert!(field(&o, "missing").is_none());
    let a = doc("[5]").unwrap();
    assert!(field(&a, "k").is_none());
}

#[test]
fn host_workspace_by_pid_or_title() {
    let windows = doc(WINDOWS);
    assert_eq!(host_workspace(4242, &windows), Some(7));
    assert_eq!(host_workspace(1, &windows), Some(9));
    assert_eq!(host_workspace(100, &windows), Some(3));
    assert_eq!(host_workspace(1, &doc("[]")), None);
    assert_eq!(host_workspace(1, &doc("{}")), None);
    assert_eq!(host_workspace(1, &None), None);
    assert_eq!(host_workspace(4242, &doc(r#"[{"pid": 4242}]"#)), None);
}

#[test]
fn workspace_output_by_id() {
    let workspaces = doc(WORKSPACES);
    assert_eq!(workspace_output(7, &workspaces), Some("eDP-1".to_string()));
    assert_eq!(workspace_output(3, &workspaces), Some("DP-1".to_string()));
    assert_eq!(workspace_output(4, &workspaces), None);
    assert_eq!(workspace_output(7, &doc(r#"[{"id": 7, "output": 1}]"#)), None);
}

#[test]
fn output_transform_reads_logical_transform() {
    let outputs = doc(OUTPUTS);
    assert!(!output_transform_flipped("eDP-1", &outputs));
    assert!(output_transform_flipped("DP-1", &outputs));
    assert!(output_transform_flipped("HDMI-A-1", &outputs));
    assert!(output_transform_flipped("eDP-1", &None));
}

#[test]
fn host_transform_from_environment() {
    assert!(!host_transform_flipped(Some("180"), 1, None, None, None));
    assert!(!host_transform_flipped(Some("Flipped180"), 1, None, None, None));
    assert!(host_transform_flipped(Some("Normal"), 1, None, None, None));
    assert!(host_transform_flipped(Some(""), 1, doc(WINDOWS), doc(WORKSPACES), doc(OUTPUTS)));
}

#[test]
fn host_transform_from_niri_answers() {
    assert!(!host_transform_flipped(None, 4242, doc(WINDOWS), doc(WORKSPACES), doc(OUTPUTS)));
    assert!(host_transform_flipped(None, 100, doc(WINDOWS), doc(WORKSPACES), doc(OUTPUTS)));
    assert!(host_transform_flipped(None, 1, doc(WINDOWS), doc(WORKSPACES), doc(OUTPUTS)));
    assert!(host_transform_flipped(None, 4242, None, doc(WORKSPACES), doc(OUTPUTS)));
    assert!(host_transform_flipped(None, 4242, doc(WINDOWS), None, doc(OUTPUTS)));
    assert!(host_transform_flipped(None, 4242, doc(WINDOWS), doc(WORKSPACES), None));
}

#[test]
fn device_events_move_the_clock_forward_only() {
    assert_eq!(next_event_time(100, Some(250)), 250);
    assert_eq!(next_event_time(300, Some(250)), 300);
    assert_eq!(next_event_time(300, Some(300)), 300);
}

#[test]
fn injected_events_follow_device_events() {
    let t = next_event_time(0, Some(5000));
    assert_eq!(t, 5000);
    let injected = next_event_time(t, None);
    assert_eq!(injected, 5010);
    assert!(injected > 5000);
    assert_eq!(next_event_time(injected, Some(10)), 5010);
}

#[test]
fn depth_switcher_remembers_the_mode_it_replaced() {
    let mut s = DepthSwitcher::new();
    assert!(!s.active);
    assert_eq!(s.open(TilingMode::Diagonal), (TilingMode::Depth, true));
    assert!(s.active);
    assert_eq!(s.open(TilingMode::Depth), (TilingMode::Depth, false));
    assert_eq!(s.close(), TilingMode::Diagonal);
    assert!(!s.active);
    assert!(s.previous_mode.is_none());
}

#[test]
fn depth_switcher_closed_twice_falls_back_to_grid() {
    let mut s = DepthSwitcher::new();
    assert_eq!(s.close(), TilingMode::Grid);
    s.open(TilingMode::Float);
    assert_eq!(s.close(), TilingMode::Float);
    assert_eq!(s.close(), TilingMode::Grid);
}
