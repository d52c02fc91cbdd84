use screenblocker::meeting::{capture_running, meeting_state, parse_pw_dump, text_eq, PwNode};

fn node(class: &str, state: &str) -> PwNode {
    PwNode { media_class: class.to_string(), state: state.to_string() }
}

#[test]
fn manual_override_wins() {
    assert!(meeting_state(Some(true), false, || false));
    assert!(!meeting_state(Some(false), true, || true));
}

#[test]
fn auto_detect_off_is_never_a_meeting() {
    assert!(!meeting_state(None, false, || true));
}

#[test]
fn auto_detect_follows_the_capture_probe() {
    assert!(meeting_state(None, true, || true));
    assert!(!meeting_state(None, true, || false));
}

#[test]
fn override_does_not_run_the_probe() {
    let probe = || -> bool { panic!("probe must not run") };
    assert!(meeting_state(Some(true), true, probe));
}

#[test]
fn running_mic_or_camera_capture_is_a_meeting() {
    assert!(capture_running(&vec![node("Stream/Input/Audio", "running")]));
    assert!(capture_running(&vec![node("Stream/Input/Video", "running")]));
}

#[test]
fn output_and_monitor_streams_are_not_a_meeting() {
    let nodes = vec![node("Stream/Output/Audio", "running"), node("Audio/Source", "idle")];
    assert!(!capture_running(&nodes));
}

#[test]
fn idle_capture_stream_is_not_a_meeting() {
    assert!(!capture_running(&vec![node("Stream/Input/Audio", "suspended")]));
    assert!(!capture_running(&vec![node("Stream/Input/Audio", "")]));
    assert!(!capture_running(&vec![]));
}

#[test]
fn any_running_capture_among_many_counts() {
    let nodes = vec![
        node("Stream/Output/Audio", "running"),
        node("Stream/Input/Video", "idle"),
        node("", ""),
        node("Stream/Input/Audio", "running"),
    ];
    assert!(capture_running(&nodes));
}

#[test]
fn text_equality_is_exact() {
    assert!(text_eq("running", "running"));
    assert!(!text_eq("running", "runnin"));
    assert!(!text_eq("Running", "running"));
    assert!(text_eq("", ""));
}

#[test]
fn detects_running_mic_capture() {
    let json = r#"[
        {"info":{"state":"running","props":{"media.class":"Stream/Input/Audio","application.name":"zoom"}}}
    ]"#;
    assert!(parse_pw_dump(json));
}

#[test]
fn detects_running_camera_capture() {
    let json = r#"[
        {"info":{"state":"running","props":{"media.class":"Stream/Input/Video"}}}
    ]"#;
    assert!(parse_pw_dump(json));
}

#[test]
fn ignores_output_and_monitor_streams() {
    let json = r#"[
        {"info":{"state":"running","props":{"media.class":"Stream/Output/Audio","application.name":"spotify"}}},
        {"info":{"state":"idle","props":{"media.class":"Audio/Source"}}}
    ]"#;
    assert!(!parse_pw_dump(json));
}

#[test]
fn ignores_idle_capture_stream() {
    let json = r#"[
        {"info":{"state":"suspended","props":{"media.class":"Stream/Input/Audio"}}}
    ]"#;
    assert!(!parse_pw_dump(json));
}

#[test]
fn malformed_json_is_not_a_meeting() {
    assert!(!parse_pw_dump("not json"));
    assert!(!parse_pw_dump("{}"));
}

#[test]
fn nodes_without_info_or_state_are_read_as_empty() {
    assert!(!parse_pw_dump(r#"[{"id":1},{"info":{"props":{"media.class":"Stream/Input/Audio"}}}]"#));
    assert!(parse_pw_dump(r#"[{"id":1},{"info":{"state":"running","props":{"media.class":"Stream/Input/Audio"}}}]"#));
    assert!(!parse_pw_dump("[]"));
}
