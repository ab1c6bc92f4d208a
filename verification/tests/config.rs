use vinput_ws_asr::config::{debug_enabled, endpoint_url, model_name};

fn set(v: &str) -> Option<String> {
    Some(v.to_string())
}

#[test]
fn preferred_name_wins() {
    assert_eq!(endpoint_url(set("ws://a"), set("ws://b")), "ws://a");
    assert_eq!(model_name(set("a"), set("b")), "a");
}

#[test]
fn fallback_name_is_used() {
    assert_eq!(endpoint_url(None, set("ws://b")), "ws://b");
    assert_eq!(model_name(None, set("b")), "b");
}

#[test]
fn defaults_apply_when_nothing_is_set() {
    assert_eq!(endpoint_url(None, None), "ws://192.168.102.10:7000/v1/realtime");
    assert_eq!(model_name(None, None), "qwen3-asr");
}

#[test]
fn an_empty_value_is_a_value() {
    assert_eq!(model_name(set(""), set("b")), "");
}

#[test]
fn debug_is_on_for_one_and_true() {
    assert!(debug_enabled(set("1"), None));
    assert!(debug_enabled(set("true"), None));
    assert!(debug_enabled(None, set("1")));
    assert!(debug_enabled(None, set("true")));
    assert!(!debug_enabled(set("0"), set("1")));
    assert!(!debug_enabled(set("yes"), None));
    assert!(!debug_enabled(None, None));
}
