use comm::notifier::{
    notification_body, notification_status, notification_username, publish_command_args,
    NtfyConfig, DEFAULT_NTFY_SERVER,
};

#[test]
fn ntfy_config_uses_default_server() {
    let config = NtfyConfig::from_values("https://ntfy.sh", "comm-secret-topic").unwrap();

    assert_eq!(config.url, "https://ntfy.sh/comm-secret-topic");
}

#[test]
fn ntfy_config_trims_server_and_topic() {
    let config =
        NtfyConfig::from_values("https://ntfy.example.test/", "/comm-secret-topic/").unwrap();

    assert_eq!(config.url, "https://ntfy.example.test/comm-secret-topic");
}

#[test]
fn ntfy_config_rejects_empty_topic() {
    assert!(NtfyConfig::from_values("https://ntfy.sh", " ").is_none());
}

#[test]
fn ntfy_config_rejects_topic_that_looks_like_url() {
    assert!(NtfyConfig::from_values("https://ntfy.sh", "https://example.test/topic").is_none());
}

#[test]
fn notification_username_maps_numbered_users() {
    assert_eq!(notification_username("u1"), "m1");
    assert_eq!(notification_username("u2"), "m2");
}

#[test]
fn notification_username_keeps_other_usernames() {
    assert_eq!(notification_username("alice"), "alice");
    assert_eq!(notification_username("u"), "u");
}

#[test]
fn notification_status_maps_in_out_to_up_down() {
    assert_eq!(notification_status("online"), "up");
    assert_eq!(notification_status("offline"), "down");
    assert_eq!(notification_status("in"), "up");
    assert_eq!(notification_status("out"), "down");
}

#[test]
fn ntfy_settings_fall_back_to_default_server() {
    assert!(NtfyConfig::from_settings(None, Some("https://ntfy.example.test")).is_none());
    let config = NtfyConfig::from_settings(Some("topic"), None).unwrap();
    assert_eq!(config.url, format!("{DEFAULT_NTFY_SERVER}/topic"));
    let custom = NtfyConfig::from_settings(Some("topic"), Some(" https://n.test// ")).unwrap();
    assert_eq!(custom.url, "https://n.test/topic");
    assert!(NtfyConfig::from_settings(Some("topic"), Some(" / ")).is_none());
}

#[test]
fn notification_body_and_edge_names() {
    assert_eq!(notification_body("u12", "online"), "m12 up");
    assert_eq!(notification_body("alice", "offline"), "alice down");
    assert_eq!(notification_username("u1a"), "u1a");
    assert_eq!(notification_username("U1"), "U1");
    assert_eq!(notification_status("away"), "away");
}

#[test]
fn publish_arguments() {
    assert_eq!(
        publish_command_args("https://ntfy.sh/t", "m1 up"),
        vec![
            "--silent",
            "--show-error",
            "--fail",
            "--max-time",
            "5",
            "--data-binary",
            "m1 up",
            "-H",
            "Tags: bust_in_silhouette",
            "https://ntfy.sh/t",
        ]
    );
}
