use isekai::discord::{
    build_discord_activity, clamp_discord_field, resolve_discord_client_id,
    DiscordRpcButtonPayload, DiscordRpcPresencePayload, MAX_DISCORD_FIELD_LENGTH,
};

fn payload(buttons: usize, start: Option<i64>, end: Option<i64>) -> DiscordRpcPresencePayload {
    DiscordRpcPresencePayload {
        details: "d".to_string(),
        state: "s".to_string(),
        large_image_key: "lk".to_string(),
        large_image_text: "lt".to_string(),
        small_image_key: "sk".to_string(),
        small_image_text: "st".to_string(),
        start_timestamp: start,
        end_timestamp: end,
        buttons: (0..buttons)
            .map(|i| DiscordRpcButtonPayload { label: format!("b{i}"), url: format!("u{i}") })
            .collect(),
    }
}

#[test]
fn clamp_keeps_short_fields() {
    assert_eq!(clamp_discord_field("Playing Sky"), "Playing Sky");
    assert_eq!(clamp_discord_field(""), "");
    let exact = "x".repeat(128);
    assert_eq!(clamp_discord_field(&exact), exact);
}

#[test]
fn clamp_cuts_long_fields_to_the_limit() {
    let long = "y".repeat(200);
    let r = clamp_discord_field(&long);
    assert_eq!(r, format!("{}...", "y".repeat(125)));
    assert_eq!(r.len(), MAX_DISCORD_FIELD_LENGTH);
    let just_over = "z".repeat(129);
    assert_eq!(clamp_discord_field(&just_over).len(), 128);
}

#[test]
fn clamp_counts_bytes_not_chars() {
    // 64 two-byte characters are 128 bytes: they fit.
    let fits = "é".repeat(64);
    assert_eq!(clamp_discord_field(&fits), fits);
    // One ASCII letter then two-byte characters: byte 125 starts a character.
    let long = format!("a{}", "é".repeat(100));
    let r = clamp_discord_field(&long);
    assert_eq!(r, format!("a{}...", "é".repeat(62)));
    assert_eq!(r.len(), 128);
}

#[test]
fn client_id_prefers_override_and_trims() {
    assert_eq!(resolve_discord_client_id("  123  ", Some("456")), Some("123".to_string()));
    assert_eq!(resolve_discord_client_id("   ", Some(" 456 ")), Some("456".to_string()));
    assert_eq!(resolve_discord_client_id("", Some("  ")), None);
    assert_eq!(resolve_discord_client_id("", None), None);
}

#[test]
fn activity_without_timestamps_or_buttons() {
    let a = build_discord_activity(&payload(0, None, None));
    assert_eq!(a.details, "d");
    assert_eq!(a.state, "s");
    assert_eq!(a.large_image, "lk");
    assert_eq!(a.large_text, "lt");
    assert_eq!(a.small_image, "sk");
    assert_eq!(a.small_text, "st");
    assert!(a.timestamps.is_none());
    assert!(a.buttons.is_none());
}

#[test]
fn activity_keeps_at_most_two_buttons() {
    let a = build_discord_activity(&payload(3, Some(10), None));
    let t = a.timestamps.unwrap();
    assert_eq!(t.start, Some(10));
    assert_eq!(t.end, None);
    let b = a.buttons.unwrap();
    assert_eq!(b.len(), 2);
    assert_eq!(b[0].label, "b0");
    assert_eq!(b[1].url, "u1");
    let one = build_discord_activity(&payload(1, None, Some(5))).buttons.unwrap();
    assert_eq!(one.len(), 1);
}
