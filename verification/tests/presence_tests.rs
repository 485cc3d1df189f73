use isekai::planner::{
    candle_group_key, candle_run_guid, candle_run_presence, candle_run_sums_fit, count_candle_group_wax_value,
    route_presence, AreaInfo, CandleGroupInfo, CandleRunInfo, CompletedGroup, RouteTargetInfo,
};
use isekai::presence::{
    build_discord_rpc_presence, consults_candle_run, event_presence, presence_is_shown, goals_presence, overlay_presence,
    presence_for_event, presence_source_for_mode, preset_presence, select_presence_source,
    timestamp_seconds, DiscordRpcBuildPayload, EventInfo, GoalInfo, PlannerInfo,
    PresenceSettings, PresenceSource, ISEKAI_DISCORD_URL, SKY_DISCORD_URL,
};

fn s(v: &str) -> Option<String> {
    Some(v.to_string())
}

fn settings(mode: Option<String>) -> PresenceSettings {
    PresenceSettings {
        enabled: Some(true),
        require_sky_detection: None,
        show_buttons: None,
        mode,
        safe_preset: None,
        overlay_mode: None,
    }
}

fn event(status: &str, title: Option<String>) -> EventInfo {
    EventInfo {
        status: s(status),
        starts_at_utc: s("2024-05-01T10:00:00Z"),
        ends_at_utc: s("2024-05-01T10:30:00+02:00"),
        location: s("Prairie"),
        phase_label: s("Phase 2"),
        title,
    }
}

fn empty_planner() -> PlannerInfo {
    PlannerInfo { candle_run: None, route: None, goals: None }
}

fn source(d: &str, st: &str) -> PresenceSource {
    PresenceSource { details: d.to_string(), state: st.to_string(), end_timestamp: None }
}

fn goal(status: Option<&str>, due: Option<&str>) -> GoalInfo {
    GoalInfo { status: status.map(str::to_string), due_date: due.map(str::to_string) }
}

#[test]
fn presets() {
    let p = preset_presence("farmingWax");
    assert_eq!((p.details.as_str(), p.state.as_str()), ("Planning candle run", "Playing Sky with Isekai"));
    let p = preset_presence("trackingGoals");
    assert_eq!((p.details.as_str(), p.state.as_str()), ("Tracking Sky goals", "Using Isekai for Sky"));
    let p = preset_presence("watchingTimers");
    assert_eq!((p.details.as_str(), p.state.as_str()), ("Watching Sky timers", "Using Isekai for Sky"));
    let p = preset_presence("planning");
    assert_eq!((p.details.as_str(), p.state.as_str()), ("Planning a Sky session", "Using Isekai for Sky"));
    assert_eq!(p.end_timestamp, None);
}

#[test]
fn overlay_modes() {
    assert!(overlay_presence(&None).is_none());
    let p = overlay_presence(&s("mini-map")).unwrap();
    assert_eq!(p.details, "Using Isekai overlay");
    assert_eq!(p.state, "mini map mode for Sky");
    assert_eq!(overlay_presence(&s("clock-route")).unwrap().state, "clock + route mode for Sky");
    assert_eq!(overlay_presence(&s("route")).unwrap().state, "route mode for Sky");
    assert_eq!(overlay_presence(&s("weird")).unwrap().state, "clock mode for Sky");
}

#[test]
fn goals_count_open_and_pick_earliest_due() {
    assert!(goals_presence(&None).is_none());
    assert!(goals_presence(&Some(vec![goal(Some("done"), Some("2020-01-01"))])).is_none());
    let gs = vec![
        goal(Some("open"), Some("2024-06-01")),
        goal(Some("done"), Some("2000-01-01")),
        goal(None, Some("2024-05-15")),
        goal(Some("open"), None),
    ];
    let p = goals_presence(&Some(gs)).unwrap();
    assert_eq!(p.details, "Tracking Sky goals");
    assert_eq!(p.state, "3 open goals, next due 2024-05-15");
    let p = goals_presence(&Some(vec![goal(None, None), goal(Some("x"), None)])).unwrap();
    assert_eq!(p.state, "2 open goals with Isekai");
}

#[test]
fn law_next_due_is_earliest_example() {
    let gs = vec![goal(None, Some("b")), goal(None, Some("ab")), goal(None, Some("a"))];
    assert_eq!(goals_presence(&Some(gs)).unwrap().state, "3 open goals, next due a");
}

#[test]
fn timestamps_parse_rfc3339() {
    assert_eq!(timestamp_seconds(&s("1970-01-01T00:00:10Z")), Some(10));
    assert_eq!(timestamp_seconds(&s("2024-05-01T10:30:00+02:00")), Some(1714552200));
    assert_eq!(timestamp_seconds(&s("tomorrow")), None);
    assert_eq!(timestamp_seconds(&None), None);
}

#[test]
fn event_presence_for_given_timestamp() {
    let e = event("active", s("Geyser"));
    let p = presence_for_event(&e, Some(99));
    assert_eq!(p.details, "Tracking Geyser");
    assert_eq!(p.state, "Prairie - Phase 2");
    assert_eq!(p.end_timestamp, Some(99));
    let mut e2 = event("upcoming", None);
    e2.location = None;
    e2.phase_label = None;
    let p = presence_for_event(&e2, None);
    assert_eq!(p.details, "Waiting for Sky event");
    assert_eq!(p.state, "Playing Sky with Isekai");
    let mut e3 = event("preparing", s("Grandma"));
    e3.location = s("");
    e3.phase_label = s("Dinner");
    assert_eq!(presence_for_event(&e3, None).state, " - Dinner");
    e3.phase_label = None;
    assert_eq!(presence_for_event(&e3, None).state, "Playing Sky with Isekai");
}

#[test]
fn event_presence_picks_first_followed_event() {
    let events = vec![event("ended", s("Old")), event("upcoming", s("Geyser")), event("active", s("Later"))];
    let p = event_presence(&events).unwrap();
    assert_eq!(p.details, "Waiting for Geyser");
    assert_eq!(p.end_timestamp, Some(1714557600));
    let p = event_presence(&[event("endingSoon", s("Turtle"))]).unwrap();
    assert_eq!(p.details, "Tracking Turtle");
    assert_eq!(p.end_timestamp, Some(1714552200));
    assert!(event_presence(&[event("ended", None)]).is_none());
}

#[test]
fn candle_keys_and_wax() {
    assert_eq!(candle_group_key("run-1", "Forest", 12), "run-1:12:Forest");
    assert_eq!(candle_group_key("", "", 0), ":0:");
    let g = CandleGroupInfo { name: s("g"), candles: Some(vec![Some(3), None, Some(-1), Some(10)]) };
    assert_eq!(count_candle_group_wax_value(&g), 12);
    assert_eq!(count_candle_group_wax_value(&CandleGroupInfo { name: None, candles: None }), 0);
}

#[test]
fn candle_run_guid_prefers_active() {
    assert_eq!(candle_run_guid(&s("a"), &s("b")), s("a"));
    assert_eq!(candle_run_guid(&None, &s("b")), s("b"));
    assert_eq!(candle_run_guid(&None, &None), None);
}

#[test]
fn candle_run_progress() {
    let run = CandleRunInfo {
        name: s("Daily"),
        groups: Some(vec![
            CandleGroupInfo { name: s("A"), candles: Some(vec![Some(5), Some(5)]) },
            CandleGroupInfo { name: None, candles: Some(vec![Some(3)]) },
            CandleGroupInfo { name: s("C"), candles: Some(vec![Some(-20)]) },
        ]),
    };
    let done = vec![
        CompletedGroup { key: "r:0:A".to_string(), done: Some(true) },
        CompletedGroup { key: "r:1:".to_string(), done: Some(false) },
        CompletedGroup { key: "r:2:C".to_string(), done: Some(true) },
        CompletedGroup { key: "r:2:C".to_string(), done: Some(false) },
    ];
    let p = candle_run_presence("r", &Some(run), &done).unwrap();
    assert_eq!(p.details, "Candle run: Daily");
    assert_eq!(p.state, "2/3 groups, -10/-7 wax");
    assert!(candle_run_presence("r", &None, &done).is_none());
    let no_groups = CandleRunInfo { name: None, groups: None };
    assert!(candle_run_presence("r", &Some(no_groups), &done).is_none());
    let unnamed = CandleRunInfo { name: None, groups: Some(vec![]) };
    let p = candle_run_presence("r", &Some(unnamed), &[]).unwrap();
    assert_eq!(p.details, "Candle run: Sky route");
    assert_eq!(p.state, "0/0 groups, 0/0 wax");
}

#[test]
fn route_progress() {
    let t = RouteTargetInfo { completed_count: Some(3), total: Some(8) };
    let a = AreaInfo { realm_name: s("Isle"), name: s("Gate") };
    let p = route_presence(&Some(t), &Some(a)).unwrap();
    assert_eq!(p.details, "Route: Isle - Gate");
    assert_eq!(p.state, "3/8 targets complete");
    let t = RouteTargetInfo { completed_count: None, total: None };
    let a = AreaInfo { realm_name: s(""), name: None };
    let p = route_presence(&Some(t), &Some(a)).unwrap();
    assert_eq!(p.details, "Route: Sky route");
    assert_eq!(p.state, "0/0 targets complete");
    assert!(route_presence(&None, &Some(AreaInfo { realm_name: None, name: None })).is_none());
    assert!(route_presence(&Some(RouteTargetInfo { completed_count: None, total: None }), &None).is_none());
}

#[test]
fn mode_sources() {
    let st = settings(None);
    let planner = PlannerInfo { candle_run: Some(source("c", "cs")), route: None, goals: None };
    assert_eq!(presence_source_for_mode("candleRun", &st, &[], &planner).unwrap().details, "c");
    assert!(presence_source_for_mode("route", &st, &[], &planner).is_none());
    assert!(presence_source_for_mode("nonsense", &st, &[], &planner).is_none());
    assert!(presence_source_for_mode("events", &st, &[], &planner).is_none());
}

#[test]
fn law_mode_picks_its_source_example() {
    let mut st = settings(s("overlay"));
    st.safe_preset = s("farmingWax");
    let planner = PlannerInfo { candle_run: Some(source("c", "cs")), route: None, goals: None };
    // Overlay has nothing to show: the safe preset wins over the candle run.
    assert_eq!(select_presence_source(&st, &[], &planner).details, "Planning candle run");
    st.overlay_mode = s("clock");
    assert_eq!(select_presence_source(&st, &[], &planner).details, "Using Isekai overlay");
}

#[test]
fn law_auto_prefers_events_example() {
    let st = settings(None);
    let planner = PlannerInfo {
        candle_run: Some(source("c", "cs")),
        route: Some(source("r", "rs")),
        goals: Some(vec![goal(None, None)]),
    };
    let events = vec![event("active", s("Geyser"))];
    assert_eq!(select_presence_source(&st, &events, &planner).details, "Tracking Geyser");
    assert_eq!(select_presence_source(&st, &[], &planner).details, "c");
    let planner2 = PlannerInfo { candle_run: None, route: Some(source("r", "rs")), goals: None };
    assert_eq!(select_presence_source(&st, &[], &planner2).details, "r");
    let planner3 = PlannerInfo { candle_run: None, route: None, goals: Some(vec![goal(None, None)]) };
    assert_eq!(select_presence_source(&st, &[], &planner3).details, "Tracking Sky goals");
    assert_eq!(select_presence_source(&st, &[], &empty_planner()).details, "Planning a Sky session");
}

fn build(st: PresenceSettings, running: bool) -> DiscordRpcBuildPayload {
    DiscordRpcBuildPayload {
        settings: st,
        events: vec![],
        planner: empty_planner(),
        sky_process_running: running,
        session_started_at_ms: 1_700_000_000_999,
    }
}

#[test]
fn presence_is_off_unless_enabled_and_sky_seen() {
    let mut st = settings(None);
    st.enabled = None;
    assert!(build_discord_rpc_presence(&build(st, true)).is_none());
    assert!(build_discord_rpc_presence(&build(settings(None), false)).is_none());
    let mut st = settings(None);
    st.require_sky_detection = Some(false);
    assert!(build_discord_rpc_presence(&build(st, false)).is_some());
}

#[test]
fn built_presence_fields() {
    let p = build_discord_rpc_presence(&build(settings(None), true)).unwrap();
    assert_eq!(p.details, "Planning a Sky session");
    assert_eq!(p.state, "Using Isekai for Sky");
    assert_eq!(p.large_image_key, "isekai_logo");
    assert_eq!(p.large_image_text, "Isekai for Sky: Children of the Light");
    assert_eq!(p.small_image_key, "sky_logo");
    assert_eq!(p.small_image_text, "Playing Sky");
    assert_eq!(p.start_timestamp, 1_700_000_000);
    assert_eq!(p.end_timestamp, None);
    assert_eq!(p.buttons.len(), 2);
    assert_eq!(p.buttons[0].label, "Isekai");
    assert_eq!(p.buttons[0].url, ISEKAI_DISCORD_URL);
    assert_eq!(p.buttons[1].label, "Sky");
    assert_eq!(p.buttons[1].url, SKY_DISCORD_URL);
    let mut st = settings(None);
    st.show_buttons = Some(false);
    assert!(build_discord_rpc_presence(&build(st, true)).unwrap().buttons.is_empty());
}

#[test]
fn built_presence_rounds_negative_start_toward_zero_and_clamps() {
    let mut payload = build(settings(s("candleRun")), true);
    payload.session_started_at_ms = -1_500;
    payload.planner.candle_run = Some(source(&"w".repeat(300), "ok"));
    let p = build_discord_rpc_presence(&payload).unwrap();
    assert_eq!(p.start_timestamp, -1);
    assert_eq!(p.details.len(), 128);
    assert!(p.details.ends_with("..."));
    assert_eq!(p.state, "ok");
}

#[test]
fn built_presence_carries_event_end() {
    let mut payload = build(settings(None), true);
    payload.events = vec![event("active", s("Geyser"))];
    let p = build_discord_rpc_presence(&payload).unwrap();
    assert_eq!(p.details, "Tracking Geyser");
    assert_eq!(p.end_timestamp, Some(1714552200));
}

#[test]
fn candle_sums_that_overflow_are_detected() {
    let big = |n: &str| CandleGroupInfo { name: Some(n.to_string()), candles: Some(vec![Some(i64::MAX)]) };
    let done = vec![CompletedGroup { key: "r:0:a".to_string(), done: Some(true) }];
    assert!(candle_run_sums_fit("r", &vec![big("a")], &done));
    assert!(!candle_run_sums_fit("r", &vec![big("a"), big("b")], &done));
    let inner = CandleGroupInfo { name: None, candles: Some(vec![Some(i64::MAX), Some(1), Some(-5)]) };
    assert!(!candle_run_sums_fit("r", &vec![inner], &[]));
    let ok = CandleGroupInfo { name: None, candles: Some(vec![Some(i64::MIN), Some(i64::MAX)]) };
    assert!(candle_run_sums_fit("r", &vec![ok], &[]));
}

#[test]
fn presence_shown_and_candle_consulted() {
    let mut st = settings(None);
    assert!(presence_is_shown(&st, true));
    assert!(!presence_is_shown(&st, false));
    st.require_sky_detection = Some(false);
    assert!(presence_is_shown(&st, false));
    st.enabled = Some(false);
    assert!(!presence_is_shown(&st, true));
    let auto = settings(None);
    assert!(consults_candle_run(&auto, &[]));
    assert!(!consults_candle_run(&auto, &[event("active", None)]));
    assert!(consults_candle_run(&auto, &[event("ended", None)]));
    assert!(consults_candle_run(&settings(s("candleRun")), &[event("active", None)]));
    assert!(!consults_candle_run(&settings(s("goals")), &[]));
}

#[test]
fn law_goal_order_does_not_matter_example() {
    let a = vec![goal(None, Some("2024-06-01")), goal(Some("done"), Some("2000-01-01")), goal(None, Some("2024-05-15"))];
    let b = vec![goal(None, Some("2024-05-15")), goal(None, Some("2024-06-01")), goal(Some("done"), Some("2000-01-01"))];
    assert_eq!(goals_presence(&Some(a)).unwrap().state, goals_presence(&Some(b)).unwrap().state);
}

#[test]
fn law_more_done_groups_never_lower_the_count_example() {
    let run = || Some(CandleRunInfo {
        name: None,
        groups: Some(vec![
            CandleGroupInfo { name: s("A"), candles: Some(vec![Some(1)]) },
            CandleGroupInfo { name: s("B"), candles: Some(vec![Some(2)]) },
        ]),
    });
    let one = vec![CompletedGroup { key: "r:0:A".to_string(), done: Some(true) }];
    let two = vec![
        CompletedGroup { key: "r:0:A".to_string(), done: Some(true) },
        CompletedGroup { key: "r:1:B".to_string(), done: Some(true) },
    ];
    let not_bool = vec![CompletedGroup { key: "r:1:B".to_string(), done: None }];
    assert_eq!(candle_run_presence("r", &run(), &one).unwrap().state, "1/2 groups, 1/3 wax");
    assert_eq!(candle_run_presence("r", &run(), &two).unwrap().state, "2/2 groups, 3/3 wax");
    assert_eq!(candle_run_presence("r", &run(), &not_bool).unwrap().state, "0/2 groups, 0/3 wax");
}
