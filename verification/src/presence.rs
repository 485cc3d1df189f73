//! What the Discord presence says: picked from the tracked events, the
//! planner, the overlay or a preset, following the user's settings.

use vstd::prelude::*;
use vstd::multiset::Multiset;
use crate::discord::{
    clamp_discord_field, clampable, clamped, opt_view, DiscordRpcButtonPayload,
    MAX_DISCORD_FIELD_LENGTH, utf8_len,
};
use crate::text::{decimal, owned, push_str, push_u64, str_eq};

verus! {

/// A presence text and, for events, when the shown phase ends.
pub struct PresenceSource {
    pub details: String,
    pub state: String,
    pub end_timestamp: Option<i64>,
}

/// The presence settings, each as found in the user's settings (absent when
/// missing or not of the expected kind).
pub struct PresenceSettings {
    pub enabled: Option<bool>,
    pub require_sky_detection: Option<bool>,
    pub show_buttons: Option<bool>,
    pub mode: Option<String>,
    pub safe_preset: Option<String>,
    pub overlay_mode: Option<String>,
}

/// The fields of a generated event instance that the presence reads.
pub struct EventInfo {
    pub status: Option<String>,
    pub starts_at_utc: Option<String>,
    pub ends_at_utc: Option<String>,
    pub location: Option<String>,
    pub phase_label: Option<String>,
    pub title: Option<String>,
}

/// The fields of a planner goal that the presence reads.
pub struct GoalInfo {
    pub status: Option<String>,
    pub due_date: Option<String>,
}

/// Text with a default for an absent value.
pub open spec fn or_default(o: Option<String>, d: Seq<char>) -> Seq<char> {
    match o {
        Some(s) => s@,
        None => d,
    }
}

/// Whether an optional text is present and equal to `lit`.
pub open spec fn is_text(o: Option<String>, lit: Seq<char>) -> bool {
    match o {
        Some(s) => s@ == lit,
        None => false,
    }
}

fn opt_is(o: &Option<String>, lit: &str) -> (b: bool)
    ensures
        b == is_text(*o, lit@),
{
    match o {
        Some(s) => str_eq(s.as_str(), lit),
        None => false,
    }
}

fn text_or(o: &Option<String>, d: &str) -> (r: String)
    ensures
        r@ == or_default(*o, d@),
{
    match o {
        Some(s) => s.clone(),
        None => owned(d),
    }
}

/// The presence for a safe preset.
pub open spec fn preset_texts(preset: Seq<char>) -> (Seq<char>, Seq<char>) {
    if preset == "farmingWax"@ {
        ("Planning candle run"@, "Playing Sky with Isekai"@)
    } else if preset == "trackingGoals"@ {
        ("Tracking Sky goals"@, "Using Isekai for Sky"@)
    } else if preset == "watchingTimers"@ {
        ("Watching Sky timers"@, "Using Isekai for Sky"@)
    } else {
        ("Planning a Sky session"@, "Using Isekai for Sky"@)
    }
}

fn source(details: String, state: String) -> (r: PresenceSource)
    ensures
        r.details@ == details@,
        r.state@ == state@,
        r.end_timestamp is None,
{
    PresenceSource { details, state, end_timestamp: None }
}

/// The presence for a safe preset.
pub fn preset_presence(preset: &str) -> (r: PresenceSource)
    ensures
        (r.details@, r.state@) == preset_texts(preset@),
        r.end_timestamp is None,
{
    if str_eq(preset, "farmingWax") {
        source(owned("Planning candle run"), owned("Playing Sky with Isekai"))
    } else if str_eq(preset, "trackingGoals") {
        source(owned("Tracking Sky goals"), owned("Using Isekai for Sky"))
    } else if str_eq(preset, "watchingTimers") {
        source(owned("Watching Sky timers"), owned("Using Isekai for Sky"))
    } else {
        source(owned("Planning a Sky session"), owned("Using Isekai for Sky"))
    }
}

/// How the overlay's mode is named in the presence.
pub open spec fn overlay_label(mode: Seq<char>) -> Seq<char> {
    if mode == "clock"@ {
        "clock"@
    } else if mode == "route"@ {
        "route"@
    } else if mode == "mini-map"@ {
        "mini map"@
    } else if mode == "clock-route"@ {
        "clock + route"@
    } else {
        "clock"@
    }
}

/// The presence for the overlay, when an overlay mode is set.
pub open spec fn overlay_texts(overlay_mode: Option<String>) -> Option<(Seq<char>, Seq<char>)> {
    match overlay_mode {
        Some(m) => Some(("Using Isekai overlay"@, overlay_label(m@) + " mode for Sky"@)),
        None => None,
    }
}

/// The presence for the overlay, when an overlay mode is set.
pub fn overlay_presence(overlay_mode: &Option<String>) -> (r: Option<PresenceSource>)
    ensures
        match r {
            Some(p) => overlay_texts(*overlay_mode) == Some((p.details@, p.state@))
                && p.end_timestamp is None,
            None => overlay_texts(*overlay_mode) is None,
        },
{
    match overlay_mode {
        None => None,
        Some(mode) => {
            let m = mode.as_str();
            let mut state = if str_eq(m, "clock") {
                owned("clock")
            } else if str_eq(m, "route") {
                owned("route")
            } else if str_eq(m, "mini-map") {
                owned("mini map")
            } else if str_eq(m, "clock-route") {
                owned("clock + route")
            } else {
                owned("clock")
            };
            push_str(&mut state, " mode for Sky");
            Some(source(owned("Using Isekai overlay"), state))
        },
    }
}

/// Whether `a` comes no later than `b` in the order of `str`: character by
/// character, a prefix first.
pub open spec fn lex_le(a: Seq<char>, b: Seq<char>) -> bool
    decreases a.len(),
{
    if a.len() == 0 {
        true
    } else if b.len() == 0 {
        false
    } else if a[0] != b[0] {
        (a[0] as u32) < (b[0] as u32)
    } else {
        lex_le(a.drop_first(), b.drop_first())
    }
}

/// The earliest of a non-empty sequence of texts.
pub open spec fn earliest(ds: Seq<Seq<char>>) -> Seq<char>
    decreases ds.len(),
{
    if ds.len() <= 1 {
        ds[0]
    } else {
        let m = earliest(ds.drop_last());
        if lex_le(m, ds.last()) {
            m
        } else {
            ds.last()
        }
    }
}

/// The goals that are not done.
pub open spec fn open_goals(goals: Seq<GoalInfo>) -> Seq<GoalInfo>
    decreases goals.len(),
{
    if goals.len() == 0 {
        goals
    } else if is_text(goals.last().status, "done"@) {
        open_goals(goals.drop_last())
    } else {
        open_goals(goals.drop_last()).push(goals.last())
    }
}

/// The due dates that the given goals have.
pub open spec fn due_dates(goals: Seq<GoalInfo>) -> Seq<Seq<char>>
    decreases goals.len(),
{
    if goals.len() == 0 {
        Seq::empty()
    } else {
        match goals.last().due_date {
            Some(d) => due_dates(goals.drop_last()).push(d@),
            None => due_dates(goals.drop_last()),
        }
    }
}

/// The presence for the planner's goals, when some are open.
pub open spec fn goals_texts(goals: Option<Vec<GoalInfo>>) -> Option<(Seq<char>, Seq<char>)> {
    match goals {
        None => None,
        Some(gs) => {
            let open = open_goals(gs@);
            let ds = due_dates(open);
            if open.len() == 0 {
                None
            } else if ds.len() == 0 {
                Some(
                    (
                        "Tracking Sky goals"@,
                        decimal(open.len()) + " open goals with Isekai"@,
                    ),
                )
            } else {
                Some(
                    (
                        "Tracking Sky goals"@,
                        decimal(open.len()) + " open goals, next due "@ + earliest(ds),
                    ),
                )
            }
        },
    }
}

fn lex_le_exec(a: &[char], b: &[char]) -> (r: bool)
    ensures
        r == lex_le(a@, b@),
{
    let mut i: usize = 0;
    assert(a@.skip(0) =~= a@);
    assert(b@.skip(0) =~= b@);
    while i < a.len() && i < b.len() && a[i] == b[i]
        invariant
            i <= a@.len(),
            i <= b@.len(),
            lex_le(a@, b@) == lex_le(a@.skip(i as int), b@.skip(i as int)),
        decreases a.len() - i,
    {
        assert(a@.skip(i as int).drop_first() =~= a@.skip(i + 1));
        assert(b@.skip(i as int).drop_first() =~= b@.skip(i + 1));
        i += 1;
    }
    if i == a.len() {
        assert(a@.skip(i as int).len() == 0);
        true
    } else if i == b.len() {
        assert(b@.skip(i as int).len() == 0);
        false
    } else {
        assert(a@.skip(i as int)[0] == a@[i as int]);
        assert(b@.skip(i as int)[0] == b@[i as int]);
        (a[i] as u32) < (b[i] as u32)
    }
}

/// The presence for the planner's goals, when some are open: how many, and
/// the earliest due date among them.
pub fn goals_presence(goals: &Option<Vec<GoalInfo>>) -> (r: Option<PresenceSource>)
    ensures
        match r {
            Some(p) => goals_texts(*goals) == Some((p.details@, p.state@)) && p.end_timestamp is None,
            None => goals_texts(*goals) is None,
        },
{
    let gs = match goals {
        None => {
            return None;
        },
        Some(gs) => gs,
    };
    let mut open: usize = 0;
    let mut earliest_due: Option<Vec<char>> = None;
    let ghost mut due: Seq<Seq<char>> = Seq::empty();
    for i in 0..gs.len()
        invariant
            open == open_goals(gs@.take(i as int)).len(),
            due == due_dates(open_goals(gs@.take(i as int))),
            match earliest_due {
                Some(e) => due.len() > 0 && e@ == earliest(due),
                None => due.len() == 0,
            },
            open <= i,
    {
        let ghost pre = gs@.take(i as int);
        assert(gs@.take(i + 1).drop_last() == pre);
        assert(gs@.take(i + 1).last() == gs@[i as int]);
        let g = &gs[i];
        if !opt_is(&g.status, "done") {
            open = open + 1;
            let ghost opened = open_goals(pre).push(gs@[i as int]);
            assert(opened.drop_last() == open_goals(pre));
            match &g.due_date {
                Some(d) => {
                    let dc = crate::text::chars_of(d.as_str());
                    proof {
                        due = due.push(d@);
                    }
                    let replace = match &earliest_due {
                        None => true,
                        Some(e) => !lex_le_exec(e.as_slice(), dc.as_slice()),
                    };
                    if replace {
                        earliest_due = Some(dc);
                    }
                    assert(due.drop_last() == due_dates(open_goals(pre)));
                },
                None => {},
            }
        }
    }
    assert(gs@.take(gs@.len() as int) == gs@);
    if open == 0 {
        return None;
    }
    let mut state = String::new();
    push_u64(&mut state, open as u64);
    match earliest_due {
        Some(e) => {
            push_str(&mut state, " open goals, next due ");
            crate::text::push_chars(&mut state, e.as_slice());
        },
        None => {
            push_str(&mut state, " open goals with Isekai");
        },
    }
    Some(source(owned("Tracking Sky goals"), state))
}

/// What `chrono::DateTime::parse_from_rfc3339` followed by `timestamp()`
/// gives for a text: the Unix seconds of an RFC 3339 date-time, or nothing when
/// the text is not one.
pub uninterp spec fn rfc3339_seconds(text: Seq<char>) -> Option<i64>;

/// Calls `chrono::DateTime::parse_from_rfc3339` and takes the `timestamp()` of
/// what it parsed. The result is named by `rfc3339_seconds`, a function of the
/// text alone; nothing more is claimed of it.
#[verifier::external_body]
fn parse_rfc3339_seconds(value: &str) -> (r: Option<i64>)
    ensures
        r == rfc3339_seconds(value@),
{
    match chrono::DateTime::parse_from_rfc3339(value) {
        Ok(instant) => Some(instant.timestamp()),
        Err(_) => None,
    }
}

/// The Unix seconds of an optional RFC 3339 date-time.
pub open spec fn timestamp_of(value: Option<String>) -> Option<i64> {
    match value {
        Some(v) => rfc3339_seconds(v@),
        None => None,
    }
}

/// The Unix seconds of an optional RFC 3339 date-time; none when absent or
/// not a date-time.
pub fn timestamp_seconds(value: &Option<String>) -> (r: Option<i64>)
    ensures
        r == timestamp_of(*value),
{
    match value {
        Some(v) => parse_rfc3339_seconds(v.as_str()),
        None => None,
    }
}

/// The statuses of events that the presence follows.
pub open spec fn is_tracked_status(status: Option<String>) -> bool {
    ||| is_text(status, "active"@)
    ||| is_text(status, "preparing"@)
    ||| is_text(status, "upcoming"@)
    ||| is_text(status, "endingSoon"@)
}

/// The index of the first followed event.
pub open spec fn first_tracked(events: Seq<EventInfo>) -> Option<int>
    decreases events.len(),
{
    if events.len() == 0 {
        None
    } else if is_tracked_status(events[0].status) {
        Some(0)
    } else {
        match first_tracked(events.drop_first()) {
            Some(i) => Some(i + 1),
            None => None,
        }
    }
}

/// The location and phase of an event, joined by ` - `, or a default when
/// that leaves nothing.
pub open spec fn event_state(location: Option<String>, phase: Option<String>) -> Seq<char> {
    let joined = match (location, phase) {
        (Some(l), Some(p)) => l@ + " - "@ + p@,
        (Some(l), None) => l@,
        (None, Some(p)) => p@,
        (None, None) => Seq::empty(),
    };
    if joined.len() == 0 {
        "Playing Sky with Isekai"@
    } else {
        joined
    }
}

/// An event under way (or ending soon) is tracked, any other awaited.
pub open spec fn event_details(event: EventInfo) -> Seq<char> {
    let title = or_default(event.title, "Sky event"@);
    if is_text(event.status, "active"@) || is_text(event.status, "endingSoon"@) {
        "Tracking "@ + title
    } else {
        "Waiting for "@ + title
    }
}

/// The time shown for an event: its start while it is upcoming (or has no
/// status), else its end.
pub open spec fn event_time_field(event: EventInfo) -> Option<String> {
    if is_text(event.status, "upcoming"@) || event.status is None {
        event.starts_at_utc
    } else {
        event.ends_at_utc
    }
}

/// The presence for an event, given the timestamp of its shown time.
pub fn presence_for_event(event: &EventInfo, end_timestamp: Option<i64>) -> (r: PresenceSource)
    ensures
        r.details@ == event_details(*event),
        r.state@ == event_state(event.location, event.phase_label),
        r.end_timestamp == end_timestamp,
{
    let mut state = String::new();
    match (&event.location, &event.phase_label) {
        (Some(l), Some(p)) => {
            push_str(&mut state, l.as_str());
            push_str(&mut state, " - ");
            push_str(&mut state, p.as_str());
        },
        (Some(l), None) => {
            push_str(&mut state, l.as_str());
        },
        (None, Some(p)) => {
            push_str(&mut state, p.as_str());
        },
        (None, None) => {},
    }
    if state.as_str().unicode_len() == 0 {
        state = owned("Playing Sky with Isekai");
    }
    let tracking = opt_is(&event.status, "active") || opt_is(&event.status, "endingSoon");
    let mut details = if tracking {
        owned("Tracking ")
    } else {
        owned("Waiting for ")
    };
    match &event.title {
        Some(t) => push_str(&mut details, t.as_str()),
        None => push_str(&mut details, "Sky event"),
    }
    PresenceSource { details, state, end_timestamp }
}

fn is_tracked(status: &Option<String>) -> (b: bool)
    ensures
        b == is_tracked_status(*status),
{
    opt_is(status, "active") || opt_is(status, "preparing") || opt_is(status, "upcoming")
        || opt_is(status, "endingSoon")
}

/// The presence for the first followed event, if any.
pub fn event_presence(events: &[EventInfo]) -> (r: Option<PresenceSource>)
    ensures
        match first_tracked(events@) {
            None => r is None,
            Some(i) => r matches Some(p) && p.details@ == event_details(events@[i]) && p.state@
                == event_state(events@[i].location, events@[i].phase_label) && p.end_timestamp
                == timestamp_of(event_time_field(events@[i])),
        },
{
    let mut i: usize = 0;
    assert(events@.skip(0) =~= events@);
    while i < events.len()
        invariant
            i <= events@.len(),
            first_tracked(events@) == match first_tracked(events@.skip(i as int)) {
                Some(j) => Some(j + i),
                None => None,
            },
        decreases events.len() - i,
    {
        assert(events@.skip(i as int)[0] == events@[i as int]);
        if is_tracked(&events[i].status) {
            let event = &events[i];
            let when = if opt_is(&event.status, "upcoming") || event.status.is_none() {
                &event.starts_at_utc
            } else {
                &event.ends_at_utc
            };
            let end = timestamp_seconds(when);
            return Some(presence_for_event(event, end));
        }
        assert(events@.skip(i as int).drop_first() =~= events@.skip(i + 1));
        i += 1;
    }
    None
}

/// The planner's parts of the presence: those of the candle run and of the
/// route (worked out against the game's catalogue), and its goals.
pub struct PlannerInfo {
    pub candle_run: Option<PresenceSource>,
    pub route: Option<PresenceSource>,
    pub goals: Option<Vec<GoalInfo>>,
}

/// Where a presence comes from.
pub enum SourceKind {
    Event(int),
    CandleRun,
    Route,
    Goals,
    Overlay,
    Preset(Seq<char>),
}

/// The source that a presence mode names, when it has something to show.
pub open spec fn mode_source(
    mode: Seq<char>,
    settings: PresenceSettings,
    events: Seq<EventInfo>,
    planner: PlannerInfo,
) -> Option<SourceKind> {
    if mode == "events"@ {
        match first_tracked(events) {
            Some(i) => Some(SourceKind::Event(i)),
            None => None,
        }
    } else if mode == "candleRun"@ {
        if planner.candle_run is Some {
            Some(SourceKind::CandleRun)
        } else {
            None
        }
    } else if mode == "route"@ {
        if planner.route is Some {
            Some(SourceKind::Route)
        } else {
            None
        }
    } else if mode == "goals"@ {
        if goals_texts(planner.goals) is Some {
            Some(SourceKind::Goals)
        } else {
            None
        }
    } else if mode == "overlay"@ {
        if settings.overlay_mode is Some {
            Some(SourceKind::Overlay)
        } else {
            None
        }
    } else {
        None
    }
}

/// The presence mode, `auto` when unset.
pub open spec fn presence_mode(settings: PresenceSettings) -> Seq<char> {
    or_default(settings.mode, "auto"@)
}

/// The preset shown when nothing else is, `planning` when unset.
pub open spec fn safe_preset(settings: PresenceSettings) -> Seq<char> {
    or_default(settings.safe_preset, "planning"@)
}

/// The source of the presence: the one the mode names, or in `auto` mode the
/// first with something to show of events, candle run, route, goals and
/// overlay; the safe preset when there is none.
pub open spec fn chosen_source(
    settings: PresenceSettings,
    events: Seq<EventInfo>,
    planner: PlannerInfo,
) -> SourceKind {
    let mode = presence_mode(settings);
    if mode != "auto"@ {
        match mode_source(mode, settings, events, planner) {
            Some(k) => k,
            None => SourceKind::Preset(safe_preset(settings)),
        }
    } else if first_tracked(events) is Some {
        SourceKind::Event(first_tracked(events)->0)
    } else if planner.candle_run is Some {
        SourceKind::CandleRun
    } else if planner.route is Some {
        SourceKind::Route
    } else if goals_texts(planner.goals) is Some {
        SourceKind::Goals
    } else if settings.overlay_mode is Some {
        SourceKind::Overlay
    } else {
        SourceKind::Preset(safe_preset(settings))
    }
}

/// The details and state that a source shows.
pub open spec fn source_texts(
    kind: SourceKind,
    settings: PresenceSettings,
    events: Seq<EventInfo>,
    planner: PlannerInfo,
) -> (Seq<char>, Seq<char>) {
    match kind {
        SourceKind::Event(i) => (event_details(events[i]), event_state(events[i].location, events[i].phase_label)),
        SourceKind::CandleRun => (planner.candle_run->0.details@, planner.candle_run->0.state@),
        SourceKind::Route => (planner.route->0.details@, planner.route->0.state@),
        SourceKind::Goals => goals_texts(planner.goals)->0,
        SourceKind::Overlay => overlay_texts(settings.overlay_mode)->0,
        SourceKind::Preset(p) => preset_texts(p),
    }
}

/// When the shown phase ends, for the sources that say.
pub open spec fn source_end(kind: SourceKind, events: Seq<EventInfo>, planner: PlannerInfo) -> Option<i64> {
    match kind {
        SourceKind::Event(i) => timestamp_of(event_time_field(events[i])),
        SourceKind::CandleRun => planner.candle_run->0.end_timestamp,
        SourceKind::Route => planner.route->0.end_timestamp,
        _ => None,
    }
}

/// `p` is the presence of source `kind`.
pub open spec fn describes(
    p: PresenceSource,
    kind: SourceKind,
    settings: PresenceSettings,
    events: Seq<EventInfo>,
    planner: PlannerInfo,
) -> bool {
    &&& (p.details@, p.state@) == source_texts(kind, settings, events, planner)
    &&& p.end_timestamp == source_end(kind, events, planner)
}

fn copy_source(p: &PresenceSource) -> (r: PresenceSource)
    ensures
        r.details@ == p.details@,
        r.state@ == p.state@,
        r.end_timestamp == p.end_timestamp,
{
    PresenceSource { details: p.details.clone(), state: p.state.clone(), end_timestamp: p.end_timestamp }
}

/// The presence of the source that a mode names, when it has something to show.
pub fn presence_source_for_mode(
    mode: &str,
    settings: &PresenceSettings,
    events: &[EventInfo],
    planner: &PlannerInfo,
) -> (r: Option<PresenceSource>)
    ensures
        match mode_source(mode@, *settings, events@, *planner) {
            None => r is None,
            Some(k) => r matches Some(p) && describes(p, k, *settings, events@, *planner),
        },
{
    if str_eq(mode, "events") {
        event_presence(events)
    } else if str_eq(mode, "candleRun") {
        match &planner.candle_run {
            Some(p) => Some(copy_source(p)),
            None => None,
        }
    } else if str_eq(mode, "route") {
        match &planner.route {
            Some(p) => Some(copy_source(p)),
            None => None,
        }
    } else if str_eq(mode, "goals") {
        goals_presence(&planner.goals)
    } else if str_eq(mode, "overlay") {
        overlay_presence(&settings.overlay_mode)
    } else {
        None
    }
}

/// The presence to show, from the source that the settings pick.
pub fn select_presence_source(
    settings: &PresenceSettings,
    events: &[EventInfo],
    planner: &PlannerInfo,
) -> (r: PresenceSource)
    ensures
        describes(r, chosen_source(*settings, events@, *planner), *settings, events@, *planner),
{
    let mode = text_or(&settings.mode, "auto");
    let safe = text_or(&settings.safe_preset, "planning");
    if !str_eq(mode.as_str(), "auto") {
        return match presence_source_for_mode(mode.as_str(), settings, events, planner) {
            Some(p) => p,
            None => preset_presence(safe.as_str()),
        };
    }
    if let Some(p) = event_presence(events) {
        return p;
    }
    if let Some(p) = &planner.candle_run {
        return copy_source(p);
    }
    if let Some(p) = &planner.route {
        return copy_source(p);
    }
    if let Some(p) = goals_presence(&planner.goals) {
        return p;
    }
    if let Some(p) = overlay_presence(&settings.overlay_mode) {
        return p;
    }
    preset_presence(safe.as_str())
}

/// Where the Isekai button leads.
pub const ISEKAI_DISCORD_URL: &'static str = "https://github.com/radcolor-dev/sky_cotl_clock";

/// Where the Sky button leads.
pub const SKY_DISCORD_URL: &'static str = "https://www.thatskygame.com/";

/// What the front end asks the presence to be built from.
pub struct DiscordRpcBuildPayload {
    pub settings: PresenceSettings,
    pub events: Vec<EventInfo>,
    pub planner: PlannerInfo,
    pub sky_process_running: bool,
    pub session_started_at_ms: i64,
}

/// The presence sent back to the front end.
pub struct DiscordPresence {
    pub details: String,
    pub state: String,
    pub large_image_key: String,
    pub large_image_text: String,
    pub small_image_key: String,
    pub small_image_text: String,
    pub start_timestamp: i64,
    pub end_timestamp: Option<i64>,
    pub buttons: Vec<DiscordRpcButtonPayload>,
}

/// The presence is shown when it is enabled and, unless that check is turned
/// off, the game is seen running.
pub open spec fn shows_presence(settings: PresenceSettings, sky_process_running: bool) -> bool {
    settings.enabled == Some(true) && !(settings.require_sky_detection != Some(false)
        && !sky_process_running)
}

/// Buttons are shown unless turned off.
pub open spec fn shows_buttons(settings: PresenceSettings) -> bool {
    settings.show_buttons != Some(false)
}

/// Milliseconds to whole seconds, rounding toward zero as `/` does.
pub open spec fn ms_to_seconds(ms: int) -> int {
    if ms >= 0 {
        ms / 1000
    } else {
        -((-ms) / 1000)
    }
}

/// The buttons of a presence that shows them.
pub open spec fn presence_buttons() -> Seq<(Seq<char>, Seq<char>)> {
    seq![("Isekai"@, ISEKAI_DISCORD_URL@), ("Sky"@, SKY_DISCORD_URL@)]
}

/// The texts of the chosen source fit in a presence field, or can be cut to.
pub open spec fn presence_texts_clampable(payload: DiscordRpcBuildPayload) -> bool {
    let texts = source_texts(
        chosen_source(payload.settings, payload.events@, payload.planner),
        payload.settings,
        payload.events@,
        payload.planner,
    );
    clampable(texts.0) && clampable(texts.1)
}

fn button(label: &str, url: &str) -> (b: DiscordRpcButtonPayload)
    ensures
        b.label@ == label@,
        b.url@ == url@,
{
    DiscordRpcButtonPayload { label: owned(label), url: owned(url) }
}

/// Builds the presence to show, or none when it is off or the game is not seen.
pub fn build_discord_rpc_presence(payload: &DiscordRpcBuildPayload) -> (r: Option<DiscordPresence>)
    requires
        shows_presence(payload.settings, payload.sky_process_running)
            ==> presence_texts_clampable(*payload),
    ensures
        !shows_presence(payload.settings, payload.sky_process_running) ==> r is None,
        shows_presence(payload.settings, payload.sky_process_running) ==> (r matches Some(p) && {
            let kind = chosen_source(payload.settings, payload.events@, payload.planner);
            let texts = source_texts(kind, payload.settings, payload.events@, payload.planner);
            &&& p.details@ == clamped(texts.0)
            &&& p.state@ == clamped(texts.1)
            &&& utf8_len(p.details@) <= MAX_DISCORD_FIELD_LENGTH
            &&& utf8_len(p.state@) <= MAX_DISCORD_FIELD_LENGTH
            &&& p.large_image_key@ == "isekai_logo"@
            &&& p.large_image_text@ == "Isekai for Sky: Children of the Light"@
            &&& p.small_image_key@ == "sky_logo"@
            &&& p.small_image_text@ == "Playing Sky"@
            &&& p.start_timestamp == ms_to_seconds(payload.session_started_at_ms as int)
            &&& p.end_timestamp == source_end(kind, payload.events@, payload.planner)
            &&& crate::discord::button_views(p.buttons@) == if shows_buttons(payload.settings) {
                presence_buttons()
            } else {
                Seq::empty()
            }
        }),
{
    let settings = &payload.settings;
    let enabled = match settings.enabled {
        Some(b) => b,
        None => false,
    };
    let require_sky_detection = match settings.require_sky_detection {
        Some(false) => false,
        _ => true,
    };
    if !enabled || (require_sky_detection && !payload.sky_process_running) {
        return None;
    }
    let source = select_presence_source(settings, payload.events.as_slice(), &payload.planner);
    let show_buttons = match settings.show_buttons {
        Some(false) => false,
        _ => true,
    };
    let mut buttons: Vec<DiscordRpcButtonPayload> = Vec::new();
    if show_buttons {
        buttons.push(button("Isekai", ISEKAI_DISCORD_URL));
        buttons.push(button("Sky", SKY_DISCORD_URL));
        assert(crate::discord::button_views(buttons@) =~= presence_buttons());
    } else {
        assert(crate::discord::button_views(buttons@) =~= Seq::empty());
    }
    Some(DiscordPresence {
        details: clamp_discord_field(source.details.as_str()),
        state: clamp_discord_field(source.state.as_str()),
        large_image_key: owned("isekai_logo"),
        large_image_text: owned("Isekai for Sky: Children of the Light"),
        small_image_key: owned("sky_logo"),
        small_image_text: owned("Playing Sky"),
        start_timestamp: payload.session_started_at_ms / 1000,
        end_timestamp: source.end_timestamp,
        buttons,
    })
}

proof fn lemma_lex_le_total(a: Seq<char>, b: Seq<char>)
    ensures
        lex_le(a, b) || lex_le(b, a),
        lex_le(a, a),
    decreases a.len(),
{
    if a.len() > 0 && b.len() > 0 && a[0] == b[0] {
        lemma_lex_le_total(a.drop_first(), b.drop_first());
    }
    if a.len() > 0 && b.len() > 0 && a[0] != b[0] {
        vstd::utf8::char_u32_cast(a[0], a[0] as u32);
        vstd::utf8::char_u32_cast(b[0], b[0] as u32);
    }
    if a.len() > 0 {
        lemma_lex_le_total(a.drop_first(), a.drop_first());
    }
}

proof fn lemma_lex_le_trans(a: Seq<char>, b: Seq<char>, c: Seq<char>)
    requires
        lex_le(a, b),
        lex_le(b, c),
    ensures
        lex_le(a, c),
    decreases a.len(),
{
    if a.len() > 0 && b.len() > 0 && c.len() > 0 && a[0] == b[0] && b[0] == c[0] {
        lemma_lex_le_trans(a.drop_first(), b.drop_first(), c.drop_first());
    }
}

/// The next due date shown is one of the open goals' dates, and none of them
/// comes before it.
pub proof fn law_next_due_is_earliest(ds: Seq<Seq<char>>)
    requires
        ds.len() > 0,
    ensures
        ds.contains(earliest(ds)),
        forall|i: int| 0 <= i < ds.len() ==> lex_le(earliest(ds), #[trigger] ds[i]),
    decreases ds.len(),
{
    if ds.len() == 1 {
        lemma_lex_le_total(ds[0], ds[0]);
        assert(ds[0] == earliest(ds));
    } else {
        let prev = ds.drop_last();
        law_next_due_is_earliest(prev);
        let m = earliest(prev);
        let j = choose|j: int| 0 <= j < prev.len() && prev[j] == m;
        assert(ds[j] == m);
        lemma_lex_le_total(m, ds.last());
        lemma_lex_le_total(ds.last(), ds.last());
        assert forall|i: int| 0 <= i < ds.len() implies lex_le(earliest(ds), #[trigger] ds[i]) by {
            if i < ds.len() - 1 {
                assert(prev[i] == ds[i]);
                if !lex_le(m, ds.last()) {
                    lemma_lex_le_trans(ds.last(), m, ds[i]);
                }
            }
        }
    }
}

/// A mode other than `auto` shows its own source whenever that has something
/// to show, and the safe preset otherwise.
pub proof fn law_mode_picks_its_source(
    settings: PresenceSettings,
    events: Seq<EventInfo>,
    planner: PlannerInfo,
)
    requires
        presence_mode(settings) != "auto"@,
    ensures
        chosen_source(settings, events, planner) == match mode_source(
            presence_mode(settings),
            settings,
            events,
            planner,
        ) {
            Some(k) => k,
            None => SourceKind::Preset(safe_preset(settings)),
        },
{
}

/// In `auto` mode a followed event wins over everything else, and the safe
/// preset is shown only when nothing else has anything to show.
pub proof fn law_auto_prefers_events(
    settings: PresenceSettings,
    events: Seq<EventInfo>,
    planner: PlannerInfo,
)
    requires
        presence_mode(settings) == "auto"@,
    ensures
        first_tracked(events) matches Some(i) ==> chosen_source(settings, events, planner)
            == SourceKind::Event(i),
        chosen_source(settings, events, planner) is Preset ==> {
            &&& first_tracked(events) is None
            &&& planner.candle_run is None
            &&& planner.route is None
            &&& goals_texts(planner.goals) is None
            &&& settings.overlay_mode is None
        },
{
}

/// A goal that is not done.
pub open spec fn is_open_goal(g: GoalInfo) -> bool {
    !is_text(g.status, "done"@)
}

/// The due date that a goal adds to the open goals' dates.
pub open spec fn open_due(g: GoalInfo) -> Multiset<Seq<char>> {
    if is_open_goal(g) && g.due_date is Some {
        Multiset::singleton(g.due_date->0@)
    } else {
        Multiset::empty()
    }
}

proof fn lemma_goals_push(s: Seq<GoalInfo>, g: GoalInfo)
    ensures
        open_goals(s.push(g)).len() == open_goals(s).len() + if is_open_goal(g) {
            1nat
        } else {
            0nat
        },
        due_dates(open_goals(s.push(g))).to_multiset() =~= due_dates(open_goals(s)).to_multiset().add(
            open_due(g),
        ),
{
    broadcast use vstd::seq_lib::group_to_multiset_ensures, vstd::multiset::group_multiset_axioms;

    assert(s.push(g).drop_last() =~= s);
    assert(s.push(g).last() == g);
    let og = open_goals(s);
    if is_open_goal(g) {
        assert(open_goals(s.push(g)) == og.push(g));
        assert(og.push(g).drop_last() =~= og);
        assert(og.push(g).last() == g);
        if g.due_date is Some {
            assert(due_dates(og.push(g)) == due_dates(og).push(g.due_date->0@));
        } else {
            assert(due_dates(og.push(g)) == due_dates(og));
        }
    } else {
        assert(open_goals(s.push(g)) == og);
    }
}

proof fn lemma_goals_remove(s: Seq<GoalInfo>, j: int)
    requires
        0 <= j < s.len(),
    ensures
        open_goals(s).len() == open_goals(s.remove(j)).len() + if is_open_goal(s[j]) {
            1nat
        } else {
            0nat
        },
        due_dates(open_goals(s)).to_multiset() =~= due_dates(open_goals(s.remove(j))).to_multiset().add(
            open_due(s[j]),
        ),
    decreases s.len(),
{
    broadcast use vstd::seq_lib::group_to_multiset_ensures, vstd::multiset::group_multiset_axioms;

    let last = s.last();
    assert(s =~= s.drop_last().push(last));
    lemma_goals_push(s.drop_last(), last);
    if j == s.len() - 1 {
        assert(s.remove(j) =~= s.drop_last());
    } else {
        lemma_goals_remove(s.drop_last(), j);
        assert(s.remove(j) =~= s.drop_last().remove(j).push(last));
        lemma_goals_push(s.drop_last().remove(j), last);
        assert(s.drop_last()[j] == s[j]);
    }
}

proof fn lemma_goals_permuted(s1: Seq<GoalInfo>, s2: Seq<GoalInfo>)
    requires
        s1.to_multiset() == s2.to_multiset(),
    ensures
        open_goals(s1).len() == open_goals(s2).len(),
        due_dates(open_goals(s1)).to_multiset() == due_dates(open_goals(s2)).to_multiset(),
    decreases s1.len(),
{
    broadcast use vstd::seq_lib::group_to_multiset_ensures, vstd::multiset::group_multiset_axioms;

    if s1.len() == 0 {
        assert(s1.to_multiset().len() == s1.len());
        assert(s2.to_multiset().len() == s2.len());
        assert(s2.len() == 0);
        assert(s1 =~= s2);
    } else {
        let x = s1.last();
        let rest = s1.drop_last();
        assert(s1 =~= rest.push(x));
        assert(s1.to_multiset().count(x) > 0);
        assert(s2.contains(x));
        let j = choose|j: int| 0 <= j < s2.len() && s2[j] == x;
        assert(rest.to_multiset() =~= s2.remove(j).to_multiset());
        lemma_goals_permuted(rest, s2.remove(j));
        lemma_goals_push(rest, x);
        lemma_goals_remove(s2, j);
    }
}

proof fn lemma_lex_le_antisym(a: Seq<char>, b: Seq<char>)
    requires
        lex_le(a, b),
        lex_le(b, a),
    ensures
        a == b,
    decreases a.len(),
{
    if a.len() > 0 && b.len() > 0 {
        lemma_lex_le_antisym(a.drop_first(), b.drop_first());
        assert(a =~= seq![a[0]] + a.drop_first());
        assert(b =~= seq![b[0]] + b.drop_first());
    } else {
        assert(a =~= b);
    }
}

/// The order of the goals does not change what the presence says of them.
pub proof fn law_goal_order_does_not_matter(goals1: Vec<GoalInfo>, goals2: Vec<GoalInfo>)
    requires
        goals1@.to_multiset() == goals2@.to_multiset(),
    ensures
        goals_texts(Some(goals1)) == goals_texts(Some(goals2)),
{
    broadcast use vstd::seq_lib::group_to_multiset_ensures, vstd::multiset::group_multiset_axioms;

    lemma_goals_permuted(goals1@, goals2@);
    let ds1 = due_dates(open_goals(goals1@));
    let ds2 = due_dates(open_goals(goals2@));
    assert(ds1.to_multiset().len() == ds1.len());
    assert(ds2.to_multiset().len() == ds2.len());
    assert(ds1.len() == ds2.len());
    if ds1.len() > 0 {
        law_next_due_is_earliest(ds1);
        law_next_due_is_earliest(ds2);
        let m1 = earliest(ds1);
        let m2 = earliest(ds2);
        assert(ds1.to_multiset().count(m1) > 0);
        assert(ds2.contains(m1));
        assert(ds2.to_multiset().count(m2) > 0);
        assert(ds1.contains(m2));
        let i1 = choose|i: int| 0 <= i < ds2.len() && ds2[i] == m1;
        let i2 = choose|i: int| 0 <= i < ds1.len() && ds1[i] == m2;
        assert(lex_le(m2, ds2[i1]));
        assert(lex_le(m1, ds1[i2]));
        lemma_lex_le_antisym(m1, m2);
    }
}

/// Whether the presence is shown at all.
pub fn presence_is_shown(settings: &PresenceSettings, sky_process_running: bool) -> (b: bool)
    ensures
        b == shows_presence(*settings, sky_process_running),
{
    let enabled = match settings.enabled {
        Some(b) => b,
        None => false,
    };
    let require_sky_detection = match settings.require_sky_detection {
        Some(false) => false,
        _ => true,
    };
    enabled && !(require_sky_detection && !sky_process_running)
}

/// Whether choosing the presence source looks at the candle run: in
/// `candleRun` mode, and in `auto` mode when no event is followed.
pub open spec fn looks_at_candle_run(settings: PresenceSettings, events: Seq<EventInfo>) -> bool {
    presence_mode(settings) == "candleRun"@ || (presence_mode(settings) == "auto"@
        && first_tracked(events) is None)
}

fn has_tracked_event(events: &[EventInfo]) -> (b: bool)
    ensures
        b == (first_tracked(events@) is Some),
{
    let mut i: usize = 0;
    assert(events@.skip(0) =~= events@);
    while i < events.len()
        invariant
            i <= events@.len(),
            first_tracked(events@) is Some <==> first_tracked(events@.skip(i as int)) is Some,
        decreases events.len() - i,
    {
        assert(events@.skip(i as int)[0] == events@[i as int]);
        if is_tracked(&events[i].status) {
            return true;
        }
        assert(events@.skip(i as int).drop_first() =~= events@.skip(i + 1));
        i += 1;
    }
    false
}

/// Whether choosing the presence source looks at the candle run.
pub fn consults_candle_run(settings: &PresenceSettings, events: &[EventInfo]) -> (b: bool)
    ensures
        b == looks_at_candle_run(*settings, events@),
{
    let mode = text_or(&settings.mode, "auto");
    if str_eq(mode.as_str(), "candleRun") {
        true
    } else if str_eq(mode.as_str(), "auto") {
        !has_tracked_event(events)
    } else {
        false
    }
}

/// The followed event is the first whose status is followed: every event
/// before it is not followed, and with none followed there is none.
pub proof fn law_first_tracked_is_first(events: Seq<EventInfo>)
    ensures
        first_tracked(events) matches Some(i) ==> 0 <= i < events.len() && is_tracked_status(
            events[i].status,
        ) && forall|j: int| 0 <= j < i ==> !is_tracked_status(#[trigger] events[j].status),
        first_tracked(events) is None ==> forall|j: int|
            0 <= j < events.len() ==> !is_tracked_status(#[trigger] events[j].status),
    decreases events.len(),
{
    if events.len() > 0 {
        law_first_tracked_is_first(events.drop_first());
        assert forall|j: int| 1 <= j < events.len() implies events[j] == events.drop_first()[j - 1] by {}
    }
}

/// In `auto` mode with no followed event, the presence is the candle run's
/// when the planner has one, else the route's, else the goals', else the
/// overlay's, else the safe preset's, with that source's texts.
pub proof fn law_auto_order_after_events(
    settings: PresenceSettings,
    events: Seq<EventInfo>,
    planner: PlannerInfo,
)
    requires
        presence_mode(settings) == "auto"@,
        first_tracked(events) is None,
    ensures
        ({
            let k = chosen_source(settings, events, planner);
            let texts = source_texts(k, settings, events, planner);
            &&& planner.candle_run matches Some(c) ==> k == SourceKind::CandleRun && texts == (
                c.details@,
                c.state@,
            ) && source_end(k, events, planner) == c.end_timestamp
            &&& (planner.candle_run is None && planner.route is Some) ==> k == SourceKind::Route
                && texts == (planner.route->0.details@, planner.route->0.state@) && source_end(
                k,
                events,
                planner,
            ) == planner.route->0.end_timestamp
            &&& (planner.candle_run is None && planner.route is None && goals_texts(
                planner.goals,
            ) is Some) ==> k == SourceKind::Goals && texts == goals_texts(planner.goals)->0
            &&& (planner.candle_run is None && planner.route is None && goals_texts(planner.goals)
                is None && overlay_texts(settings.overlay_mode) is Some) ==> k
                == SourceKind::Overlay && texts == overlay_texts(settings.overlay_mode)->0
            &&& (planner.candle_run is None && planner.route is None && goals_texts(planner.goals)
                is None && settings.overlay_mode is None) ==> texts == preset_texts(
                safe_preset(settings),
            )
        }),
{
}

/// The presence is shown exactly when it is enabled and either the game is
/// seen or seeing it is not required.
pub proof fn law_when_presence_is_shown(settings: PresenceSettings, sky_process_running: bool)
    ensures
        shows_presence(settings, sky_process_running) <==> (settings.enabled == Some(true) && (
        sky_process_running || settings.require_sky_detection == Some(false))),
{
}

/// Buttons are left out only when the setting is explicitly false; the shown
/// ones are the Isekai button and then the Sky button.
pub proof fn law_buttons_unless_turned_off(settings: PresenceSettings)
    ensures
        shows_buttons(settings) <==> settings.show_buttons != Some(false),
        settings.show_buttons is None ==> shows_buttons(settings),
        settings.show_buttons == Some(true) ==> shows_buttons(settings),
        presence_buttons().len() == 2,
        presence_buttons()[0] == ("Isekai"@, ISEKAI_DISCORD_URL@),
        presence_buttons()[1] == ("Sky"@, SKY_DISCORD_URL@),
{
}

/// The start is the session's start in whole seconds, rounded toward zero.
pub proof fn law_start_seconds_round_toward_zero(ms: int)
    ensures
        ms >= 0 ==> 0 <= ms - 1000 * ms_to_seconds(ms) < 1000,
        ms < 0 ==> -1000 < ms - 1000 * ms_to_seconds(ms) <= 0,
{
}

/// The goals presence counts exactly the goals that are not done.
pub proof fn law_open_goals_are_the_not_done(goals: Seq<GoalInfo>)
    ensures
        open_goals(goals).len() <= goals.len(),
        forall|k: int| 0 <= k < open_goals(goals).len() ==> is_open_goal(#[trigger] open_goals(goals)[k]),
        (forall|k: int| 0 <= k < goals.len() ==> is_open_goal(#[trigger] goals[k])) ==> open_goals(goals)
            == goals,
        (forall|k: int| 0 <= k < goals.len() ==> !is_open_goal(#[trigger] goals[k])) ==> open_goals(
            goals,
        ).len() == 0,
    decreases goals.len(),
{
    if goals.len() > 0 {
        law_open_goals_are_the_not_done(goals.drop_last());
        assert forall|k: int| 0 <= k < goals.len() - 1 implies goals.drop_last()[k] == goals[k] by {}
        if forall|k: int| 0 <= k < goals.len() ==> is_open_goal(#[trigger] goals[k]) {
            assert(is_open_goal(goals[goals.len() - 1]));
            assert(goals.drop_last().push(goals.last()) =~= goals);
        }
        if forall|k: int| 0 <= k < goals.len() ==> !is_open_goal(#[trigger] goals[k]) {
            assert(!is_open_goal(goals[goals.len() - 1]));
        }
    }
}

} // verus!
