//! The Discord connection manager. Each request (update the presence, clear it)
//! runs as a sequence of steps: the manager names an action on the Discord IPC
//! client, the caller performs it and hands back its result, until the manager
//! finishes the request with its answer.

use vstd::prelude::*;
use crate::discord::{
    activity_of, build_discord_activity, copy_activity, opt_view, resolve_discord_client_id,
    resolved_client_id, ActivityView, DiscordActivity, DiscordRpcPresencePayload,
};
use crate::text::{owned, str_eq};

verus! {

/// Where a request stands.
pub enum RpcStage {
    Idle,
    /// Updating: the old client clears its activity before a new one connects.
    ClearingOld { client_id: String, retry: bool, activity: DiscordActivity },
    /// Updating: a new client connects.
    Connecting { client_id: String, retry: bool, activity: DiscordActivity },
    /// Updating: the connected client sets the activity.
    Setting { client_id: String, retry: bool, activity: DiscordActivity },
    /// Clearing: the client clears its activity.
    Clearing,
}

/// What the caller hands to the manager.
pub enum RpcEvent {
    /// Show the activity through the given client id.
    Update(String, DiscordActivity),
    /// Clear the presence.
    Clear,
    /// The result of the action that the manager last named.
    Done(Result<(), String>),
}

/// What the manager asks of the caller.
pub enum RpcAction {
    /// Clear the activity of the current client.
    ClearActivity,
    /// Make a new client with this id and connect it; on success it replaces
    /// the current one.
    Connect(String),
    /// Set this activity on the current client.
    SetActivity(DiscordActivity),
    /// The request is answered.
    Finish(Result<(), String>),
}

/// The state of the Discord connection. The caller holds the client itself and
/// drops it whenever `has_client` turns false.
pub struct DiscordRpcManager {
    pub has_client: bool,
    pub client_id: Option<String>,
    pub connected: bool,
    pub active: bool,
    pub last_error: Option<String>,
    pub stage: RpcStage,
}

/// What the front end is told of the connection.
pub struct DiscordRpcStatus {
    pub configured: bool,
    pub connected: bool,
    pub active: bool,
    pub last_error: Option<String>,
}

pub enum StageView {
    Idle,
    ClearingOld { client_id: Seq<char>, retry: bool, activity: ActivityView },
    Connecting { client_id: Seq<char>, retry: bool, activity: ActivityView },
    Setting { client_id: Seq<char>, retry: bool, activity: ActivityView },
    Clearing,
}

pub struct RpcState {
    pub has_client: bool,
    pub client_id: Option<Seq<char>>,
    pub connected: bool,
    pub active: bool,
    pub last_error: Option<Seq<char>>,
    pub stage: StageView,
}

pub enum EventView {
    Update(Seq<char>, ActivityView),
    Clear,
    Done(Result<(), Seq<char>>),
}

pub enum ActionView {
    ClearActivity,
    Connect(Seq<char>),
    SetActivity(ActivityView),
    Finish(Result<(), Seq<char>>),
}

pub open spec fn result_view(r: Result<(), String>) -> Result<(), Seq<char>> {
    match r {
        Ok(()) => Ok(()),
        Err(e) => Err(e@),
    }
}

impl View for RpcStage {
    type V = StageView;

    open spec fn view(&self) -> StageView {
        match self {
            RpcStage::Idle => StageView::Idle,
            RpcStage::ClearingOld { client_id, retry, activity } => StageView::ClearingOld {
                client_id: client_id@,
                retry: *retry,
                activity: activity@,
            },
            RpcStage::Connecting { client_id, retry, activity } => StageView::Connecting {
                client_id: client_id@,
                retry: *retry,
                activity: activity@,
            },
            RpcStage::Setting { client_id, retry, activity } => StageView::Setting {
                client_id: client_id@,
                retry: *retry,
                activity: activity@,
            },
            RpcStage::Clearing => StageView::Clearing,
        }
    }
}

impl View for RpcEvent {
    type V = EventView;

    open spec fn view(&self) -> EventView {
        match self {
            RpcEvent::Update(id, a) => EventView::Update(id@, a@),
            RpcEvent::Clear => EventView::Clear,
            RpcEvent::Done(r) => EventView::Done(result_view(*r)),
        }
    }
}

impl View for RpcAction {
    type V = ActionView;

    open spec fn view(&self) -> ActionView {
        match self {
            RpcAction::ClearActivity => ActionView::ClearActivity,
            RpcAction::Connect(id) => ActionView::Connect(id@),
            RpcAction::SetActivity(a) => ActionView::SetActivity(a@),
            RpcAction::Finish(r) => ActionView::Finish(result_view(*r)),
        }
    }
}

impl View for DiscordRpcManager {
    type V = RpcState;

    open spec fn view(&self) -> RpcState {
        RpcState {
            has_client: self.has_client,
            client_id: opt_view(self.client_id),
            connected: self.connected,
            active: self.active,
            last_error: opt_view(self.last_error),
            stage: self.stage@,
        }
    }
}

/// The message of a request that finds no client after connecting.
pub open spec fn unavailable_msg() -> Seq<char> {
    "Discord RPC client unavailable"@
}

/// The message of an update without a client id.
pub open spec fn unconfigured_msg() -> Seq<char> {
    "Discord client ID is not configured"@
}

impl RpcState {
    /// A state in which a request is under way only with a client to act on,
    /// and an activity is set only through the client id it connected with.
    pub open spec fn wf(self) -> bool {
        match self.stage {
            StageView::ClearingOld { .. } => self.has_client,
            StageView::Setting { client_id, .. } => self.has_client && self.client_id == Some(
                client_id,
            ),
            StageView::Clearing => self.has_client,
            _ => true,
        }
    }

    /// The manager waits for a request when idle, and for a result otherwise.
    pub open spec fn accepts(self, e: EventView) -> bool {
        match self.stage {
            StageView::Idle => !(e is Done),
            _ => e is Done,
        }
    }

    pub open spec fn with_stage(self, stage: StageView) -> RpcState {
        RpcState { stage, ..self }
    }

    /// What a failed `clear_activity` leaves: no client, not connected, inactive.
    pub open spec fn dropped(self, e: Seq<char>) -> RpcState {
        RpcState {
            has_client: false,
            client_id: None,
            connected: false,
            active: false,
            last_error: Some(e),
            ..self
        }
    }

    /// What a `clear_activity` leaves, with the result it had.
    pub open spec fn after_clear(self, r: Result<(), Seq<char>>) -> RpcState {
        match r {
            Ok(()) => RpcState { active: false, last_error: None, ..self },
            Err(e) => self.dropped(e),
        }
    }

    /// The step after a successful connection check: set the activity if there
    /// is a client to set it on.
    pub open spec fn ensured(self, id: Seq<char>, retry: bool, activity: ActivityView) -> (
        RpcState,
        ActionView,
    ) {
        if self.has_client {
            (
                self.with_stage(StageView::Setting { client_id: id, retry, activity }),
                ActionView::SetActivity(activity),
            )
        } else if !retry {
            (
                RpcState {
                    last_error: Some(unavailable_msg()),
                    stage: StageView::Idle,
                    ..self
                },
                ActionView::Finish(Err(unavailable_msg())),
            )
        } else {
            (self.with_stage(StageView::Idle), ActionView::Finish(Err(unavailable_msg())))
        }
    }

    /// Making sure of a connection through `id`: kept when it is there, else
    /// the old client clears its activity first and a new one connects.
    pub open spec fn ensure(self, id: Seq<char>, retry: bool, activity: ActivityView) -> (
        RpcState,
        ActionView,
    ) {
        if self.connected && self.has_client && self.client_id == Some(id) {
            self.ensured(id, retry, activity)
        } else if self.has_client {
            (
                self.with_stage(StageView::ClearingOld { client_id: id, retry, activity }),
                ActionView::ClearActivity,
            )
        } else {
            (
                self.with_stage(StageView::Connecting { client_id: id, retry, activity }),
                ActionView::Connect(id),
            )
        }
    }

    /// The next state and action on an event.
    pub open spec fn next(self, e: EventView) -> (RpcState, ActionView) {
        match self.stage {
            StageView::Idle => match e {
                EventView::Update(id, activity) => self.ensure(id, false, activity),
                EventView::Clear => if self.has_client {
                    (self.with_stage(StageView::Clearing), ActionView::ClearActivity)
                } else {
                    (
                        RpcState { active: false, last_error: None, ..self },
                        ActionView::Finish(Ok(())),
                    )
                },
                EventView::Done(_) => (self, ActionView::Finish(Ok(()))),
            },
            StageView::ClearingOld { client_id, retry, activity } => match e {
                EventView::Done(r) => (
                    self.after_clear(r).with_stage(
                        StageView::Connecting { client_id, retry, activity },
                    ),
                    ActionView::Connect(client_id),
                ),
                _ => (self, ActionView::Finish(Ok(()))),
            },
            StageView::Connecting { client_id, retry, activity } => match e {
                EventView::Done(Ok(())) => RpcState {
                    has_client: true,
                    client_id: Some(client_id),
                    connected: true,
                    last_error: None,
                    ..self
                }.ensured(client_id, retry, activity),
                EventView::Done(Err(err)) => (
                    RpcState { last_error: Some(err), stage: StageView::Idle, ..self },
                    ActionView::Finish(Err(err)),
                ),
                _ => (self, ActionView::Finish(Ok(()))),
            },
            StageView::Setting { client_id, retry, activity } => match e {
                EventView::Done(Ok(())) => (
                    RpcState {
                        connected: true,
                        active: true,
                        last_error: None,
                        stage: StageView::Idle,
                        ..self
                    },
                    ActionView::Finish(Ok(())),
                ),
                EventView::Done(Err(err)) => if !retry {
                    RpcState {
                        connected: false,
                        has_client: false,
                        client_id: None,
                        last_error: Some(err),
                        ..self
                    }.ensure(client_id, true, activity)
                } else {
                    (
                        RpcState { last_error: Some(err), stage: StageView::Idle, ..self },
                        ActionView::Finish(Err(err)),
                    )
                },
                _ => (self, ActionView::Finish(Ok(()))),
            },
            StageView::Clearing => match e {
                EventView::Done(r) => (
                    self.after_clear(r).with_stage(StageView::Idle),
                    ActionView::Finish(r),
                ),
                _ => (self, ActionView::Finish(Ok(()))),
            },
        }
    }
}

impl DiscordRpcManager {
    /// A manager with no client and no error.
    pub fn new() -> (m: DiscordRpcManager)
        ensures
            m@ == (RpcState {
                has_client: false,
                client_id: None,
                connected: false,
                active: false,
                last_error: None,
                stage: StageView::Idle,
            }),
    {
        DiscordRpcManager {
            has_client: false,
            client_id: None,
            connected: false,
            active: false,
            last_error: None,
            stage: RpcStage::Idle,
        }
    }

    /// Whether the manager waits for the result of an action.
    pub fn is_busy(&self) -> (b: bool)
        ensures
            b == !(self@.stage is Idle),
    {
        match self.stage {
            RpcStage::Idle => false,
            _ => true,
        }
    }

    /// What the front end is told of the connection.
    pub fn status(&self, configured: bool) -> (s: DiscordRpcStatus)
        ensures
            s.configured == configured,
            s.connected == self.connected,
            s.active == self.active,
            opt_view(s.last_error) == opt_view(self.last_error),
    {
        DiscordRpcStatus {
            configured,
            connected: self.connected,
            active: self.active,
            last_error: match &self.last_error {
                Some(e) => Some(e.clone()),
                None => None,
            },
        }
    }

    /// Records `error` as the last one and hands it back.
    fn set_error(&mut self, error: String) -> (r: String)
        ensures
            final(self)@ == (RpcState { last_error: Some(error@), ..old(self)@ }),
            r@ == error@,
    {
        self.last_error = Some(error.clone());
        error
    }

    fn clear_result(&mut self, r: &Result<(), String>)
        ensures
            final(self)@ == old(self)@.after_clear(result_view(*r)),
    {
        match r {
            Ok(()) => {
                self.active = false;
                self.last_error = None;
            },
            Err(e) => {
                self.connected = false;
                self.has_client = false;
                self.client_id = None;
                self.active = false;
                self.last_error = Some(e.clone());
            },
        }
    }

    fn ensured(&mut self, id: String, retry: bool, activity: DiscordActivity) -> (a: RpcAction)
        ensures
            (final(self)@, a@) == old(self)@.ensured(id@, retry, activity@),
    {
        if self.has_client {
            let sent = copy_activity(&activity);
            self.stage = RpcStage::Setting { client_id: id, retry, activity };
            RpcAction::SetActivity(sent)
        } else {
            self.stage = RpcStage::Idle;
            let msg = owned("Discord RPC client unavailable");
            if !retry {
                let e = self.set_error(msg);
                RpcAction::Finish(Err(e))
            } else {
                RpcAction::Finish(Err(msg))
            }
        }
    }

    fn ensure(&mut self, id: String, retry: bool, activity: DiscordActivity) -> (a: RpcAction)
        ensures
            (final(self)@, a@) == old(self)@.ensure(id@, retry, activity@),
    {
        let same = match &self.client_id {
            Some(c) => str_eq(c.as_str(), id.as_str()),
            None => false,
        };
        if self.connected && self.has_client && same {
            self.ensured(id, retry, activity)
        } else if self.has_client {
            self.stage = RpcStage::ClearingOld { client_id: id, retry, activity };
            RpcAction::ClearActivity
        } else {
            let a = RpcAction::Connect(id.clone());
            self.stage = RpcStage::Connecting { client_id: id, retry, activity };
            a
        }
    }

    /// Takes the next event of the request under way, or a new request when
    /// idle, and names what to do next.
    pub fn step(&mut self, event: RpcEvent) -> (a: RpcAction)
        requires
            old(self)@.wf(),
            old(self)@.accepts(event@),
        ensures
            (final(self)@, a@) == old(self)@.next(event@),
            final(self)@.wf(),
    {
        let mut stage = RpcStage::Idle;
        std::mem::swap(&mut stage, &mut self.stage);
        let a = match stage {
            RpcStage::Idle => match event {
                RpcEvent::Update(id, activity) => {
                    self.stage = RpcStage::Idle;
                    self.ensure(id, false, activity)
                },
                RpcEvent::Clear => {
                    if self.has_client {
                        self.stage = RpcStage::Clearing;
                        RpcAction::ClearActivity
                    } else {
                        self.active = false;
                        self.last_error = None;
                        RpcAction::Finish(Ok(()))
                    }
                },
                RpcEvent::Done(_) => RpcAction::Finish(Ok(())),
            },
            RpcStage::ClearingOld { client_id, retry, activity } => match event {
                RpcEvent::Done(r) => {
                    self.clear_result(&r);
                    let a = RpcAction::Connect(client_id.clone());
                    self.stage = RpcStage::Connecting { client_id, retry, activity };
                    a
                },
                _ => RpcAction::Finish(Ok(())),
            },
            RpcStage::Connecting { client_id, retry, activity } => match event {
                RpcEvent::Done(Ok(())) => {
                    self.has_client = true;
                    self.client_id = Some(client_id.clone());
                    self.connected = true;
                    self.last_error = None;
                    self.ensured(client_id, retry, activity)
                },
                RpcEvent::Done(Err(err)) => {
                    let e = self.set_error(err);
                    RpcAction::Finish(Err(e))
                },
                _ => RpcAction::Finish(Ok(())),
            },
            RpcStage::Setting { client_id, retry, activity } => match event {
                RpcEvent::Done(Ok(())) => {
                    self.connected = true;
                    self.active = true;
                    self.last_error = None;
                    RpcAction::Finish(Ok(()))
                },
                RpcEvent::Done(Err(err)) => {
                    if !retry {
                        self.connected = false;
                        self.has_client = false;
                        self.client_id = None;
                        self.last_error = Some(err);
                        self.ensure(client_id, true, activity)
                    } else {
                        let e = self.set_error(err);
                        RpcAction::Finish(Err(e))
                    }
                },
                _ => RpcAction::Finish(Ok(())),
            },
            RpcStage::Clearing => match event {
                RpcEvent::Done(r) => {
                    self.clear_result(&r);
                    RpcAction::Finish(r)
                },
                _ => RpcAction::Finish(Ok(())),
            },
        };
        a
    }

    /// Starts showing a presence: the activity built from `payload`, through
    /// the resolved client id; when there is none, finishes at once with the
    /// error, recorded.
    pub fn discord_rpc_update(
        &mut self,
        client_id: &str,
        built_in: Option<&str>,
        payload: &DiscordRpcPresencePayload,
    ) -> (a: RpcAction)
        requires
            old(self)@.wf(),
            old(self)@.stage is Idle,
        ensures
            ({
                let id = resolved_client_id(
                    client_id@,
                    match built_in {
                        Some(b) => Some(b@),
                        None => None,
                    },
                );
                match id {
                    Some(i) => (final(self)@, a@) == old(self)@.next(
                        EventView::Update(i, activity_of(*payload)),
                    ),
                    None => final(self)@ == (RpcState {
                        last_error: Some(unconfigured_msg()),
                        ..old(self)@
                    }) && a@ == ActionView::Finish(Err(unconfigured_msg())),
                }
            }),
            final(self)@.wf(),
    {
        match resolve_discord_client_id(client_id, built_in) {
            Some(id) => {
                let activity = build_discord_activity(payload);
                self.step(RpcEvent::Update(id, activity))
            },
            None => {
                let e = self.set_error(owned("Discord client ID is not configured"));
                RpcAction::Finish(Err(e))
            },
        }
    }

    /// Starts clearing the presence.
    pub fn discord_rpc_clear(&mut self) -> (a: RpcAction)
        requires
            old(self)@.wf(),
            old(self)@.stage is Idle,
        ensures
            (final(self)@, a@) == old(self)@.next(EventView::Clear),
            final(self)@.wf(),
    {
        self.step(RpcEvent::Clear)
    }

    /// The status, with the client id counted as configured when one resolves.
    pub fn discord_rpc_status(&self, client_id: &str, built_in: Option<&str>) -> (s:
        DiscordRpcStatus)
        ensures
            s.configured == resolved_client_id(
                client_id@,
                match built_in {
                    Some(b) => Some(b@),
                    None => None,
                },
            ) is Some,
            s.connected == self.connected,
            s.active == self.active,
            opt_view(s.last_error) == opt_view(self.last_error),
    {
        let configured = resolve_discord_client_id(client_id, built_in).is_some();
        self.status(configured)
    }
}

/// How many more action results a request can take at most, by where it stands.
pub open spec fn steps_left(stage: StageView) -> nat {
    match stage {
        StageView::Idle => 0,
        StageView::ClearingOld { retry, .. } => if retry {
            3
        } else {
            6
        },
        StageView::Connecting { retry, .. } => if retry {
            2
        } else {
            5
        },
        StageView::Setting { retry, .. } => if retry {
            1
        } else {
            4
        },
        StageView::Clearing => 1,
    }
}

/// An update that succeeds leaves the presence shown: a client connected
/// through the requested id, active, with no error recorded.
pub proof fn law_update_success_shows_presence(s: RpcState, e: EventView)
    requires
        s.wf(),
        s.accepts(e),
        s.stage is Setting,
        s.next(e).1 == ActionView::Finish(Ok(())),
    ensures
        ({
            let t = s.next(e).0;
            &&& t.has_client
            &&& t.connected
            &&& t.active
            &&& t.client_id == Some(s.stage->Setting_client_id)
            &&& t.last_error is None
            &&& t.stage is Idle
        }),
{
}

/// Every request that ends in an error has that error recorded as the last one.
pub proof fn law_errors_are_recorded(s: RpcState, e: EventView, m: Seq<char>)
    requires
        s.wf(),
        s.accepts(e),
        s.next(e).1 == ActionView::Finish(Err(m)),
    ensures
        s.next(e).0.last_error == Some(m),
        s.next(e).0.stage is Idle,
{
}

/// Clearing leaves no presence active: a successful clear also forgets the
/// last error, and a failed one drops the client.
pub proof fn law_clear_deactivates(s: RpcState, e: EventView, r: Result<(), Seq<char>>)
    requires
        s.wf(),
        s.accepts(e),
        (s.stage is Idle && e is Clear) || s.stage is Clearing,
        s.next(e).1 == ActionView::Finish(r),
    ensures
        !s.next(e).0.active,
        r is Ok ==> s.next(e).0.last_error is None,
        r is Err ==> !s.next(e).0.has_client && !s.next(e).0.connected,
{
}

/// Every request is answered: a new request takes at most six action results,
/// and each result either answers it or brings the answer nearer.
pub proof fn law_requests_finish(s: RpcState, e: EventView)
    requires
        s.wf(),
        s.accepts(e),
    ensures
        s.stage is Idle ==> steps_left(s.next(e).0.stage) <= 6,
        !(s.stage is Idle) ==> steps_left(s.next(e).0.stage) < steps_left(s.stage),
        s.next(e).0.stage is Idle <==> s.next(e).1 is Finish,
{
}

/// Every step keeps the manager well formed.
pub proof fn law_steps_keep_wf(s: RpcState, e: EventView)
    requires
        s.wf(),
        s.accepts(e),
    ensures
        s.next(e).0.wf(),
{
}

/// The activity of the update under way, or of the update that `e` requests.
pub open spec fn request_activity(s: RpcState, e: EventView) -> Option<ActivityView> {
    match s.stage {
        StageView::Idle => match e {
            EventView::Update(_, a) => Some(a),
            _ => None,
        },
        StageView::ClearingOld { activity, .. } => Some(activity),
        StageView::Connecting { activity, .. } => Some(activity),
        StageView::Setting { activity, .. } => Some(activity),
        StageView::Clearing => None,
    }
}

/// How many more times an update may still set its activity, by where it stands.
pub open spec fn sets_left(stage: StageView) -> nat {
    match stage {
        StageView::ClearingOld { retry, .. } => if retry {
            1
        } else {
            2
        },
        StageView::Connecting { retry, .. } => if retry {
            1
        } else {
            2
        },
        StageView::Setting { retry, .. } => if retry {
            0
        } else {
            1
        },
        _ => 0,
    }
}

/// Whether a request has already set its activity once and failed.
pub open spec fn retrying(stage: StageView) -> bool {
    match stage {
        StageView::ClearingOld { retry, .. } => retry,
        StageView::Connecting { retry, .. } => retry,
        StageView::Setting { retry, .. } => retry,
        _ => false,
    }
}

/// An update sets the activity it was asked to show, and no other; the update
/// keeps carrying that activity until it is answered.
pub proof fn law_update_sets_its_activity(s: RpcState, e: EventView)
    requires
        s.wf(),
        s.accepts(e),
    ensures
        s.next(e).1 is SetActivity ==> request_activity(s, e) == Some(s.next(e).1->SetActivity_0),
        s.next(e).1 is SetActivity <==> s.next(e).0.stage is Setting,
        !(s.next(e).0.stage is Idle) && !(s.next(e).0.stage is Clearing) ==> request_activity(
            s,
            e,
        ) is Some && request_activity(
            s.next(e).0,
            EventView::Clear,
        ) == request_activity(s, e),
{
}

/// An update sets its activity at most twice, the second time only after the
/// first failed, dropped the client and a new one connected.
pub proof fn law_update_sets_at_most_twice(s: RpcState, e: EventView)
    requires
        s.wf(),
        s.accepts(e),
    ensures
        ({
            let (t, a) = s.next(e);
            let used: nat = if a is SetActivity {
                1
            } else {
                0
            };
            &&& s.stage is Idle ==> used + sets_left(t.stage) <= 2
            &&& !(s.stage is Idle) ==> used + sets_left(t.stage) <= sets_left(s.stage)
            &&& retrying(t.stage) ==> retrying(s.stage) || (s.stage is Setting
                && !s.stage->Setting_retry && e is Done && e->Done_0 is Err && !t.has_client)
            &&& (s.stage is Setting && s.stage->Setting_retry) ==> t.stage is Idle
        }),
{
}

} // verus!
