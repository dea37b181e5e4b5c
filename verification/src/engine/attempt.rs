//! One attempt of a tunnel: take a lease on a connection, open the forward on it, serve
//! until it ends, give the lease back.
use crate::direct::DirectConfig;
use crate::engine::pool::{COST_DIRECT, COST_STD_REVERSE};
use crate::engine::tunnel::{Effect, EffectView};
use crate::engine::SshCreds;
use crate::model::{StateView, TunnelError, TunnelKind, TunnelSpec, TunnelState};
use crate::ssh::Keepalive;
use crate::tunnel::{TunnelConfig, TunnelEvent};
use vstd::prelude::*;

verus! {

/// What an attempt sets up, by the shape of the tunnel, and what it costs a shared
/// connection.
#[allow(inconsistent_fields)]
#[derive(Debug)]
pub enum AttemptPlan {
    Reverse { cfg: TunnelConfig, cost: usize },
    Local { cfg: DirectConfig, target_host: String, target_port: u16, cost: usize },
    Dynamic { cfg: DirectConfig, cost: usize },
}

/// The keepalive of a tunnel comes from its policy.
pub open spec fn keepalive_of(spec: TunnelSpec) -> Keepalive {
    Keepalive { interval: spec.policy.keepalive, max: spec.policy.keepalive_max }
}

/// The connection of a local or dynamic tunnel that listens on `bind:port`.
pub open spec fn direct_config(
    spec: TunnelSpec,
    creds: SshCreds,
    bind: String,
    port: u16,
) -> DirectConfig {
    DirectConfig {
        server_host: creds.host,
        server_port: creds.port,
        username: creds.username,
        auth: creds.auth,
        listen_host: bind,
        listen_port: port,
        keepalive: keepalive_of(spec),
    }
}

/// What an attempt sets up. `landing` is where a reverse tunnel lands.
pub open spec fn plan_of(
    spec: TunnelSpec,
    creds: SshCreds,
    landing: Option<(String, u16)>,
) -> AttemptPlan {
    match spec.kind {
        TunnelKind::Reverse { bind, port } => AttemptPlan::Reverse {
            cfg: TunnelConfig {
                server_host: creds.host,
                server_port: creds.port,
                username: creds.username,
                auth: creds.auth,
                remote_port: port as u32,
                local_proxy_host: landing.unwrap().0,
                local_proxy_port: landing.unwrap().1,
                keepalive: keepalive_of(spec),
            },
            cost: COST_STD_REVERSE,
        },
        TunnelKind::Local { bind, port, target_host, target_port } => AttemptPlan::Local {
            cfg: direct_config(spec, creds, bind, port),
            target_host,
            target_port,
            cost: COST_DIRECT,
        },
        TunnelKind::Dynamic { bind, port } => AttemptPlan::Dynamic {
            cfg: direct_config(spec, creds, bind, port),
            cost: COST_DIRECT,
        },
    }
}

/// Works out what an attempt sets up. A reverse tunnel's landing is resolved before its
/// first attempt.
pub fn plan(spec: &TunnelSpec, creds: &SshCreds, landing: &Option<(String, u16)>) -> (r:
    AttemptPlan)
    requires
        spec.kind is Reverse ==> *landing is Some,
    ensures
        r == plan_of(*spec, *creds, *landing),
{
    let keepalive = Keepalive { interval: spec.policy.keepalive, max: spec.policy.keepalive_max };
    match &spec.kind {
        TunnelKind::Reverse { port, .. } => {
            let (local_proxy_host, local_proxy_port) = match landing {
                Some(l) => (l.0.clone(), l.1),
                None => (String::new(), 0),
            };
            AttemptPlan::Reverse {
                cfg: TunnelConfig {
                    server_host: creds.host.clone(),
                    server_port: creds.port,
                    username: creds.username.clone(),
                    auth: creds.auth.clone(),
                    remote_port: *port as u32,
                    local_proxy_host,
                    local_proxy_port,
                    keepalive,
                },
                cost: COST_STD_REVERSE,
            }
        },
        TunnelKind::Local { bind, port, target_host, target_port } => AttemptPlan::Local {
            cfg: direct(creds, bind, *port, keepalive),
            target_host: target_host.clone(),
            target_port: *target_port,
            cost: COST_DIRECT,
        },
        TunnelKind::Dynamic { bind, port } => AttemptPlan::Dynamic {
            cfg: direct(creds, bind, *port, keepalive),
            cost: COST_DIRECT,
        },
    }
}

fn direct(creds: &SshCreds, bind: &String, port: u16, keepalive: Keepalive) -> (r: DirectConfig)
    ensures
        r == (DirectConfig {
            server_host: creds.host,
            server_port: creds.port,
            username: creds.username,
            auth: creds.auth,
            listen_host: *bind,
            listen_port: port,
            keepalive,
        }),
{
    DirectConfig {
        server_host: creds.host.clone(),
        server_port: creds.port,
        username: creds.username.clone(),
        auth: creds.auth.clone(),
        listen_host: bind.clone(),
        listen_port: port,
        keepalive,
    }
}

/// What an attempt hears.
pub enum AttemptEvent {
    /// The pool granted a lease.
    Leased,
    /// The connection could not be made.
    LeaseDenied(TunnelError),
    /// The forward of a local or dynamic tunnel stands.
    Opened,
    /// The forward of a local or dynamic tunnel cannot be opened.
    OpenFailed(TunnelError),
    /// The session of a reverse tunnel reports something.
    Session(TunnelEvent),
    /// Serving is over: for a reverse tunnel with its result.
    Served(Result<(), TunnelError>),
}

/// What an attempt asks for.
#[derive(Debug, PartialEq, Eq)]
pub enum AttemptAction {
    /// Run the reverse tunnel on the leased connection until it ends.
    ServeReverse,
    /// Open the listener of a local or dynamic tunnel.
    OpenForward,
    /// Put the session into its slot.
    FillSlot,
    /// Note the time: the tunnel is up.
    MarkAlive,
    /// Make an effect visible.
    Emit(Effect),
    /// Serve the listener until the session ends.
    AwaitForward,
    /// Write the server's port back into the tunnel.
    Backfill(u16),
    /// Take the session out of its slot, if it is still there, and undo its forward.
    TeardownSlot,
    /// Empty the session's slot.
    EmptySlot,
    /// Give the lease back.
    CloseLease,
}

/// An action as a mathematical value.
pub enum ActionView {
    ServeReverse,
    OpenForward,
    FillSlot,
    MarkAlive,
    Emit(EffectView),
    AwaitForward,
    Backfill(u16),
    TeardownSlot,
    EmptySlot,
    CloseLease,
}

impl View for AttemptAction {
    type V = ActionView;

    open spec fn view(&self) -> ActionView {
        match self {
            AttemptAction::ServeReverse => ActionView::ServeReverse,
            AttemptAction::OpenForward => ActionView::OpenForward,
            AttemptAction::FillSlot => ActionView::FillSlot,
            AttemptAction::MarkAlive => ActionView::MarkAlive,
            AttemptAction::Emit(e) => ActionView::Emit(e@),
            AttemptAction::AwaitForward => ActionView::AwaitForward,
            AttemptAction::Backfill(p) => ActionView::Backfill(*p),
            AttemptAction::TeardownSlot => ActionView::TeardownSlot,
            AttemptAction::EmptySlot => ActionView::EmptySlot,
            AttemptAction::CloseLease => ActionView::CloseLease,
        }
    }
}

/// The actions of an executable vector.
pub open spec fn actions(v: Seq<AttemptAction>) -> Seq<ActionView> {
    v.map_values(|a: AttemptAction| a@)
}

/// Where an attempt stands.
#[derive(Debug, Clone, Copy, PartialEq, Eq, Structural)]
pub enum Phase {
    /// Waiting for a lease.
    Acquiring,
    /// Waiting for the forward of a local or dynamic tunnel.
    Opening,
    /// Serving.
    Serving,
    /// Over.
    Ended,
}

/// What one event does to an attempt: the next phase, the actions, and the attempt's result
/// where it is over.
pub struct AttemptStep {
    pub phase: Phase,
    pub actions: Seq<ActionView>,
    pub result: Option<Result<(), TunnelError>>,
}

/// The actions by which a tunnel shows that it is up.
pub open spec fn up_actions() -> Seq<ActionView> {
    seq![
        ActionView::MarkAlive,
        ActionView::Emit(EffectView::State(StateView::Running)),
        ActionView::Emit(EffectView::Status("connected"@, None)),
    ]
}

/// What an event does to an attempt of a reverse tunnel, or of another one. An event that
/// does not belong to the phase does nothing.
pub open spec fn attempt_next(reverse: bool, phase: Phase, event: AttemptEvent) -> AttemptStep {
    let idle = AttemptStep { phase, actions: seq![], result: None };
    match (phase, event) {
        (Phase::Acquiring, AttemptEvent::LeaseDenied(e)) => AttemptStep {
            phase: Phase::Ended,
            actions: seq![],
            result: Some(Err(e)),
        },
        (Phase::Acquiring, AttemptEvent::Leased) => if reverse {
            AttemptStep {
                phase: Phase::Serving,
                actions: seq![ActionView::ServeReverse],
                result: None,
            }
        } else {
            AttemptStep {
                phase: Phase::Opening,
                actions: seq![ActionView::OpenForward],
                result: None,
            }
        },
        (Phase::Opening, AttemptEvent::OpenFailed(e)) => AttemptStep {
            phase: Phase::Ended,
            actions: seq![ActionView::CloseLease],
            result: Some(Err(e)),
        },
        (Phase::Opening, AttemptEvent::Opened) => AttemptStep {
            phase: Phase::Serving,
            actions: seq![ActionView::FillSlot] + up_actions() + seq![ActionView::AwaitForward],
            result: None,
        },
        (Phase::Serving, AttemptEvent::Session(TunnelEvent::Connected)) => if reverse {
            AttemptStep { phase, actions: up_actions(), result: None }
        } else {
            idle
        },
        (Phase::Serving, AttemptEvent::Session(TunnelEvent::BoundPort(p))) => if reverse {
            AttemptStep { phase, actions: seq![ActionView::Backfill(p)], result: None }
        } else {
            idle
        },
        (Phase::Serving, AttemptEvent::Served(r)) => AttemptStep {
            phase: Phase::Ended,
            actions: if reverse {
                seq![ActionView::TeardownSlot, ActionView::CloseLease]
            } else {
                seq![ActionView::EmptySlot, ActionView::CloseLease]
            },
            result: if reverse {
                Some(r)
            } else {
                Some(Ok(()))
            },
        },
        _ => idle,
    }
}

/// One attempt of a tunnel.
pub struct Attempt {
    reverse: bool,
    phase: Phase,
}

impl Attempt {
    /// Whether the tunnel is a reverse one.
    pub closed spec fn is_reverse(&self) -> bool {
        self.reverse
    }

    /// Where the attempt stands.
    pub closed spec fn at(&self) -> Phase {
        self.phase
    }

    /// An attempt of `spec` that waits for its lease.
    pub fn new(spec: &TunnelSpec) -> (r: Self)
        ensures
            r.is_reverse() == (spec.kind is Reverse),
            r.at() == Phase::Acquiring,
    {
        let reverse = match &spec.kind {
            TunnelKind::Reverse { .. } => true,
            _ => false,
        };
        Attempt { reverse, phase: Phase::Acquiring }
    }

    fn put(out: &mut Vec<AttemptAction>, a: AttemptAction)
        ensures
            actions(final(out)@) == actions(old(out)@).push(a@),
    {
        let ghost before = out@;
        out.push(a);
        assert(actions(out@) =~= actions(before).push(a@));
    }

    fn put_up(out: &mut Vec<AttemptAction>)
        ensures
            actions(final(out)@) == actions(old(out)@) + up_actions(),
    {
        let ghost before = actions(out@);
        Self::put(out, AttemptAction::MarkAlive);
        Self::put(out, AttemptAction::Emit(Effect::State(TunnelState::Running)));
        Self::put(out, AttemptAction::Emit(Effect::Status("connected", None)));
        assert(actions(out@) =~= before + up_actions());
    }

    /// Takes an event and says what follows: the actions, in order, and the attempt's result
    /// where it is over.
    pub fn on_event(&mut self, event: AttemptEvent) -> (r: (
        Vec<AttemptAction>,
        Option<Result<(), TunnelError>>,
    ))
        ensures
            final(self).is_reverse() == old(self).is_reverse(),
            final(self).at() == attempt_next(old(self).is_reverse(), old(self).at(), event).phase,
            actions(r.0@) == attempt_next(old(self).is_reverse(), old(self).at(), event).actions,
            r.1 == attempt_next(old(self).is_reverse(), old(self).at(), event).result,
    {
        let ghost step = attempt_next(self.reverse, self.phase, event);
        let mut out: Vec<AttemptAction> = Vec::new();
        assert(actions(out@) =~= seq![]);
        let mut result: Option<Result<(), TunnelError>> = None;
        match self.phase {
            Phase::Acquiring => match event {
                AttemptEvent::LeaseDenied(e) => {
                    self.phase = Phase::Ended;
                    result = Some(Err(e));
                },
                AttemptEvent::Leased => {
                    if self.reverse {
                        self.phase = Phase::Serving;
                        Self::put(&mut out, AttemptAction::ServeReverse);
                    } else {
                        self.phase = Phase::Opening;
                        Self::put(&mut out, AttemptAction::OpenForward);
                    }
                },
                _ => {},
            },
            Phase::Opening => match event {
                AttemptEvent::OpenFailed(e) => {
                    self.phase = Phase::Ended;
                    Self::put(&mut out, AttemptAction::CloseLease);
                    result = Some(Err(e));
                },
                AttemptEvent::Opened => {
                    self.phase = Phase::Serving;
                    Self::put(&mut out, AttemptAction::FillSlot);
                    Self::put_up(&mut out);
                    Self::put(&mut out, AttemptAction::AwaitForward);
                },
                _ => {},
            },
            Phase::Serving => match event {
                AttemptEvent::Session(TunnelEvent::Connected) => {
                    if self.reverse {
                        Self::put_up(&mut out);
                    }
                },
                AttemptEvent::Session(TunnelEvent::BoundPort(p)) => {
                    if self.reverse {
                        Self::put(&mut out, AttemptAction::Backfill(p));
                    }
                },
                AttemptEvent::Served(r) => {
                    self.phase = Phase::Ended;
                    if self.reverse {
                        Self::put(&mut out, AttemptAction::TeardownSlot);
                        result = Some(r);
                    } else {
                        Self::put(&mut out, AttemptAction::EmptySlot);
                        result = Some(Ok(()));
                    }
                    Self::put(&mut out, AttemptAction::CloseLease);
                },
                _ => {},
            },
            Phase::Ended => {},
        }
        assert(actions(out@) =~= step.actions);
        (out, result)
    }
}

// ---------------------------------------------------------------- laws
/// The phase after a run of events.
pub open spec fn phase_after(reverse: bool, events: Seq<AttemptEvent>) -> Phase
    decreases events.len(),
{
    if events.len() == 0 {
        Phase::Acquiring
    } else {
        attempt_next(reverse, phase_after(reverse, events.drop_last()), events.last()).phase
    }
}

/// All actions of a run of events.
pub open spec fn actions_after(reverse: bool, events: Seq<AttemptEvent>) -> Seq<ActionView>
    decreases events.len(),
{
    if events.len() == 0 {
        seq![]
    } else {
        actions_after(reverse, events.drop_last()) + attempt_next(
            reverse,
            phase_after(reverse, events.drop_last()),
            events.last(),
        ).actions
    }
}

/// How often an attempt gave its lease back.
pub open spec fn leases_closed(acts: Seq<ActionView>) -> nat
    decreases acts.len(),
{
    if acts.len() == 0 {
        0
    } else {
        leases_closed(acts.drop_last()) + if acts.last() is CloseLease {
            1nat
        } else {
            0
        }
    }
}

/// How often an attempt was granted a lease: an attempt asks once.
pub open spec fn leases_taken(reverse: bool, events: Seq<AttemptEvent>) -> nat
    decreases events.len(),
{
    if events.len() == 0 {
        0
    } else {
        leases_taken(reverse, events.drop_last()) + if phase_after(reverse, events.drop_last())
            == Phase::Acquiring && events.last() is Leased {
            1nat
        } else {
            0
        }
    }
}

proof fn lemma_closed_append(a: Seq<ActionView>, b: Seq<ActionView>)
    ensures
        leases_closed(a + b) == leases_closed(a) + leases_closed(b),
    decreases b.len(),
{
    if b.len() == 0 {
        assert(a + b =~= a);
    } else {
        assert((a + b).drop_last() =~= a + b.drop_last());
        lemma_closed_append(a, b.drop_last());
    }
}

/// A lease is given back exactly once: whatever the events are, an attempt that is over has
/// closed as many leases as it took, and one that is not has closed none.
pub proof fn law_lease_closed_once(reverse: bool, events: Seq<AttemptEvent>)
    ensures
        leases_taken(reverse, events) <= 1,
        phase_after(reverse, events) == Phase::Ended ==> leases_closed(
            actions_after(reverse, events),
        ) == leases_taken(reverse, events),
        phase_after(reverse, events) != Phase::Ended ==> leases_closed(
            actions_after(reverse, events),
        ) == 0,
        phase_after(reverse, events) == Phase::Acquiring ==> leases_taken(reverse, events) == 0,
        (phase_after(reverse, events) == Phase::Opening || phase_after(reverse, events)
            == Phase::Serving) ==> leases_taken(reverse, events) == 1,
    decreases events.len(),
{
    if events.len() > 0 {
        let before = events.drop_last();
        law_lease_closed_once(reverse, before);
        let step = attempt_next(reverse, phase_after(reverse, before), events.last());
        lemma_closed_append(actions_after(reverse, before), step.actions);
        reveal_with_fuel(leases_closed, 7);
    }
}

/// A tunnel that works is shown as working: when the session of a reverse tunnel reports that it
/// stands, and when the forward of another tunnel is open, the time is noted, the state is
/// running and the status is connected. No other event does any of that.
pub proof fn law_standing_tunnel_is_shown(
    reverse: bool,
    phase: Phase,
    event: AttemptEvent,
)
    ensures
        ({
            let acts = attempt_next(reverse, phase, event).actions;
            let up = {
                ||| reverse && phase is Serving && event == AttemptEvent::Session(
                    TunnelEvent::Connected,
                )
                ||| phase is Opening && event is Opened
            };
            &&& up ==> acts.contains(ActionView::MarkAlive)
            &&& up ==> acts.contains(ActionView::Emit(EffectView::State(StateView::Running)))
            &&& up ==> acts.contains(ActionView::Emit(EffectView::Status("connected"@, None)))
            &&& up ==> attempt_next(reverse, phase, event).phase is Serving
            &&& !up ==> forall|i: int|
                0 <= i < acts.len() ==> !(#[trigger] acts[i] is Emit) && !(acts[i] is MarkAlive)
        }),
{
    let acts = attempt_next(reverse, phase, event).actions;
    if reverse && phase is Serving && event == AttemptEvent::Session(TunnelEvent::Connected) {
        assert(acts[0] == ActionView::MarkAlive);
        assert(acts[1] == ActionView::Emit(EffectView::State(StateView::Running)));
        assert(acts[2] == ActionView::Emit(EffectView::Status("connected"@, None)));
    }
    if phase is Opening && event is Opened {
        assert(acts[1] == ActionView::MarkAlive);
        assert(acts[2] == ActionView::Emit(EffectView::State(StateView::Running)));
        assert(acts[3] == ActionView::Emit(EffectView::Status("connected"@, None)));
    }
}

/// A lease is put to use at once: a reverse tunnel is served on it, another tunnel opens its
/// forward. A forward that is open is put into the slot before anything is shown, and is
/// awaited after that.
pub proof fn law_lease_is_used(reverse: bool, event: AttemptEvent)
    ensures
        event is Leased && reverse ==> {
            let step = attempt_next(reverse, Phase::Acquiring, event);
            step.phase is Serving && step.actions == seq![ActionView::ServeReverse] && step.result
                is None
        },
        event is Leased && !reverse ==> {
            let step = attempt_next(reverse, Phase::Acquiring, event);
            step.phase is Opening && step.actions == seq![ActionView::OpenForward] && step.result
                is None
        },
        event is Opened ==> {
            let acts = attempt_next(reverse, Phase::Opening, event).actions;
            acts.len() == 5 && acts[0] is FillSlot && acts[4] is AwaitForward
        },
{
}

/// An attempt ends with the reason it ended for: the connection that could not be made, the
/// forward that could not be opened, or what serving a reverse tunnel came to; serving another
/// tunnel ends without an error. Nothing else ends it, and an attempt that is over stays so.
pub proof fn law_attempt_ends_with_its_reason(reverse: bool, phase: Phase, event: AttemptEvent)
    ensures
        ({
            let step = attempt_next(reverse, phase, event);
            &&& phase is Acquiring && event is LeaseDenied ==> step.result == Some(
                Err::<(), TunnelError>(event->LeaseDenied_0),
            )
            &&& phase is Opening && event is OpenFailed ==> step.result == Some(
                Err::<(), TunnelError>(event->OpenFailed_0),
            )
            &&& phase is Serving && event is Served && reverse ==> step.result == Some(
                event->Served_0,
            )
            &&& phase is Serving && event is Served && !reverse ==> step.result == Some(
                Ok::<(), TunnelError>(()),
            )
            &&& step.result is Some <==> step.phase is Ended && !(phase is Ended)
            &&& step.result is Some ==> {
                ||| phase is Acquiring && event is LeaseDenied
                ||| phase is Opening && event is OpenFailed
                ||| phase is Serving && event is Served
            }
            &&& phase is Ended ==> step.phase is Ended && step.actions.len() == 0
        }),
{
}

/// The port that the server chose for a reverse tunnel is written back, and none but that. What
/// served is undone when serving is over: the forward of a reverse tunnel is torn down, the slot
/// of another one is emptied, and both give the lease back last.
pub proof fn law_reverse_port_and_teardown(reverse: bool, p: u16, r: Result<(), TunnelError>)
    ensures
        reverse ==> attempt_next(
            reverse,
            Phase::Serving,
            AttemptEvent::Session(TunnelEvent::BoundPort(p)),
        ).actions == seq![ActionView::Backfill(p)],
        attempt_next(reverse, Phase::Serving, AttemptEvent::Session(TunnelEvent::BoundPort(p))).phase
            is Serving,
        ({
            let acts = attempt_next(reverse, Phase::Serving, AttemptEvent::Served(r)).actions;
            &&& acts.len() == 2
            &&& reverse ==> acts[0] is TeardownSlot
            &&& !reverse ==> acts[0] is EmptySlot
            &&& acts[1] is CloseLease
        }),
{
}

/// A local or dynamic tunnel listens where its user said, whatever its target is. A local tunnel
/// goes to the target its user said.
pub proof fn law_tunnel_listens_where_asked(
    spec: TunnelSpec,
    creds: SshCreds,
    landing: Option<(String, u16)>,
)
    ensures
        spec.kind matches TunnelKind::Local { bind, port, target_host: h, target_port: t } ==> (
        plan_of(spec, creds, landing) matches AttemptPlan::Local {
            cfg,
            target_host,
            target_port,
            ..
        } && cfg.listen_host == bind && cfg.listen_port == port && target_host == h && target_port
            == t),
        spec.kind matches TunnelKind::Dynamic { bind, port } ==> (plan_of(
            spec,
            creds,
            landing,
        ) matches AttemptPlan::Dynamic { cfg, .. } && cfg.listen_host == bind && cfg.listen_port
            == port),
{
}

/// A reverse tunnel asks the server for the port its user said and lands where its landing is.
pub proof fn law_reverse_tunnel_lands_where_asked(
    spec: TunnelSpec,
    creds: SshCreds,
    host: String,
    port: u16,
)
    ensures
        spec.kind matches TunnelKind::Reverse { port: p, .. } ==> (plan_of(
            spec,
            creds,
            Some((host, port)),
        ) matches AttemptPlan::Reverse { cfg, .. } && cfg.remote_port == p && cfg.local_proxy_host
            == host && cfg.local_proxy_port == port),
{
}

/// Every tunnel connects to the server of its credentials, as their user and with their secret,
/// keeps the connection alive as its policy says, and costs a shared connection four sessions
/// as a reverse tunnel and two otherwise.
pub proof fn law_tunnel_connects_by_its_credentials(
    spec: TunnelSpec,
    creds: SshCreds,
    landing: Option<(String, u16)>,
)
    ensures
        match plan_of(spec, creds, landing) {
            AttemptPlan::Reverse { cfg, cost } => {
                &&& spec.kind is Reverse
                &&& cfg.server_host == creds.host && cfg.server_port == creds.port
                &&& cfg.username == creds.username && cfg.auth == creds.auth
                &&& cfg.keepalive.interval == spec.policy.keepalive
                &&& cfg.keepalive.max == spec.policy.keepalive_max
                &&& cost == 4
            },
            AttemptPlan::Local { cfg, cost, .. } => {
                &&& spec.kind is Local
                &&& cfg.server_host == creds.host && cfg.server_port == creds.port
                &&& cfg.username == creds.username && cfg.auth == creds.auth
                &&& cfg.keepalive.interval == spec.policy.keepalive
                &&& cfg.keepalive.max == spec.policy.keepalive_max
                &&& cost == 2
            },
            AttemptPlan::Dynamic { cfg, cost } => {
                &&& spec.kind is Dynamic
                &&& cfg.server_host == creds.host && cfg.server_port == creds.port
                &&& cfg.username == creds.username && cfg.auth == creds.auth
                &&& cfg.keepalive.interval == spec.policy.keepalive
                &&& cfg.keepalive.max == spec.policy.keepalive_max
                &&& cost == 2
            },
        },
{
}

/// An action is the one that is carried out: it emits its effect, it writes back its port, and
/// the others are told apart.
pub proof fn law_action_is_carried_out_as_it_is(e: Effect, port: u16)
    ensures
        AttemptAction::Emit(e)@ == ActionView::Emit(e@),
        AttemptAction::Backfill(port)@ == ActionView::Backfill(port),
        AttemptAction::ServeReverse@ is ServeReverse,
        AttemptAction::OpenForward@ is OpenForward,
        AttemptAction::FillSlot@ is FillSlot,
        AttemptAction::MarkAlive@ is MarkAlive,
        AttemptAction::AwaitForward@ is AwaitForward,
        AttemptAction::TeardownSlot@ is TeardownSlot,
        AttemptAction::EmptySlot@ is EmptySlot,
        AttemptAction::CloseLease@ is CloseLease,
{
}

} // verus!
