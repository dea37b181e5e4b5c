//! Reverse tunnels (`ssh -R`): which transport a tunnel uses, and how a running one is
//! watched.
//!
//! The standard transport is tried first. Where forwarded channels are tampered with, or the
//! forward cannot be had, the tunnel changes to the compatibility transport on the same
//! connection, because others may be using it.
use crate::model;
use crate::model::TunnelError;
use crate::ssh::{AuthMethod, Keepalive};
use crate::transport::shared::RouteMap;
use vstd::prelude::*;

verus! {

broadcast use vstd::std_specs::hash::group_hash_axioms;

/// What a reverse tunnel needs to connect.
#[derive(Debug)]
pub struct TunnelConfig {
    pub server_host: String,
    pub server_port: u16,
    pub username: String,
    pub auth: AuthMethod,
    /// The port the server listens on; zero lets the server choose.
    pub remote_port: u32,
    /// Where the traffic lands on this machine.
    pub local_proxy_host: String,
    pub local_proxy_port: u16,
    pub keepalive: Keepalive,
}

/// What the engine hears of a running reverse tunnel.
#[derive(Debug, Clone, Copy, PartialEq, Eq, Structural)]
pub enum TunnelEvent {
    /// The session stands and serves.
    Connected,
    /// The port the server really listens on, where it is not the requested one.
    BoundPort(u16),
}

// ---------------------------------------------------------------- sessions
/// How a reverse tunnel is served.
#[derive(Debug, Clone, Copy, PartialEq, Eq, Structural)]
pub enum ReverseMode {
    /// By the server's own forwarding, on this port.
    Std { bound_port: u16 },
    /// By the helper on a session channel.
    Compat,
}

/// What undoing a tunnel's forward takes.
#[derive(Debug, Clone, Copy, PartialEq, Eq, Structural)]
pub enum Teardown {
    /// Cancel the server's listener on `localhost` and this port.
    CancelForward(u16),
    /// Stop the two tasks of the helper's channel.
    AbortHelper,
}

impl ReverseMode {
    /// Undoes the forward and nothing else: the connection may have other users. A standard
    /// forward also loses its route.
    pub fn teardown(self, routes: &mut RouteMap) -> (r: Teardown)
        ensures
            match self {
                ReverseMode::Std { bound_port } => r == Teardown::CancelForward(bound_port)
                    && final(routes)@ == old(routes)@.remove(bound_port),
                ReverseMode::Compat => r == Teardown::AbortHelper && final(routes)@
                    == old(routes)@,
            },
    {
        match self {
            ReverseMode::Std { bound_port } => {
                routes.remove(&bound_port);
                Teardown::CancelForward(bound_port)
            },
            ReverseMode::Compat => Teardown::AbortHelper,
        }
    }
}

// ---------------------------------------------------------------- choosing a transport
/// What establishing a tunnel asks for next.
#[derive(Debug, PartialEq, Eq)]
pub enum EstablishAction {
    /// Set a standard forward up.
    TryStandard,
    /// Start the helper.
    OpenHelper,
    /// Undo the standard forward on this port, then start the helper.
    SwitchToHelper(u16),
    /// The tunnel stands, and the server listens on this port.
    Standing { mode: ReverseMode, bound_port: u16 },
}

/// The first step: a connection whose forwarded channels were found tampered with gets the
/// helper at once.
pub open spec fn first_step(corrupted: bool) -> EstablishAction {
    if corrupted {
        EstablishAction::OpenHelper
    } else {
        EstablishAction::TryStandard
    }
}

/// The step after the standard forward was tried.
pub open spec fn step_after_standard(
    outcome: Result<u16, TunnelError>,
    corrupted: bool,
) -> EstablishAction {
    match outcome {
        Ok(p) => if corrupted {
            EstablishAction::SwitchToHelper(p)
        } else {
            EstablishAction::Standing { mode: ReverseMode::Std { bound_port: p }, bound_port: p }
        },
        Err(_) => EstablishAction::OpenHelper,
    }
}

/// Begins. Comes with the line to log, if there is one.
pub fn establish_first(corrupted: bool) -> (r: (EstablishAction, Option<String>))
    ensures
        r.0 == first_step(corrupted),
        if corrupted {
            r.1 matches Some(s) && s@ == "本连接已检测过转发通道注入, 直接使用兼容模式"@
        } else {
            r.1 is None
        },
{
    if corrupted {
        (
            EstablishAction::OpenHelper,
            Some("本连接已检测过转发通道注入, 直接使用兼容模式".to_owned()),
        )
    } else {
        (EstablishAction::TryStandard, None)
    }
}

/// Takes the outcome of the standard forward, and whether channels were found tampered with
/// in the meantime.
pub fn establish_after_standard(outcome: &Result<u16, TunnelError>, corrupted: bool) -> (r: (
    EstablishAction,
    Option<String>,
))
    ensures
        r.0 == step_after_standard(*outcome, corrupted),
        match outcome {
            Ok(_) => if corrupted {
                r.1 matches Some(s) && s@
                    == "探测确认转发通道被注入审计数据 (常见于云主机安全组件), 同连接切换兼容模式..."@
            } else {
                r.1 is None
            },
            Err(e) => r.1 matches Some(s) && s@ == "标准转发模式不可用 ("@ + model::error_text(*e)
                + "), 同连接改用兼容模式"@,
        },
{
    match outcome {
        Ok(p) => if corrupted {
            (
                EstablishAction::SwitchToHelper(*p),
                Some(
                    "探测确认转发通道被注入审计数据 (常见于云主机安全组件), 同连接切换兼容模式...".to_owned(),
                ),
            )
        } else {
            (
                EstablishAction::Standing {
                    mode: ReverseMode::Std { bound_port: *p },
                    bound_port: *p,
                },
                None,
            )
        },
        Err(e) => {
            let mut s = "标准转发模式不可用 (".to_owned();
            s.append(e.to_string().as_str());
            s.append("), 同连接改用兼容模式");
            (EstablishAction::OpenHelper, Some(s))
        },
    }
}

/// The step after the helper was tried.
pub open spec fn step_after_helper(outcome: Result<u16, TunnelError>) -> Result<
    EstablishAction,
    TunnelError,
> {
    match outcome {
        Ok(p) => Ok(EstablishAction::Standing { mode: ReverseMode::Compat, bound_port: p }),
        Err(e) => Err(e),
    }
}

/// Takes the outcome of the helper: the tunnel stands, or it cannot be had.
pub fn establish_after_helper(outcome: Result<u16, TunnelError>) -> (r: Result<
    EstablishAction,
    TunnelError,
>)
    ensures
        r == step_after_helper(outcome),
{
    match outcome {
        Ok(p) => Ok(EstablishAction::Standing { mode: ReverseMode::Compat, bound_port: p }),
        Err(e) => Err(e),
    }
}

// ---------------------------------------------------------------- watching a session
/// What the watch over a session asks for.
#[derive(Debug, Clone, Copy, PartialEq, Eq, Structural)]
pub enum WatchAction {
    /// Undo the forward that was just set up.
    Undo,
    /// Report an event.
    Report(TunnelEvent),
    /// Put the session into its slot.
    FillSlot,
    /// Take the session out of its slot and undo its forward, then start the helper.
    Rebuild,
    /// Look again in half a second.
    Sleep,
    /// Look again at once.
    LookAgain,
    /// The session is over.
    Exit,
}

/// What the watch sees when it looks.
#[derive(Debug, Clone, Copy, PartialEq, Eq, Structural)]
pub struct Sighting {
    /// The user asked to stop.
    pub stop: bool,
    /// The session is in its slot; nobody took it away.
    pub in_slot: bool,
    /// The connection is closed.
    pub closed: bool,
    /// The connection's forwarded channels were found tampered with.
    pub corrupted: bool,
}

/// The reports of a session that stands on `bound`: the port, where it is not the requested
/// one, and that it is up.
pub open spec fn standing_actions(requested: u32, bound: u16) -> Seq<WatchAction> {
    if bound != requested as u16 {
        seq![
            WatchAction::Report(TunnelEvent::BoundPort(bound)),
            WatchAction::FillSlot,
            WatchAction::Report(TunnelEvent::Connected),
        ]
    } else {
        seq![WatchAction::FillSlot, WatchAction::Report(TunnelEvent::Connected)]
    }
}

/// What the watch does about what it sees. A session changes to the helper once at most.
pub open spec fn watch_next(rebuilt: bool, seen: Sighting) -> WatchAction {
    if seen.stop || !seen.in_slot || seen.closed {
        WatchAction::Exit
    } else if seen.corrupted && !rebuilt {
        WatchAction::Rebuild
    } else {
        WatchAction::Sleep
    }
}

/// The watch over one session of a reverse tunnel.
pub struct SessionWatch {
    requested: u32,
    rebuilt: bool,
}

impl SessionWatch {
    /// The requested port.
    pub closed spec fn requested(&self) -> u32 {
        self.requested
    }

    /// Whether the session is served by the helper, so that it will not change any more.
    pub closed spec fn rebuilt(&self) -> bool {
        self.rebuilt
    }

    fn standing(requested: u32, bound_port: u16) -> (r: Vec<WatchAction>)
        ensures
            r@ == standing_actions(requested, bound_port),
    {
        let mut out: Vec<WatchAction> = Vec::new();
        #[verifier::truncate]
        let port = requested as u16;
        if bound_port != port {
            out.push(WatchAction::Report(TunnelEvent::BoundPort(bound_port)));
        }
        out.push(WatchAction::FillSlot);
        out.push(WatchAction::Report(TunnelEvent::Connected));
        assert(out@ =~= standing_actions(requested, bound_port));
        out
    }

    /// The watch over a session that was just established, and what it asks for first. A stop
    /// that came in the meantime undoes the session at once.
    pub fn new(cfg: &TunnelConfig, mode: ReverseMode, bound_port: u16, stop: bool) -> (r: (
        Self,
        Vec<WatchAction>,
    ))
        ensures
            r.0.requested() == cfg.remote_port,
            r.0.rebuilt() == (mode is Compat),
            r.1@ == if stop {
                seq![WatchAction::Undo, WatchAction::Exit]
            } else {
                standing_actions(cfg.remote_port, bound_port)
            },
    {
        let rebuilt = match mode {
            ReverseMode::Compat => true,
            ReverseMode::Std { .. } => false,
        };
        let watch = SessionWatch { requested: cfg.remote_port, rebuilt };
        if stop {
            let mut out: Vec<WatchAction> = Vec::new();
            out.push(WatchAction::Undo);
            out.push(WatchAction::Exit);
            assert(out@ =~= seq![WatchAction::Undo, WatchAction::Exit]);
            (watch, out)
        } else {
            (watch, Self::standing(cfg.remote_port, bound_port))
        }
    }

    /// Takes what is seen. Comes with the line to log, if there is one.
    pub fn on_look(&mut self, seen: Sighting) -> (r: (WatchAction, Option<String>))
        ensures
            final(self).requested() == old(self).requested(),
            r.0 == watch_next(old(self).rebuilt(), seen),
            final(self).rebuilt() == (old(self).rebuilt() || r.0 is Rebuild),
            match r.1 {
                Some(s) => r.0 is Rebuild && s@
                    == "标准转发通道运行期检测到注入, 同连接重建为兼容模式..."@,
                None => !(r.0 is Rebuild),
            },
    {
        if seen.stop || !seen.in_slot || seen.closed {
            (WatchAction::Exit, None)
        } else if seen.corrupted && !self.rebuilt {
            self.rebuilt = true;
            (
                WatchAction::Rebuild,
                Some("标准转发通道运行期检测到注入, 同连接重建为兼容模式...".to_owned()),
            )
        } else {
            (WatchAction::Sleep, None)
        }
    }

    /// Takes the outcome of the helper that was started in place of the standard forward.
    pub fn on_rebuilt(&self, outcome: Result<u16, TunnelError>) -> (r: Result<
        Vec<WatchAction>,
        TunnelError,
    >)
        ensures
            match outcome {
                Ok(p) => r matches Ok(v) && v@ == standing_actions(self.requested(), p).push(
                    WatchAction::LookAgain,
                ),
                Err(e) => r matches Err(f) && f == e,
            },
    {
        match outcome {
            Ok(p) => {
                let mut out = Self::standing(self.requested, p);
                out.push(WatchAction::LookAgain);
                Ok(out)
            },
            Err(e) => Err(e),
        }
    }
}

// ---------------------------------------------------------------- laws
/// How often a watch changes to the helper while it sees what is in `seen`.
pub open spec fn rebuilds(rebuilt: bool, seen: Seq<Sighting>) -> nat
    decreases seen.len(),
{
    if seen.len() == 0 {
        0
    } else {
        let now = watch_next(rebuilt, seen[0]) is Rebuild;
        (if now {
            1nat
        } else {
            0
        }) + rebuilds(rebuilt || now, seen.drop_first())
    }
}

/// Whatever a watch sees, its session changes to the helper once at most, and not at all
/// where the helper serves it already.
pub proof fn law_rebuilt_once(rebuilt: bool, seen: Seq<Sighting>)
    ensures
        rebuilds(rebuilt, seen) <= 1,
        rebuilt ==> rebuilds(rebuilt, seen) == 0,
    decreases seen.len(),
{
    if seen.len() > 0 {
        let now = watch_next(rebuilt, seen[0]) is Rebuild;
        law_rebuilt_once(rebuilt || now, seen.drop_first());
    }
}

/// How a tunnel comes to stand, given what the standard forward and the helper come to and
/// whether the connection is found tampered with before and after the forward is tried.
pub open spec fn established(
    before: bool,
    standard: Result<u16, TunnelError>,
    after: bool,
    helper: Result<u16, TunnelError>,
) -> Result<EstablishAction, TunnelError> {
    if first_step(before) is OpenHelper {
        step_after_helper(helper)
    } else if step_after_standard(standard, after) is Standing {
        Ok(step_after_standard(standard, after))
    } else {
        step_after_helper(helper)
    }
}

/// No tunnel is served by the standard forward of a connection that was found tampered with;
/// a tunnel fails only where the helper fails too; and a forward that works on a clean
/// connection is used.
pub proof fn law_tampering_brings_the_helper(
    before: bool,
    standard: Result<u16, TunnelError>,
    after: bool,
    helper: Result<u16, TunnelError>,
)
    ensures
        before || after ==> match established(before, standard, after, helper) {
            Ok(a) => a matches EstablishAction::Standing { mode: ReverseMode::Compat, .. },
            Err(e) => helper == Err::<u16, TunnelError>(e),
        },
        established(before, standard, after, helper) is Err ==> helper is Err,
        !before && !after && standard is Ok ==> established(before, standard, after, helper) == Ok::<
            EstablishAction,
            TunnelError,
        >(
            EstablishAction::Standing {
                mode: ReverseMode::Std { bound_port: standard->Ok_0 },
                bound_port: standard->Ok_0,
            },
        ),
{
}

/// The steps by which a reverse tunnel comes to stand. A connection that was found tampered with
/// gets the helper; any other one is tried by the standard forward first. A forward that stands
/// is used on its port, unless tampering came to light: then that very forward is undone for the
/// helper. A forward that fails is replaced by the helper. What the helper comes to is what the
/// tunnel comes to.
pub proof fn law_steps_to_a_standing_tunnel(
    corrupted: bool,
    outcome: Result<u16, TunnelError>,
)
    ensures
        first_step(true) is OpenHelper,
        first_step(false) is TryStandard,
        match outcome {
            Ok(p) => {
                &&& step_after_standard(outcome, true) == EstablishAction::SwitchToHelper(p)
                &&& step_after_standard(outcome, false) matches EstablishAction::Standing {
                    mode: ReverseMode::Std { bound_port: a },
                    bound_port: b,
                } && a == p && b == p
                &&& step_after_helper(outcome) matches Ok(EstablishAction::Standing {
                    mode: ReverseMode::Compat,
                    bound_port: b,
                }) && b == p
            },
            Err(e) => {
                &&& step_after_standard(outcome, corrupted) is OpenHelper
                &&& step_after_helper(outcome) == Err::<EstablishAction, TunnelError>(e)
            },
        },
{
}

/// A session that stands is put into its slot and reported as up, in this order. The port is
/// reported exactly where the server listens on another one than was requested.
pub proof fn law_standing_session_is_reported(requested: u32, bound: u16)
    ensures
        ({
            let acts = standing_actions(requested, bound);
            &&& acts.len() >= 2
            &&& acts[acts.len() - 2] is FillSlot
            &&& acts.last() == WatchAction::Report(TunnelEvent::Connected)
            &&& requested == bound ==> acts.len() == 2
            &&& requested <= u16::MAX && requested != bound ==> acts.len() == 3 && acts[0]
                == WatchAction::Report(TunnelEvent::BoundPort(bound))
            &&& forall|i: int|
                0 <= i < acts.len() ==> (#[trigger] acts[i] matches WatchAction::Report(
                    TunnelEvent::BoundPort(p),
                ) ==> p == bound)
        }),
{
}

/// A session lasts exactly as long as nobody stops it, nobody takes it away and its connection
/// stands. While it lasts, tampering brings the helper in, unless it serves already; otherwise
/// the watch goes on.
pub proof fn law_session_is_watched(rebuilt: bool, seen: Sighting)
    ensures
        watch_next(rebuilt, seen) is Exit <==> seen.stop || !seen.in_slot || seen.closed,
        watch_next(rebuilt, seen) is Rebuild <==> !seen.stop && seen.in_slot && !seen.closed
            && seen.corrupted && !rebuilt,
        watch_next(rebuilt, seen) is Sleep <==> !seen.stop && seen.in_slot && !seen.closed && !(
        seen.corrupted && !rebuilt),
{
}

} // verus!
