//! Standard transport: the server's own port forwarding.
//!
//! A forward is requested, then probed: the server connects once to its own port and writes
//! a byte, which brings to light whether the port works and whether somebody tampers with
//! forwarded channels. Other tunnels may use the same connection, so whatever fails, no
//! route and no listener is left behind.
use crate::model::TunnelError;
use crate::text;
use crate::text::{contains, decimal_text, text_of, trim};
use crate::transport::shared;
use crate::transport::shared::{ChannelCount, ChannelGuard, Landing, RouteMap};
use crate::tunnel::TunnelConfig;
use vstd::prelude::*;

verus! {

broadcast use vstd::std_specs::hash::group_hash_axioms;

/// The routes with that of the requested port, which is known before the server listens. A
/// port that the server is to choose is known to nobody yet.
pub open spec fn registered(m: Map<u16, Landing>, requested: u32, landing: Landing) -> Map<
    u16,
    Landing,
> {
    if requested != 0 {
        m.insert(requested as u16, landing)
    } else {
        m
    }
}

/// The routes once the server listens on `bound`.
pub open spec fn rebound(
    m: Map<u16, Landing>,
    requested: u32,
    bound: u16,
    landing: Landing,
) -> Map<u16, Landing> {
    if bound == requested as u16 {
        m
    } else if requested != 0 {
        m.remove(requested as u16).insert(bound, landing)
    } else {
        m.insert(bound, landing)
    }
}

/// The routes after a failure.
pub open spec fn cleaned(m: Map<u16, Landing>, requested: u32, bound: Option<u16>) -> Map<
    u16,
    Landing,
> {
    let a = if requested != 0 {
        m.remove(requested as u16)
    } else {
        m
    };
    match bound {
        Some(b) => a.remove(b),
        None => a,
    }
}

/// The command by which the server probes its own port.
pub open spec fn probe_command_of(bound: u16) -> Seq<char> {
    "exec 3<>/dev/tcp/127.0.0.1/"@ + text::decimal(bound as nat)
        + " && echo PROBE_OK && echo X >&3 || echo PROBE_FAIL"@
}

/// The line that tells of a port the server listens on.
pub open spec fn listening_line(bound: u16, local_port: u16) -> Seq<char> {
    "服务器已监听 127.0.0.1:"@ + text::decimal(bound as nat) + " (转发到 127.0.0.1:"@
        + text::decimal(local_port as nat) + ")"@
}

/// Where the setup of a forward stands.
#[derive(Debug, Clone, Copy, PartialEq, Eq, Structural)]
pub enum ForwardPhase {
    /// The forward is requested.
    Requesting,
    /// A channel for the probe is being opened.
    Opening,
    /// The probe is being started.
    Starting,
    /// The probe's output is awaited.
    Probing,
    Ended,
}

/// How many channels the setup holds open: the probe's, once it is open and as long as it runs.
pub open spec fn held(phase: ForwardPhase) -> int {
    if phase is Starting || phase is Probing {
        1
    } else {
        0
    }
}

/// Whether the open channels changed by just what the setup holds, from one phase to the next.
pub open spec fn balanced(
    before: ChannelCount,
    was: ForwardPhase,
    after: ChannelCount,
    now: ForwardPhase,
) -> bool {
    &&& after.open - held(now) == before.open - held(was)
    &&& after.budget == before.budget
}

/// What the setup of a forward asks for next.
#[derive(Debug, PartialEq, Eq)]
pub enum ForwardAction {
    /// Open a session channel for the probe.
    OpenProbe,
    /// Run this command on it.
    ExecProbe(String),
    /// Give it two seconds, then read its output for at most five.
    ReadProbe,
    /// The forward serves on this port.
    Ready(u16),
    /// The forward cannot be had. Where a port is named, its listener is to be cancelled.
    Fail { error: TunnelError, cancel: Option<u16> },
}

/// The setup of one reverse forward on a connection.
pub struct ForwardSetup {
    requested: u32,
    landing: Landing,
    bound: Option<u16>,
    phase: ForwardPhase,
}

impl ForwardSetup {
    /// The requested port.
    pub closed spec fn requested(&self) -> u32 {
        self.requested
    }

    /// Where the forward lands.
    pub closed spec fn landing(&self) -> Landing {
        self.landing
    }

    /// The port the server listens on, once it does.
    pub closed spec fn bound(&self) -> Option<u16> {
        self.bound
    }

    /// Where the setup stands.
    pub closed spec fn at(&self) -> ForwardPhase {
        self.phase
    }

    /// The setup goes on in `phase` and is otherwise the same.
    pub open spec fn moved(&self, was: &Self, phase: ForwardPhase) -> bool {
        &&& self.requested() == was.requested()
        &&& self.landing() == was.landing()
        &&& self.bound() == was.bound()
        &&& self.at() == phase
    }

    /// Begins the setup: a requested port is routed before the server listens on it, so that
    /// the first connection finds its route.
    pub fn new(cfg: &TunnelConfig, routes: &mut RouteMap) -> (r: Self)
        ensures
            r.requested() == cfg.remote_port,
            r.landing() == (cfg.local_proxy_host, cfg.local_proxy_port),
            r.bound() is None,
            r.at() is Requesting,
            final(routes)@ == registered(
                old(routes)@,
                cfg.remote_port,
                (cfg.local_proxy_host, cfg.local_proxy_port),
            ),
    {
        let landing: Landing = (cfg.local_proxy_host.clone(), cfg.local_proxy_port);
        if cfg.remote_port != 0 {
            #[verifier::truncate]
            let port = cfg.remote_port as u16;
            routes.insert(port, (cfg.local_proxy_host.clone(), cfg.local_proxy_port));
        }
        ForwardSetup {
            requested: cfg.remote_port,
            landing,
            bound: None,
            phase: ForwardPhase::Requesting,
        }
    }

    fn fail(&mut self, routes: &mut RouteMap, error: TunnelError) -> (r: ForwardAction)
        ensures
            final(self).moved(old(self), ForwardPhase::Ended),
            r == (ForwardAction::Fail { error, cancel: old(self).bound() }),
            final(routes)@ == cleaned(old(routes)@, old(self).requested(), old(self).bound()),
    {
        if self.requested != 0 {
            #[verifier::truncate]
            let port = self.requested as u16;
            routes.remove(&port);
        }
        if let Some(b) = self.bound {
            routes.remove(&b);
        }
        self.phase = ForwardPhase::Ended;
        ForwardAction::Fail { error, cancel: self.bound }
    }

    /// Takes the server's answer to the request: the port it listens on, or why it does not.
    pub fn on_forward(&mut self, routes: &mut RouteMap, answer: Result<u32, String>) -> (r: (
        ForwardAction,
        Option<String>,
    ))
        requires
            old(self).at() is Requesting,
            old(self).bound() is None,
        ensures
            final(self).requested() == old(self).requested(),
            final(self).landing() == old(self).landing(),
            match answer {
                Ok(p) if p <= u16::MAX => {
                    &&& final(self).at() is Opening
                    &&& final(self).bound() == Some(p as u16)
                    &&& r.0 is OpenProbe
                    &&& r.1 matches Some(line) && line@ == listening_line(
                        p as u16,
                        old(self).landing().1,
                    )
                    &&& final(routes)@ == rebound(
                        old(routes)@,
                        old(self).requested(),
                        p as u16,
                        old(self).landing(),
                    )
                },
                Ok(p) => {
                    &&& final(self).moved(old(self), ForwardPhase::Ended)
                    &&& r.0 matches ForwardAction::Fail {
                        error: TunnelError::Protocol(m),
                        cancel: None,
                    } && m@ == "服务器返回异常端口: "@ + text::decimal(p as nat)
                    &&& r.1 is None
                    &&& final(routes)@ == cleaned(old(routes)@, old(self).requested(), None)
                },
                Err(e) => {
                    &&& final(self).moved(old(self), ForwardPhase::Ended)
                    &&& r.0 == (ForwardAction::Fail {
                        error: TunnelError::ForwardRejected {
                            port: old(self).requested(),
                            reason: e,
                        },
                        cancel: None,
                    })
                    &&& r.1 is None
                    &&& final(routes)@ == cleaned(old(routes)@, old(self).requested(), None)
                },
            },
    {
        let actual = match answer {
            Ok(p) => p,
            Err(e) => {
                let error = TunnelError::ForwardRejected { port: self.requested, reason: e };
                return (self.fail(routes, error), None);
            },
        };
        if actual > 0xFFFF {
            let mut m = "服务器返回异常端口: ".to_owned();
            m.append(decimal_text(actual as u64).as_str());
            return (self.fail(routes, TunnelError::Protocol(m)), None);
        }
        let bound = actual as u16;
        #[verifier::truncate]
        let requested = self.requested as u16;
        if bound != requested {
            if self.requested != 0 {
                routes.remove(&requested);
            }
            routes.insert(bound, (self.landing.0.clone(), self.landing.1));
        }
        self.bound = Some(bound);
        self.phase = ForwardPhase::Opening;
        let mut line = "服务器已监听 127.0.0.1:".to_owned();
        line.append(decimal_text(bound as u64).as_str());
        line.append(" (转发到 127.0.0.1:");
        line.append(decimal_text(self.landing.1 as u64).as_str());
        line.append(")");
        (ForwardAction::OpenProbe, Some(line))
    }

    /// Takes the outcome of opening the probe's channel, which counts from now on. Comes with
    /// the warning to log, if there is one.
    pub fn on_probe_opened(
        &mut self,
        routes: &mut RouteMap,
        count: &mut ChannelCount,
        outcome: Result<(), String>,
    ) -> (r: (ForwardAction, Option<String>))
        requires
            old(self).at() is Opening,
            old(self).bound() is Some,
            old(count).open < usize::MAX,
        ensures
            balanced(*old(count), old(self).at(), *final(count), final(self).at()),
            match outcome {
                Ok(_) => {
                    &&& final(self).moved(old(self), ForwardPhase::Starting)
                    &&& r.0 matches ForwardAction::ExecProbe(c) && c@ == probe_command_of(
                        old(self).bound()->0,
                    )
                    &&& *final(count) == shared::one_more(*old(count))
                    &&& text::maybe(r.1) == shared::warning_at(*final(count))
                    &&& final(routes)@ == old(routes)@
                },
                Err(e) => {
                    &&& final(self).moved(old(self), ForwardPhase::Ended)
                    &&& r.0 matches ForwardAction::Fail {
                        error: TunnelError::ChannelOpen { what, reason },
                        cancel,
                    } && what@ == "探测通道"@ && reason == e && cancel == old(self).bound()
                    &&& *final(count) == *old(count)
                    &&& r.1 is None
                    &&& final(routes)@ == cleaned(
                        old(routes)@,
                        old(self).requested(),
                        old(self).bound(),
                    )
                },
            },
    {
        match outcome {
            Ok(_) => {
                let mut c = "exec 3<>/dev/tcp/127.0.0.1/".to_owned();
                if let Some(b) = self.bound {
                    c.append(decimal_text(b as u64).as_str());
                }
                c.append(" && echo PROBE_OK && echo X >&3 || echo PROBE_FAIL");
                self.phase = ForwardPhase::Starting;
                let (_, warning) = ChannelGuard::acquire(count);
                (ForwardAction::ExecProbe(c), warning)
            },
            Err(e) => {
                let error = TunnelError::ChannelOpen { what: "探测通道".to_owned(), reason: e };
                (self.fail(routes, error), None)
            },
        }
    }

    /// Takes the outcome of starting the probe. A probe that did not start gives its channel
    /// back.
    pub fn on_probe_started(
        &mut self,
        routes: &mut RouteMap,
        count: &mut ChannelCount,
        outcome: Result<(), String>,
    ) -> (r: ForwardAction)
        requires
            old(self).at() is Starting,
            old(count).open > 0,
        ensures
            balanced(*old(count), old(self).at(), *final(count), final(self).at()),
            match outcome {
                Ok(_) => {
                    &&& final(self).moved(old(self), ForwardPhase::Probing)
                    &&& r is ReadProbe
                    &&& *final(count) == *old(count)
                    &&& final(routes)@ == old(routes)@
                },
                Err(e) => {
                    &&& final(self).moved(old(self), ForwardPhase::Ended)
                    &&& r matches ForwardAction::Fail {
                        error: TunnelError::Protocol(m),
                        cancel,
                    } && m@ == "执行探测命令失败: "@ + e@ && cancel == old(self).bound()
                    &&& *final(count) == shared::one_fewer(*old(count))
                    &&& final(routes)@ == cleaned(
                        old(routes)@,
                        old(self).requested(),
                        old(self).bound(),
                    )
                },
            },
    {
        match outcome {
            Ok(_) => {
                self.phase = ForwardPhase::Probing;
                ForwardAction::ReadProbe
            },
            Err(e) => {
                let mut m = "执行探测命令失败: ".to_owned();
                m.append(e.as_str());
                let guard = ChannelGuard;
                guard.release(count);
                self.fail(routes, TunnelError::Protocol(m))
            },
        }
    }

    /// Takes the probe's output, as text. The port works just where it says so. The probe's
    /// channel is given back.
    pub fn on_probe_text(
        &mut self,
        routes: &mut RouteMap,
        count: &mut ChannelCount,
        out: &str,
    ) -> (r: (ForwardAction, String))
        requires
            old(self).at() is Probing,
            old(self).bound() is Some,
            old(count).open > 0,
        ensures
            balanced(*old(count), old(self).at(), *final(count), final(self).at()),
            final(self).moved(old(self), ForwardPhase::Ended),
            *final(count) == shared::one_fewer(*old(count)),
            r.1@ == "端口探测结果: "@ + text::trimmed(out@),
            if text::occurs(out@, "PROBE_OK"@) {
                &&& r.0 == ForwardAction::Ready(old(self).bound()->0)
                &&& final(routes)@ == old(routes)@
            } else {
                &&& r.0 matches ForwardAction::Fail {
                    error: TunnelError::Protocol(m),
                    cancel,
                } && m@ == "转发端口探测失败, 服务器输出: "@ + text::trimmed(out@) && cancel
                    == old(self).bound()
                &&& final(routes)@ == cleaned(
                    old(routes)@,
                    old(self).requested(),
                    old(self).bound(),
                )
            },
    {
        let guard = ChannelGuard;
        guard.release(count);
        let t = trim(out);
        let mut line = "端口探测结果: ".to_owned();
        line.append(t);
        if contains(out, "PROBE_OK") {
            self.phase = ForwardPhase::Ended;
            match self.bound {
                Some(b) => (ForwardAction::Ready(b), line),
                None => (ForwardAction::Ready(0), line),
            }
        } else {
            let mut m = "转发端口探测失败, 服务器输出: ".to_owned();
            m.append(t);
            (self.fail(routes, TunnelError::Protocol(m)), line)
        }
    }

    /// Takes the probe's output, as bytes.
    pub fn on_probe_output(
        &mut self,
        routes: &mut RouteMap,
        count: &mut ChannelCount,
        out: &[u8],
    ) -> (r: (ForwardAction, String))
        requires
            old(self).at() is Probing,
            old(self).bound() is Some,
            old(count).open > 0,
        ensures
            balanced(*old(count), old(self).at(), *final(count), final(self).at()),
            vstd::utf8::valid_utf8(out@) ==> text::lossy_text(out@) == vstd::utf8::decode_utf8(
                out@,
            ),
            final(self).moved(old(self), ForwardPhase::Ended),
            *final(count) == shared::one_fewer(*old(count)),
            r.1@ == "端口探测结果: "@ + text::trimmed(text::lossy_text(out@)),
            if text::occurs(text::lossy_text(out@), "PROBE_OK"@) {
                &&& r.0 == ForwardAction::Ready(old(self).bound()->0)
                &&& final(routes)@ == old(routes)@
            } else {
                &&& r.0 matches ForwardAction::Fail {
                    error: TunnelError::Protocol(m),
                    cancel,
                } && m@ == "转发端口探测失败, 服务器输出: "@ + text::trimmed(
                    text::lossy_text(out@),
                ) && cancel == old(self).bound()
                &&& final(routes)@ == cleaned(
                    old(routes)@,
                    old(self).requested(),
                    old(self).bound(),
                )
            },
    {
        let s = text_of(out);
        self.on_probe_text(routes, count, s.as_str())
    }
}

// ---------------------------------------------------------------- laws
/// A forward that fails leaves nothing behind: of ports that nobody used, no route is left,
/// and the routes of other ports are as they were.
pub proof fn law_failure_leaves_no_route(
    m: Map<u16, Landing>,
    requested: u32,
    bound: u16,
    landing: Landing,
)
    requires
        requested != 0 ==> !m.contains_key(requested as u16),
        !m.contains_key(bound),
    ensures
        cleaned(registered(m, requested, landing), requested, None) == m,
        cleaned(
            rebound(registered(m, requested, landing), requested, bound, landing),
            requested,
            Some(bound),
        ) == m,
{
    assert(cleaned(registered(m, requested, landing), requested, None) =~= m);
    assert(cleaned(
        rebound(registered(m, requested, landing), requested, bound, landing),
        requested,
        Some(bound),
    ) =~= m);
}

/// A forward that stands has one route, from the port the server listens on, and those of
/// other ports are as they were.
pub proof fn law_success_has_one_route(
    m: Map<u16, Landing>,
    requested: u32,
    bound: u16,
    landing: Landing,
)
    requires
        requested != 0 ==> !m.contains_key(requested as u16),
        requested == 0 ==> bound != 0,
    ensures
        rebound(registered(m, requested, landing), requested, bound, landing) == m.insert(
            bound,
            landing,
        ),
{
    assert(rebound(registered(m, requested, landing), requested, bound, landing) =~= m.insert(
        bound,
        landing,
    ));
}

/// The routes of a forward, step by step. A requested port is routed to its landing at once.
/// Once the server listens, the port it listens on is, and a requested port that it is not is no
/// more. After a failure neither is. The routes of other ports never change.
pub proof fn law_routes_follow_the_forward(
    m: Map<u16, Landing>,
    requested: u16,
    bound: u16,
    landing: Landing,
    other: u16,
)
    requires
        requested != 0,
        bound != 0,
    ensures
        registered(m, requested as u32, landing).dom().contains(requested),
        registered(m, requested as u32, landing)[requested] == landing,
        registered(m, 0, landing) == m,
        ({
            let up = rebound(registered(m, requested as u32, landing), requested as u32, bound, landing);
            &&& up.dom().contains(bound) && up[bound] == landing
            &&& requested != bound ==> !up.dom().contains(requested)
            &&& other != requested && other != bound ==> up.dom().contains(other)
                == m.dom().contains(other) && (m.dom().contains(other) ==> up[other] == m[other])
        }),
        rebound(m, 0, bound, landing) == m.insert(bound, landing),
        ({
            let down = cleaned(m, requested as u32, Some(bound));
            &&& !down.dom().contains(requested) && !down.dom().contains(bound)
            &&& other != requested && other != bound ==> down.dom().contains(other)
                == m.dom().contains(other) && (m.dom().contains(other) ==> down[other] == m[other])
        }),
        cleaned(m, 0, Some(bound)) == m.remove(bound),
        cleaned(m, 0, None) == m,
        !cleaned(m, requested as u32, None).dom().contains(requested),
{
    assert(requested as u32 as u16 == requested) by (bit_vector);
    assert(0u32 as u16 == 0u16) by (bit_vector);
}

/// The probe connects to the port that the server listens on, and says in so many words whether
/// that worked. What is logged names that port and the landing's.
pub proof fn law_probe_is_of_the_bound_port(bound: u16, local_port: u16)
    ensures
        text::occurs(
            probe_command_of(bound),
            "/dev/tcp/127.0.0.1/"@ + text::decimal(bound as nat) + " "@,
        ),
        text::occurs(probe_command_of(bound), "PROBE_OK"@),
        text::occurs(probe_command_of(bound), "PROBE_FAIL"@),
        text::occurs(listening_line(bound, local_port), text::decimal(bound as nat)),
        text::occurs(listening_line(bound, local_port), text::decimal(local_port as nat) + ")"@),
{
    lemma_probe_port(bound);
    lemma_probe_words(bound);
    let n = text::decimal(bound as nat);
    let k = text::decimal(local_port as nat);
    text::lemma_says("服务器已监听 127.0.0.1:"@, n, " (转发到 127.0.0.1:"@, k + ")"@);
    assert("服务器已监听 127.0.0.1:"@ + n + " (转发到 127.0.0.1:"@ + (k + ")"@) =~= listening_line(
        bound,
        local_port,
    ));
    let s = listening_line(bound, local_port);
    let x = k + ")"@;
    assert(text::found_at(s, x, s.len() - x.len()));
}

proof fn lemma_probe_port(bound: u16)
    ensures
        text::occurs(
            probe_command_of(bound),
            "/dev/tcp/127.0.0.1/"@ + text::decimal(bound as nat) + " "@,
        ),
{
    let head = "exec 3<>/dev/tcp/127.0.0.1/"@;
    let tail = " && echo PROBE_OK && echo X >&3 || echo PROBE_FAIL"@;
    let n = text::decimal(bound as nat);
    reveal_strlit("exec 3<>/dev/tcp/127.0.0.1/");
    reveal_strlit("/dev/tcp/127.0.0.1/");
    reveal_strlit(" && echo PROBE_OK && echo X >&3 || echo PROBE_FAIL");
    reveal_strlit(" ");
    let x = "/dev/tcp/127.0.0.1/"@ + n + " "@;
    assert(head =~= head.take(8) + "/dev/tcp/127.0.0.1/"@);
    assert(tail =~= " "@ + tail.skip(1));
    text::law_occurrence(head.take(8), x, tail.skip(1));
    assert(head.take(8) + x + tail.skip(1) =~= probe_command_of(bound));
}

proof fn lemma_probe_words(bound: u16)
    ensures
        text::occurs(probe_command_of(bound), "PROBE_OK"@),
        text::occurs(probe_command_of(bound), "PROBE_FAIL"@),
{
    let tail = " && echo PROBE_OK && echo X >&3 || echo PROBE_FAIL"@;
    let front = "exec 3<>/dev/tcp/127.0.0.1/"@ + text::decimal(bound as nat);
    reveal_strlit(" && echo PROBE_OK && echo X >&3 || echo PROBE_FAIL");
    reveal_strlit("PROBE_OK");
    reveal_strlit("PROBE_FAIL");
    let c = probe_command_of(bound);
    let i = (front.len() + 9) as int;
    assert(c.subrange(i, i + 8) =~= "PROBE_OK"@);
    assert(text::found_at(c, "PROBE_OK"@, i));
    let j = (front.len() + 40) as int;
    assert(c.subrange(j, j + 10) =~= "PROBE_FAIL"@);
    assert(text::found_at(c, "PROBE_FAIL"@, j));
}

/// A setup that goes on is still that of its forward: it keeps the requested port, the landing
/// and the server's port, and only its phase is another.
pub proof fn law_setup_keeps_its_forward(was: ForwardSetup, now: ForwardSetup, phase: ForwardPhase)
    ensures
        now.moved(&was, phase) <==> now.requested() == was.requested() && now.landing()
            == was.landing() && now.bound() == was.bound() && now.at() == phase,
{
}

/// The probe's channel is counted from when it is open until the probe is over, as one channel,
/// and the budget stays.
pub proof fn law_probe_is_one_channel(
    before: ChannelCount,
    was: ForwardPhase,
    after: ChannelCount,
    now: ForwardPhase,
)
    requires
        balanced(before, was, after, now),
    ensures
        after.budget == before.budget,
        was is Opening && now is Starting ==> after.open == before.open + 1,
        was is Opening && now is Ended ==> after.open == before.open,
        was is Starting && now is Probing ==> after.open == before.open,
        was is Starting && now is Ended ==> after.open == before.open - 1,
        was is Probing && now is Ended ==> after.open == before.open - 1,
{
}

} // verus!
