//! Local forwards (`ssh -L`) and dynamic tunnels (`ssh -D`).
use crate::model::TunnelError;
use crate::socks;
use crate::socks::{start_socks_server, StartFailure};
use crate::ssh::{AuthMethod, Keepalive};
use crate::text;
use crate::text::decimal_text;
use crate::transport::shared;
use crate::transport::shared::{copy_line, Landing};
use vstd::prelude::*;

verus! {

/// What a local or dynamic tunnel needs to connect.
#[derive(Debug)]
pub struct DirectConfig {
    pub server_host: String,
    pub server_port: u16,
    pub username: String,
    pub auth: AuthMethod,
    /// Where this machine listens.
    pub listen_host: String,
    pub listen_port: u16,
    pub keepalive: Keepalive,
}

/// A local or dynamic tunnel that serves.
#[derive(Debug, PartialEq, Eq)]
pub struct DirectSession {
    /// The port this machine listens on.
    pub listen_port: u16,
    /// Where the server carries the connections that come in; none where a SOCKS5 server
    /// listens, whose clients say it themselves.
    pub target: Option<Landing>,
}

/// Why this machine could not listen.
#[derive(Debug, PartialEq, Eq)]
pub enum ListenFailure {
    /// The port could not be bound.
    Bind(String),
    /// The bound port could not be learned.
    Address(String),
}

/// What is said of a port that could not be listened on.
pub open spec fn listen_failure_text(f: ListenFailure) -> Seq<char> {
    match f {
        ListenFailure::Bind(e) => e@,
        ListenFailure::Address(e) => "获取监听端口失败: "@ + e@,
    }
}

/// The line of a local forward that is ready.
pub open spec fn local_line(port: u16, target_host: Seq<char>, target_port: u16) -> Seq<char> {
    "本地转发: 本机监听 127.0.0.1:"@ + text::decimal(port as nat) + " -> 经 SSH 隧道 -> "@
        + target_host + ":"@ + text::decimal(target_port as nat)
}

/// The line of a dynamic tunnel that is ready.
pub open spec fn dynamic_line(port: u16) -> Seq<char> {
    "动态隧道: 本机 SOCKS5 127.0.0.1:"@ + text::decimal(port as nat)
        + " (经 SSH 隧道访问服务器内网, 等价 ssh -D)"@
}

/// What listening for a local forward comes to: the session and the line to log, or an error
/// that connecting again cannot cure.
pub fn run_local_forward(
    cfg: &DirectConfig,
    target_host: &str,
    target_port: u16,
    bound: Result<u16, ListenFailure>,
) -> (r: Result<(DirectSession, String), TunnelError>)
    ensures
        match bound {
            Ok(p) => r matches Ok(s) && s.0.listen_port == p && (s.0.target matches Some(t) && t.0@
                == target_host@ && t.1 == target_port) && s.1@ == local_line(
                p,
                target_host@,
                target_port,
            ),
            Err(f) => r matches Err(TunnelError::PortInUse { port, reason }) && port
                == cfg.listen_port && reason@ == listen_failure_text(f),
        },
{
    match bound {
        Ok(p) => {
            let mut line = "本地转发: 本机监听 127.0.0.1:".to_owned();
            line.append(decimal_text(p as u64).as_str());
            line.append(" -> 经 SSH 隧道 -> ");
            line.append(target_host);
            line.append(":");
            line.append(decimal_text(target_port as u64).as_str());
            let target = Some((target_host.to_owned(), target_port));
            Ok((DirectSession { listen_port: p, target }, line))
        },
        Err(ListenFailure::Bind(e)) => Err(
            TunnelError::PortInUse { port: cfg.listen_port, reason: e },
        ),
        Err(ListenFailure::Address(e)) => {
            let mut reason = "获取监听端口失败: ".to_owned();
            reason.append(e.as_str());
            Err(TunnelError::PortInUse { port: cfg.listen_port, reason })
        },
    }
}

/// What starting the SOCKS5 server of a dynamic tunnel comes to.
pub fn run_dynamic_forward(cfg: &DirectConfig, bound: Result<u16, StartFailure>) -> (r: Result<
    (DirectSession, String),
    TunnelError,
>)
    ensures
        match bound {
            Ok(p) => r matches Ok(s) && s.0 == (DirectSession { listen_port: p, target: None })
                && s.1@ == dynamic_line(p),
            Err(f) => r matches Err(TunnelError::PortInUse { port, reason }) && port
                == cfg.listen_port && reason@ == socks::start_failure_text(cfg.listen_port, f),
        },
{
    match start_socks_server(cfg.listen_port, bound) {
        Ok(p) => {
            let mut line = "动态隧道: 本机 SOCKS5 127.0.0.1:".to_owned();
            line.append(decimal_text(p as u64).as_str());
            line.append(" (经 SSH 隧道访问服务器内网, 等价 ssh -D)");
            Ok((DirectSession { listen_port: p, target: None }, line))
        },
        Err(e) => Err(e),
    }
}

// ---------------------------------------------------------------- serving
/// What happens to a session that serves.
#[derive(Debug, PartialEq, Eq)]
pub enum ServeEvent {
    /// The user stops it.
    Stop,
    /// The SSH connection closed.
    Closed,
    /// A connection came in.
    Accepted,
    /// The listener failed, and how.
    ListenerFailed(String),
}

/// What a session that ends is cleaned up by.
#[derive(Debug, Clone, Copy, PartialEq, Eq, Structural)]
pub enum CleanUp {
    /// Stop listening.
    StopListening,
    /// Stop the SOCKS5 server.
    StopSocks,
    /// Close the SSH connection, for this reason.
    Disconnect(Reason),
}

/// Why a connection is closed.
#[derive(Debug, Clone, Copy, PartialEq, Eq, Structural)]
pub enum Reason {
    /// The tunnel is over.
    TunnelClosed,
    /// The user broke it off.
    UserDisconnect,
}

impl Reason {
    /// What the server is told.
    pub fn text(self) -> (r: &'static str)
        ensures
            r@ == match self {
                Reason::TunnelClosed => "tunnel closed"@,
                Reason::UserDisconnect => "user disconnect"@,
            },
    {
        match self {
            Reason::TunnelClosed => "tunnel closed",
            Reason::UserDisconnect => "user disconnect",
        }
    }
}

/// What a session does next.
#[derive(Debug, PartialEq, Eq)]
pub enum ServeAction {
    /// Forward the connection that came in to this target, on a task of its own, and go on.
    Forward(Landing),
    /// Leave the connection that came in to the SOCKS5 server, and go on.
    Leave,
    /// Clean up in this order; the session is over.
    End(Vec<CleanUp>),
}

/// The clean-up of a session that is over. A connection that other tunnels share stays.
pub open spec fn clean_up(s: DirectSession, owns_connection: bool) -> Seq<CleanUp> {
    (if s.target is None {
        seq![CleanUp::StopSocks]
    } else {
        seq![]
    }) + (if owns_connection {
        seq![CleanUp::Disconnect(Reason::TunnelClosed)]
    } else {
        seq![]
    })
}

/// The clean-up of a session that the user breaks off.
pub open spec fn broken_off(s: DirectSession, owns_connection: bool) -> Seq<CleanUp> {
    seq![CleanUp::StopListening] + (if s.target is None {
        seq![CleanUp::StopSocks]
    } else {
        seq![]
    }) + (if owns_connection {
        seq![CleanUp::Disconnect(Reason::UserDisconnect)]
    } else {
        seq![]
    })
}

/// The line of an event, if it has one. A SOCKS5 server takes its own connections.
pub open spec fn serve_line(s: DirectSession, e: ServeEvent) -> Option<Seq<char>> {
    match e {
        ServeEvent::Closed => if s.target is None {
            Some("SSH 连接已断开, 动态隧道停止"@)
        } else {
            Some("SSH 连接已断开, 本地转发停止"@)
        },
        ServeEvent::ListenerFailed(e) => Some("监听器错误: "@ + e@),
        _ => None,
    }
}

impl DirectSession {
    /// Takes what happens, and says what is done next and what is logged. Only a connection
    /// that comes in leaves the session as it is.
    pub fn on_event(&self, event: ServeEvent, owns_connection: bool) -> (r: (
        ServeAction,
        Option<String>,
    ))
        ensures
            text::maybe(r.1) == serve_line(*self, event),
            match r.0 {
                ServeAction::Forward(t) => event is Accepted && self.target == Some(t),
                ServeAction::Leave => event is Accepted && self.target is None,
                ServeAction::End(c) => !(event is Accepted) && c@ == clean_up(
                    *self,
                    owns_connection,
                ),
            },
    {
        let line = match event {
            ServeEvent::Accepted => {
                let action = match &self.target {
                    Some(t) => ServeAction::Forward((t.0.clone(), t.1)),
                    None => ServeAction::Leave,
                };
                return (action, None);
            },
            ServeEvent::Stop => None,
            ServeEvent::Closed => if self.target.is_none() {
                Some("SSH 连接已断开, 动态隧道停止".to_owned())
            } else {
                Some("SSH 连接已断开, 本地转发停止".to_owned())
            },
            ServeEvent::ListenerFailed(e) => {
                let mut s = "监听器错误: ".to_owned();
                s.append(e.as_str());
                Some(s)
            },
        };
        let mut c: Vec<CleanUp> = Vec::new();
        if self.target.is_none() {
            c.push(CleanUp::StopSocks);
        }
        if owns_connection {
            c.push(CleanUp::Disconnect(Reason::TunnelClosed));
        }
        assert(c@ =~= clean_up(*self, owns_connection));
        (ServeAction::End(c), line)
    }

    /// The user breaks the session off: listening stops, and the connection is closed, unless
    /// other tunnels share it.
    pub fn disconnect(&self, owns_connection: bool) -> (r: Vec<CleanUp>)
        ensures
            r@ == broken_off(*self, owns_connection),
    {
        let mut c: Vec<CleanUp> = Vec::new();
        c.push(CleanUp::StopListening);
        if self.target.is_none() {
            c.push(CleanUp::StopSocks);
        }
        if owns_connection {
            c.push(CleanUp::Disconnect(Reason::UserDisconnect));
        }
        assert(c@ =~= broken_off(*self, owns_connection));
        c
    }
}

/// Why a channel to the target could not be opened.
#[derive(Debug, PartialEq, Eq)]
pub enum OpenFailure {
    Refused(String),
    TimedOut,
}

/// The line of a connection whose channel was tried: none where it opened. The failure of
/// one connection does not end the session.
pub fn channel_line(opened: &Result<(), OpenFailure>) -> (r: Option<String>)
    ensures
        text::maybe(r) == match *opened {
            Ok(_) => None::<Seq<char>>,
            Err(OpenFailure::Refused(e)) => Some("打开直连通道失败: "@ + e@),
            Err(OpenFailure::TimedOut) => Some("打开直连通道超时"@),
        },
{
    match opened {
        Ok(_) => None,
        Err(OpenFailure::Refused(e)) => {
            let mut s = "打开直连通道失败: ".to_owned();
            s.append(e.as_str());
            Some(s)
        },
        Err(OpenFailure::TimedOut) => Some("打开直连通道超时".to_owned()),
    }
}

/// The line of a connection that ended.
pub fn closed_line(copied: &Result<(u64, u64), String>) -> (r: String)
    ensures
        r@ == "转发连接关闭 "@ + shared::copy_outcome(*copied),
{
    copy_line("转发连接关闭 ", copied)
}

/// A session on a connection that others share never closes it, however it ends; one on its
/// own connection always does.
pub proof fn law_shared_connection_stays(s: DirectSession)
    ensures
        forall|i: int|
            0 <= i < clean_up(s, false).len() ==> !((#[trigger] clean_up(s, false)[i])
                is Disconnect),
        forall|i: int|
            0 <= i < broken_off(s, false).len() ==> !((#[trigger] broken_off(s, false)[i])
                is Disconnect),
        clean_up(s, true).contains(CleanUp::Disconnect(Reason::TunnelClosed)),
        broken_off(s, true).contains(CleanUp::Disconnect(Reason::UserDisconnect)),
{
    let c = clean_up(s, true);
    assert(c[c.len() - 1] == CleanUp::Disconnect(Reason::TunnelClosed));
    let b = broken_off(s, true);
    assert(b[b.len() - 1] == CleanUp::Disconnect(Reason::UserDisconnect));
}

/// However a session ends, its SOCKS5 server is stopped exactly where it has one, and listening
/// stops where the user breaks it off; the connection goes last.
pub proof fn law_session_is_cleaned_up(s: DirectSession, owns: bool)
    ensures
        clean_up(s, owns).contains(CleanUp::StopSocks) <==> s.target is None,
        broken_off(s, owns).contains(CleanUp::StopSocks) <==> s.target is None,
        broken_off(s, owns)[0] is StopListening,
        !clean_up(s, owns).contains(CleanUp::StopListening),
        owns ==> clean_up(s, owns).last() == CleanUp::Disconnect(Reason::TunnelClosed),
        owns ==> broken_off(s, owns).last() == CleanUp::Disconnect(Reason::UserDisconnect),
{
    let c = clean_up(s, owns);
    let b = broken_off(s, owns);
    if s.target is None {
        assert(c[0] == CleanUp::StopSocks);
        assert(b[1] == CleanUp::StopSocks);
    } else {
        assert forall|i: int| 0 <= i < c.len() implies #[trigger] c[i] != CleanUp::StopSocks by {}
        assert forall|i: int| 0 <= i < b.len() implies #[trigger] b[i] != CleanUp::StopSocks by {}
    }
    assert forall|i: int| 0 <= i < c.len() implies #[trigger] c[i] != CleanUp::StopListening by {}
}

/// What is logged of a forward that is ready names the port it listens on and, where it has one,
/// ends in its target. What is said of a port that could not be listened on ends in what the
/// system said.
pub proof fn law_forward_is_announced(
    port: u16,
    target_host: Seq<char>,
    target_port: u16,
    f: ListenFailure,
)
    ensures
        text::occurs(local_line(port, target_host, target_port), text::decimal(port as nat)),
        text::ends_in(
            local_line(port, target_host, target_port),
            target_host + ":"@ + text::decimal(target_port as nat),
        ),
        text::occurs(dynamic_line(port), text::decimal(port as nat)),
        match f {
            ListenFailure::Bind(e) => listen_failure_text(f) == e@,
            ListenFailure::Address(e) => text::ends_in(listen_failure_text(f), e@),
        },
{
    let n = text::decimal(port as nat);
    let target = target_host + ":"@ + text::decimal(target_port as nat);
    text::lemma_says("本地转发: 本机监听 127.0.0.1:"@, n, " -> 经 SSH 隧道 -> "@, target);
    assert("本地转发: 本机监听 127.0.0.1:"@ + n + " -> 经 SSH 隧道 -> "@ + target =~= local_line(
        port,
        target_host,
        target_port,
    ));
    text::law_occurrence(
        "动态隧道: 本机 SOCKS5 127.0.0.1:"@,
        n,
        " (经 SSH 隧道访问服务器内网, 等价 ssh -D)"@,
    );
    if let ListenFailure::Address(e) = f {
        text::lemma_says("获取监听端口失败: "@, seq![], seq![], e@);
    }
}

/// The end of a connection is told apart by the shape of the tunnel, a listener that failed is
/// reported with its cause, and nothing is said of a stop or of a connection that comes in.
pub proof fn law_end_of_serving_is_logged(s: DirectSession, e: ServeEvent)
    ensures
        e is Stop || e is Accepted ==> serve_line(s, e) is None,
        e is Closed ==> (serve_line(s, e) matches Some(l) && l == if s.target is Some {
            "SSH 连接已断开, 本地转发停止"@
        } else {
            "SSH 连接已断开, 动态隧道停止"@
        }),
        e matches ServeEvent::ListenerFailed(why) ==> (serve_line(s, e) matches Some(l)
            && text::ends_in(l, why@)),
{
    if let ServeEvent::ListenerFailed(why) = e {
        text::lemma_says("监听器错误: "@, seq![], seq![], why@);
    }
}

} // verus!
