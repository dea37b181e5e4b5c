//! What the SSH connections of all tunnel shapes share.
use crate::known_hosts::HostKeyCheck;
use crate::known_hosts;
use crate::model::TunnelError;
use crate::text;
use crate::text::{decimal_text, text_of};
use crate::time::{Duration, MAX_NANOS, NANOS_PER_SEC};
use vstd::prelude::*;

verus! {

/// How to authenticate. Secrets live in memory only.
#[derive(Debug, PartialEq, Eq)]
pub enum AuthMethod {
    Password(String),
    /// A private key file and, where the key is encrypted, its passphrase.
    KeyFile { path: String, passphrase: Option<String> },
}

impl Clone for AuthMethod {
    fn clone(&self) -> (r: Self)
        ensures
            r == *self,
    {
        match self {
            AuthMethod::Password(p) => AuthMethod::Password(p.clone()),
            AuthMethod::KeyFile { path, passphrase } => AuthMethod::KeyFile {
                path: path.clone(),
                passphrase: match passphrase {
                    Some(p) => Some(p.clone()),
                    None => None,
                },
            },
        }
    }
}

/// Keepalive: a probe every `interval`, and the connection is dead after `max` of them went
/// unanswered.
#[derive(Debug, Clone, Copy, PartialEq, Eq, Structural)]
pub struct Keepalive {
    pub interval: Duration,
    pub max: u32,
}

impl Default for Keepalive {
    fn default() -> (r: Self)
        ensures
            r.interval@ == 10 * NANOS_PER_SEC,
            r.max == 3,
    {
        Keepalive { interval: Duration::from_secs(10), max: 3 }
    }
}

impl Keepalive {
    /// How long a silent connection lasts before it is taken for dead.
    pub fn dead_after(&self) -> (r: Duration)
        requires
            self.interval@ * self.max <= MAX_NANOS,
        ensures
            r@ == self.interval@ * self.max,
    {
        self.interval.times(self.max)
    }
}

// ---------------------------------------------------------------- connecting
/// The client's side of a connection of local and dynamic tunnels. All it has to decide is
/// whether the server's key is in order.
pub struct ConnectHandler {
    pub host_check: HostKeyCheck,
}

impl ConnectHandler {
    /// The handler of a connection to `host:port`.
    pub fn new(host: &str, port: u16) -> (r: Self)
        ensures
            r.host_check.host() == host@,
            r.host_check.port() == port,
            r.host_check.refusal() is None,
    {
        ConnectHandler { host_check: HostKeyCheck::new(host, port) }
    }
}

/// What is needed to connect.
#[derive(Debug, PartialEq, Eq)]
pub struct ConnectPlan {
    /// The address to dial.
    pub addr: String,
    /// The interval of keepalive probes.
    pub keepalive_interval: Duration,
    /// The number of unanswered probes after which the connection is dead: at least one.
    pub keepalive_max: u32,
    /// The line to log.
    pub line: String,
}

/// Works out how to connect to a server.
pub fn connect_plan(host: &str, port: u16, keepalive: Keepalive) -> (r: ConnectPlan)
    ensures
        r.addr@ == known_hosts::host_key(host@, port),
        r.keepalive_interval == keepalive.interval,
        r.keepalive_max == if keepalive.max == 0 {
            1
        } else {
            keepalive.max
        },
        r.line@ == "连接 "@ + known_hosts::host_key(host@, port) + " ..."@,
{
    let addr = known_hosts::key_of(host, port);
    let mut line = "连接 ".to_owned();
    line.append(addr.as_str());
    line.append(" ...");
    let keepalive_max: u32 = if keepalive.max == 0 {
        1
    } else {
        keepalive.max
    };
    ConnectPlan { addr, keepalive_interval: keepalive.interval, keepalive_max, line }
}

/// How far a connection came, as the SSH library reports it.
#[derive(Debug, PartialEq, Eq)]
pub enum ConnectOutcome {
    /// The connection could not be made, and why.
    Unreachable(String),
    /// The private key could not be loaded, and why.
    BadKey { path: String, reason: String },
    /// Communication failed while authenticating, and how.
    AuthBroken(String),
    /// The server answered: yes or no.
    Answered(bool),
}

/// What a connection's outcome means: the line to log, or the error. A server that refuses
/// the credentials is told apart from one that cannot be reached.
pub fn connect_result(addr: &str, outcome: ConnectOutcome) -> (r: Result<String, TunnelError>)
    ensures
        match outcome {
            ConnectOutcome::Unreachable(e) => r matches Err(TunnelError::Connect {
                addr: a,
                source,
            }) && a@ == addr@ && source == e,
            ConnectOutcome::BadKey { path, reason } => r == Err::<String, TunnelError>(
                TunnelError::KeyLoad { path, reason },
            ),
            ConnectOutcome::AuthBroken(e) => r == Err::<String, TunnelError>(
                TunnelError::AuthIo { source: e },
            ),
            ConnectOutcome::Answered(true) => r matches Ok(line) && line@ == "SSH 认证成功"@,
            ConnectOutcome::Answered(false) => r == Err::<String, TunnelError>(
                TunnelError::AuthRejected,
            ),
        },
{
    match outcome {
        ConnectOutcome::Unreachable(e) => Err(
            TunnelError::Connect { addr: addr.to_owned(), source: e },
        ),
        ConnectOutcome::BadKey { path, reason } => Err(TunnelError::KeyLoad { path, reason }),
        ConnectOutcome::AuthBroken(e) => Err(TunnelError::AuthIo { source: e }),
        ConnectOutcome::Answered(ok) => if ok {
            Ok("SSH 认证成功".to_owned())
        } else {
            Err(TunnelError::AuthRejected)
        },
    }
}

/// The error that a failed connection is reported with: where the server's key was refused,
/// that is what counts, because connecting again cannot cure it.
pub fn connect_error(check: &mut HostKeyCheck, e: TunnelError) -> (r: TunnelError)
    ensures
        final(check).refusal() is None,
        match old(check).refusal() {
            Some((x, a)) => r matches TunnelError::HostKeyChanged { host, expected, actual } && host@
                == known_hosts::host_key(old(check).host(), old(check).port()) && expected@ == x
                && actual@ == a,
            None => r == e,
        },
{
    match check.take_error() {
        Some(fatal) => fatal,
        None => e,
    }
}

// ---------------------------------------------------------------- remote commands
/// Why a command could not be run on the server.
#[derive(Debug, PartialEq, Eq)]
pub enum ExecFailure {
    Channel(String),
    Request(String),
    Timeout(Duration),
    Read(String),
}

/// What is said of a command that could not be run.
pub open spec fn exec_failure_text(f: ExecFailure) -> Seq<char> {
    match f {
        ExecFailure::Channel(e) => "打开会话通道失败: "@ + e@,
        ExecFailure::Request(e) => "发送执行请求失败: "@ + e@,
        ExecFailure::Timeout(d) => "命令执行超时 (>"@ + text::decimal(
            d@ / NANOS_PER_SEC as nat,
        ) + "s)"@,
        ExecFailure::Read(e) => "读取命令输出失败: "@ + e@,
    }
}

/// The output of a command on the server as text, or what is said of its failure.
pub fn remote_exec(outcome: Result<Vec<u8>, ExecFailure>) -> (r: Result<String, String>)
    ensures
        match outcome {
            Ok(out) => r matches Ok(s) && s@ == text::lossy_text(out@) && (vstd::utf8::valid_utf8(
                out@,
            ) ==> s@ == vstd::utf8::decode_utf8(out@)),
            Err(f) => r matches Err(s) && s@ == exec_failure_text(f),
        },
{
    match outcome {
        Ok(out) => Ok(text_of(out.as_slice())),
        Err(ExecFailure::Channel(e)) => {
            let mut s = "打开会话通道失败: ".to_owned();
            s.append(e.as_str());
            Err(s)
        },
        Err(ExecFailure::Request(e)) => {
            let mut s = "发送执行请求失败: ".to_owned();
            s.append(e.as_str());
            Err(s)
        },
        Err(ExecFailure::Timeout(d)) => {
            let mut s = "命令执行超时 (>".to_owned();
            s.append(decimal_text(d.as_secs()).as_str());
            s.append("s)");
            Err(s)
        },
        Err(ExecFailure::Read(e)) => {
            let mut s = "读取命令输出失败: ".to_owned();
            s.append(e.as_str());
            Err(s)
        },
    }
}

// ---------------------------------------------------------------- laws
/// What is said of a command that could not be run ends in its cause; one that took too long is
/// reported with the whole seconds it was given.
pub proof fn law_exec_failure_names_its_cause(f: ExecFailure)
    ensures
        match f {
            ExecFailure::Channel(e) => text::ends_in(exec_failure_text(f), e@),
            ExecFailure::Request(e) => text::ends_in(exec_failure_text(f), e@),
            ExecFailure::Read(e) => text::ends_in(exec_failure_text(f), e@),
            ExecFailure::Timeout(d) => text::occurs(
                exec_failure_text(f),
                text::decimal(d@ / 1_000_000_000),
            ),
        },
{
    match f {
        ExecFailure::Channel(e) => text::lemma_says("打开会话通道失败: "@, seq![], seq![], e@),
        ExecFailure::Request(e) => text::lemma_says("发送执行请求失败: "@, seq![], seq![], e@),
        ExecFailure::Read(e) => text::lemma_says("读取命令输出失败: "@, seq![], seq![], e@),
        ExecFailure::Timeout(d) => text::law_occurrence(
            "命令执行超时 (>"@,
            text::decimal(d@ / 1_000_000_000),
            "s)"@,
        ),
    }
}

} // verus!
