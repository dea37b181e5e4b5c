//! The tunnel as a first-class entity, and the typed errors of its operations.
use crate::text;
use crate::text::is_blank;
use crate::time::{Duration, NANOS_PER_SEC};
use vstd::prelude::*;

verus! {

/// The shape of a tunnel: what ssh calls `-R`, `-L` and `-D`.
#[derive(Debug, PartialEq, Eq)]
pub enum TunnelKind {
    /// The server listens on `bind:port` and reaches the local backend. Port zero lets the
    /// server choose.
    Reverse { bind: String, port: u16 },
    /// This machine listens on `bind:port` and reaches a target behind the server.
    Local { bind: String, port: u16, target_host: String, target_port: u16 },
    /// This machine offers SOCKS5, and the server connects to any target.
    Dynamic { bind: String, port: u16 },
}

/// The tag of a shape in events.
pub open spec fn tag_of(kind: TunnelKind) -> Seq<char> {
    match kind {
        TunnelKind::Reverse { .. } => "remote"@,
        TunnelKind::Local { .. } => "local"@,
        TunnelKind::Dynamic { .. } => "dynamic"@,
    }
}

impl TunnelKind {
    /// The stable tag of the shape, shared by registry, events and user interface.
    pub fn tag(&self) -> (r: &'static str)
        ensures
            r@ == tag_of(*self),
    {
        match self {
            TunnelKind::Reverse { .. } => "remote",
            TunnelKind::Local { .. } => "local",
            TunnelKind::Dynamic { .. } => "dynamic",
        }
    }
}

impl Clone for TunnelKind {
    fn clone(&self) -> (r: Self)
        ensures
            r == *self,
    {
        match self {
            TunnelKind::Reverse { bind, port } => TunnelKind::Reverse {
                bind: bind.clone(),
                port: *port,
            },
            TunnelKind::Local { bind, port, target_host, target_port } => TunnelKind::Local {
                bind: bind.clone(),
                port: *port,
                target_host: target_host.clone(),
                target_port: *target_port,
            },
            TunnelKind::Dynamic { bind, port } => TunnelKind::Dynamic {
                bind: bind.clone(),
                port: *port,
            },
        }
    }
}

/// Where the traffic of a reverse tunnel lands on this machine.
#[derive(Debug, PartialEq, Eq)]
pub enum Backend {
    /// A fixed local address.
    Tcp(String, u16),
    /// A local SOCKS proxy: the port of a VPN client if one answers, a built-in server on
    /// `fallback_port` if not.
    SocksAuto { fallback_port: u16 },
}

impl Clone for Backend {
    fn clone(&self) -> (r: Self)
        ensures
            r == *self,
    {
        match self {
            Backend::Tcp(host, port) => Backend::Tcp(host.clone(), *port),
            Backend::SocksAuto { fallback_port } => Backend::SocksAuto {
                fallback_port: *fallback_port,
            },
        }
    }
}

impl Default for Backend {
    fn default() -> (r: Self)
        ensures
            r == (Backend::SocksAuto { fallback_port: 1080 }),
    {
        Backend::SocksAuto { fallback_port: 1080 }
    }
}

/// How a tunnel reconnects and keeps its connection alive.
#[derive(Debug, Clone, Copy, PartialEq, Eq, Structural)]
pub struct ReconnectPolicy {
    /// Whether to reconnect at all.
    pub auto: bool,
    /// How many retries come one second apart before the exponential sequence.
    pub fast_retries: u32,
    /// The cap of the exponential sequence.
    pub max_backoff: Duration,
    /// A connection that lived this long starts the sequence afresh.
    pub alive_reset: Duration,
    /// The interval of keepalive probes.
    pub keepalive: Duration,
    /// The number of unanswered probes after which a connection is dead.
    pub keepalive_max: u32,
}

/// The policy a tunnel has unless it is given another.
pub open spec fn is_default_policy(p: ReconnectPolicy) -> bool {
    &&& p.auto
    &&& p.fast_retries == 3
    &&& p.max_backoff@ == 30 * NANOS_PER_SEC
    &&& p.alive_reset@ == 3 * NANOS_PER_SEC
    &&& p.keepalive@ == 10 * NANOS_PER_SEC
    &&& p.keepalive_max == 3
}

impl Default for ReconnectPolicy {
    fn default() -> (r: Self)
        ensures
            is_default_policy(r),
    {
        ReconnectPolicy {
            auto: true,
            fast_retries: 3,
            max_backoff: Duration::from_secs(30),
            alive_reset: Duration::from_secs(3),
            keepalive: Duration::from_secs(10),
            keepalive_max: 3,
        }
    }
}

/// A tunnel: visible to the user, and persistent.
#[derive(Debug, PartialEq, Eq)]
pub struct TunnelSpec {
    /// A UUID.
    pub id: String,
    /// The user's name for it.
    pub name: String,
    /// Whether it starts together with the application.
    pub enabled: bool,
    /// The server profile it belongs to. Passwords are never part of a tunnel.
    pub profile_id: String,
    pub kind: TunnelKind,
    /// Where a reverse tunnel lands.
    pub backend: Backend,
    pub policy: ReconnectPolicy,
}

impl Clone for TunnelSpec {
    fn clone(&self) -> (r: Self)
        ensures
            r == *self,
    {
        TunnelSpec {
            id: self.id.clone(),
            name: self.name.clone(),
            enabled: self.enabled,
            profile_id: self.profile_id.clone(),
            kind: self.kind.clone(),
            backend: self.backend.clone(),
            policy: self.policy,
        }
    }
}

/// Why a tunnel is not acceptable, if it is not: the first rule it breaks.
pub open spec fn objection(s: TunnelSpec) -> Option<Seq<char>> {
    if text::blank(s.name@) {
        Some("隧道名称不能为空"@)
    } else if text::blank(s.profile_id@) {
        Some("未关联服务器档案"@)
    } else {
        match s.kind {
            TunnelKind::Local { target_host, bind, .. } => if text::blank(target_host@) {
                Some("目标地址不能为空"@)
            } else if text::blank(bind@) {
                Some("监听地址不能为空"@)
            } else {
                None
            },
            TunnelKind::Reverse { bind, .. } => if text::blank(bind@) {
                Some("监听地址不能为空"@)
            } else {
                None
            },
            TunnelKind::Dynamic { bind, .. } => if text::blank(bind@) {
                Some("监听地址不能为空"@)
            } else {
                None
            },
        }
    }
}

/// A lower-case hexadecimal digit.
pub open spec fn is_hex(c: char) -> bool {
    '0' <= c <= '9' || 'a' <= c <= 'f'
}

/// A version 4 UUID in its hyphenated lower-case form.
pub open spec fn is_uuid_v4(s: Seq<char>) -> bool {
    &&& s.len() == 36
    &&& forall|i: int|
        0 <= i < 36 ==> if i == 8 || i == 13 || i == 18 || i == 23 {
            #[trigger] s[i] == '-'
        } else {
            is_hex(s[i])
        }
    &&& s[14] == '4'
    &&& (s[19] == '8' || s[19] == '9' || s[19] == 'a' || s[19] == 'b')
}

/// `uuid::Uuid::new_v4` and the `Display` of its result: a random version 4 UUID, written
/// in the hyphenated lower-case form. Nothing is claimed of which one.
#[verifier::external_body]
fn random_uuid() -> (r: String)
    ensures
        is_uuid_v4(r@),
{
    uuid::Uuid::new_v4().to_string()
}

impl TunnelSpec {
    /// A fresh id for a new tunnel.
    pub fn new_id() -> (r: String)
        ensures
            is_uuid_v4(r@),
    {
        random_uuid()
    }

    /// Checks what a tunnel must satisfy. Port zero is in order: the server chooses.
    pub fn validate(&self) -> (r: Result<(), String>)
        ensures
            match r {
                Ok(_) => objection(*self) is None,
                Err(e) => objection(*self) == Some(e@),
            },
    {
        if is_blank(self.name.as_str()) {
            return Err("隧道名称不能为空".to_owned());
        }
        if is_blank(self.profile_id.as_str()) {
            return Err("未关联服务器档案".to_owned());
        }
        let bind = match &self.kind {
            TunnelKind::Reverse { bind, .. } => bind,
            TunnelKind::Local { bind, target_host, .. } => {
                if is_blank(target_host.as_str()) {
                    return Err("目标地址不能为空".to_owned());
                }
                bind
            },
            TunnelKind::Dynamic { bind, .. } => bind,
        };
        if is_blank(bind.as_str()) {
            return Err("监听地址不能为空".to_owned());
        }
        Ok(())
    }
}

/// The state of one tunnel.
#[derive(Debug, PartialEq, Eq)]
pub enum TunnelState {
    Stopped,
    /// Connecting, authenticating, setting the forward up.
    Starting,
    /// The session stands and the forward is ready.
    Running,
    /// Waiting before retry number `attempt`.
    Backoff { attempt: u32, wait_secs: u64 },
    /// Stopped by an error that reconnecting cannot cure, or with reconnecting off.
    Failed { message: String, retryable: bool },
}

impl Clone for TunnelState {
    fn clone(&self) -> (r: Self)
        ensures
            r == *self,
    {
        match self {
            TunnelState::Stopped => TunnelState::Stopped,
            TunnelState::Starting => TunnelState::Starting,
            TunnelState::Running => TunnelState::Running,
            TunnelState::Backoff { attempt, wait_secs } => TunnelState::Backoff {
                attempt: *attempt,
                wait_secs: *wait_secs,
            },
            TunnelState::Failed { message, retryable } => TunnelState::Failed {
                message: message.clone(),
                retryable: *retryable,
            },
        }
    }
}

/// A tunnel's state as a mathematical value.
pub enum StateView {
    Stopped,
    Starting,
    Running,
    Backoff { attempt: u32, wait_secs: u64 },
    Failed { message: Seq<char>, retryable: bool },
}

impl View for TunnelState {
    type V = StateView;

    open spec fn view(&self) -> StateView {
        match self {
            TunnelState::Stopped => StateView::Stopped,
            TunnelState::Starting => StateView::Starting,
            TunnelState::Running => StateView::Running,
            TunnelState::Backoff { attempt, wait_secs } => StateView::Backoff {
                attempt: *attempt,
                wait_secs: *wait_secs,
            },
            TunnelState::Failed { message, retryable } => StateView::Failed {
                message: message@,
                retryable: *retryable,
            },
        }
    }
}

/// The errors of tunnels and SSH operations. Each carries what a decision needs; what the
/// SSH library reported is kept as its text.
#[allow(inconsistent_fields)]
#[derive(Debug, PartialEq, Eq)]
pub enum TunnelError {
    /// The TCP or SSH connection could not be made.
    Connect { addr: String, source: String },
    /// The server refused the credentials.
    AuthRejected,
    /// The private key could not be loaded.
    KeyLoad { path: String, reason: String },
    /// Communication failed while authenticating.
    AuthIo { source: String },
    /// The local port could not be bound.
    PortInUse { port: u16, reason: String },
    /// The server refused the reverse forward.
    ForwardRejected { port: u32, reason: String },
    /// A channel could not be opened.
    ChannelOpen { what: String, reason: String },
    /// A protocol step or a probe failed.
    Protocol(String),
    /// The running session failed.
    Session { source: String },
    /// The server's key is not the one remembered for it.
    HostKeyChanged { host: String, expected: String, actual: String },
    /// The user gave up.
    Cancelled,
}

/// Whether reconnecting may cure an error.
pub open spec fn is_retryable(e: TunnelError) -> bool {
    e is Connect || e is AuthIo || e is ChannelOpen || e is Protocol || e is Session
}

/// What an error says to the user.
pub open spec fn error_text(e: TunnelError) -> Seq<char> {
    match e {
        TunnelError::Connect { addr, source } => "SSH 连接 "@ + addr@ + " 失败: "@ + source@,
        TunnelError::AuthRejected =>
            "认证被拒绝 (请检查用户名/密码, 或私钥是否已加入服务器 authorized_keys)"@,
        TunnelError::KeyLoad { path, reason } => "加载私钥 "@ + path@ + " 失败: "@ + reason@,
        TunnelError::AuthIo { source } => "认证失败: "@ + source@,
        TunnelError::PortInUse { port, reason } => "绑定本机监听端口 "@ + text::decimal(
            port as nat,
        ) + " 失败: "@ + reason@,
        TunnelError::ForwardRejected { port, reason } => "服务器拒绝反向端口转发 "@ + text::decimal(
            port as nat,
        ) + ": "@ + reason@,
        TunnelError::ChannelOpen { what, reason } => "打开"@ + what@ + "失败: "@ + reason@,
        TunnelError::Protocol(msg) => msg@,
        TunnelError::Session { source } => "SSH 会话错误: "@ + source@,
        TunnelError::HostKeyChanged { host, expected, actual } => "服务器 "@ + host@
            + " 主机密钥指纹已变更 (预期 "@ + expected@ + ", 实际 "@ + actual@
            + ") —— 若服务器确已重装, 请在「服务器」页清除指纹记录后重试"@,
        TunnelError::Cancelled => "已取消"@,
    }
}

impl TunnelError {
    /// Whether reconnecting may cure this error. What is in doubt counts as curable.
    pub fn retryable(&self) -> (r: bool)
        ensures
            r == is_retryable(*self),
    {
        match self {
            TunnelError::Connect { .. } => true,
            TunnelError::AuthIo { .. } => true,
            TunnelError::ChannelOpen { .. } => true,
            TunnelError::Protocol(_) => true,
            TunnelError::Session { .. } => true,
            _ => false,
        }
    }

    /// The message for the user.
    pub fn to_string(&self) -> (r: String)
        ensures
            r@ == error_text(*self),
    {
        match self {
            TunnelError::Connect { addr, source } => {
                let mut s = "SSH 连接 ".to_owned();
                s.append(addr.as_str());
                s.append(" 失败: ");
                s.append(source.as_str());
                s
            },
            TunnelError::AuthRejected =>
                "认证被拒绝 (请检查用户名/密码, 或私钥是否已加入服务器 authorized_keys)".to_owned(),
            TunnelError::KeyLoad { path, reason } => {
                let mut s = "加载私钥 ".to_owned();
                s.append(path.as_str());
                s.append(" 失败: ");
                s.append(reason.as_str());
                s
            },
            TunnelError::AuthIo { source } => {
                let mut s = "认证失败: ".to_owned();
                s.append(source.as_str());
                s
            },
            TunnelError::PortInUse { port, reason } => {
                let mut s = "绑定本机监听端口 ".to_owned();
                s.append(text::decimal_text(*port as u64).as_str());
                s.append(" 失败: ");
                s.append(reason.as_str());
                s
            },
            TunnelError::ForwardRejected { port, reason } => {
                let mut s = "服务器拒绝反向端口转发 ".to_owned();
                s.append(text::decimal_text(*port as u64).as_str());
                s.append(": ");
                s.append(reason.as_str());
                s
            },
            TunnelError::ChannelOpen { what, reason } => {
                let mut s = "打开".to_owned();
                s.append(what.as_str());
                s.append("失败: ");
                s.append(reason.as_str());
                s
            },
            TunnelError::Protocol(msg) => msg.clone(),
            TunnelError::Session { source } => {
                let mut s = "SSH 会话错误: ".to_owned();
                s.append(source.as_str());
                s
            },
            TunnelError::HostKeyChanged { host, expected, actual } => {
                let mut s = "服务器 ".to_owned();
                s.append(host.as_str());
                s.append(" 主机密钥指纹已变更 (预期 ");
                s.append(expected.as_str());
                s.append(", 实际 ");
                s.append(actual.as_str());
                s.append(") —— 若服务器确已重装, 请在「服务器」页清除指纹记录后重试");
                s
            },
            TunnelError::Cancelled => "已取消".to_owned(),
        }
    }
}

// ---------------------------------------------------------------- laws
/// A tunnel is acceptable exactly where it has a name, a profile, an address to listen on and,
/// if it is a local one, a target. Its ports do not matter. The complaint is about the first of
/// these that is missing, and never the same for two of them.
pub proof fn law_acceptable_tunnels(s: TunnelSpec)
    ensures
        objection(s) is None <==> {
            &&& !text::blank(s.name@)
            &&& !text::blank(s.profile_id@)
            &&& match s.kind {
                TunnelKind::Reverse { bind, .. } => !text::blank(bind@),
                TunnelKind::Local { bind, target_host, .. } => !text::blank(bind@)
                    && !text::blank(target_host@),
                TunnelKind::Dynamic { bind, .. } => !text::blank(bind@),
            }
        },
        text::blank(s.name@) <==> objection(s) == Some("隧道名称不能为空"@),
        objection(s) == Some("未关联服务器档案"@) <==> !text::blank(s.name@) && text::blank(
            s.profile_id@,
        ),
        objection(s) == Some("目标地址不能为空"@) <==> !text::blank(s.name@) && !text::blank(
            s.profile_id@,
        ) && (s.kind matches TunnelKind::Local { target_host, .. } && text::blank(target_host@)),
{
    reveal_strlit("隧道名称不能为空");
    reveal_strlit("未关联服务器档案");
    reveal_strlit("目标地址不能为空");
    reveal_strlit("监听地址不能为空");
    assert("隧道名称不能为空"@[0] == '隧');
    assert("未关联服务器档案"@[0] == '未');
    assert("目标地址不能为空"@[0] == '目');
    assert("监听地址不能为空"@[0] == '监');
}

/// Which errors are worth another try: those of reaching the server, of communicating while
/// authenticating, of channels, of the protocol and of the session. Refused credentials, a key
/// that cannot be loaded, a port that cannot be had on either side, a changed server key and the
/// user's own wish are not.
pub proof fn law_retryable_errors(e: TunnelError)
    ensures
        match e {
            TunnelError::Connect { .. } => is_retryable(e),
            TunnelError::AuthIo { .. } => is_retryable(e),
            TunnelError::ChannelOpen { .. } => is_retryable(e),
            TunnelError::Protocol(_) => is_retryable(e),
            TunnelError::Session { .. } => is_retryable(e),
            TunnelError::AuthRejected => !is_retryable(e),
            TunnelError::KeyLoad { .. } => !is_retryable(e),
            TunnelError::PortInUse { .. } => !is_retryable(e),
            TunnelError::ForwardRejected { .. } => !is_retryable(e),
            TunnelError::HostKeyChanged { .. } => !is_retryable(e),
            TunnelError::Cancelled => !is_retryable(e),
        },
{
}

/// The three shapes have three tags.
pub proof fn law_tags_tell_shapes_apart(a: TunnelKind, b: TunnelKind)
    ensures
        tag_of(a) == tag_of(b) <==> (a is Reverse == b is Reverse && a is Local == b is Local && a
            is Dynamic == b is Dynamic),
        a is Reverse ==> tag_of(a) == "remote"@,
        a is Local ==> tag_of(a) == "local"@,
        a is Dynamic ==> tag_of(a) == "dynamic"@,
{
    reveal_strlit("remote");
    reveal_strlit("local");
    reveal_strlit("dynamic");
    assert("remote"@[0] == 'r');
    assert("local"@[0] == 'l');
    assert("dynamic"@[0] == 'd');
}

/// What an error says holds what is known of it: the address and the cause of a connection that
/// failed, the path and the cause of a key that could not be loaded, the port and the cause of a
/// listener that could not be had, both fingerprints of a changed key in their order, and so on.
pub proof fn law_error_says_what_is_known(e: TunnelError)
    ensures
        match e {
            TunnelError::Connect { addr, source } => text::occurs(error_text(e), addr@)
                && text::ends_in(error_text(e), source@),
            TunnelError::KeyLoad { path, reason } => text::occurs(error_text(e), path@)
                && text::ends_in(error_text(e), reason@),
            TunnelError::AuthIo { source } => text::ends_in(error_text(e), source@),
            TunnelError::PortInUse { port, reason } => text::occurs(
                error_text(e),
                text::decimal(port as nat),
            ) && text::ends_in(error_text(e), reason@),
            TunnelError::ForwardRejected { port, reason } => text::occurs(
                error_text(e),
                text::decimal(port as nat),
            ) && text::ends_in(error_text(e), reason@),
            TunnelError::ChannelOpen { what, reason } => text::occurs(error_text(e), what@)
                && text::ends_in(error_text(e), reason@),
            TunnelError::Protocol(msg) => error_text(e) == msg@,
            TunnelError::Session { source } => text::ends_in(error_text(e), source@),
            TunnelError::HostKeyChanged { host, expected, actual } => text::occurs(
                error_text(e),
                host@,
            ) && text::occurs(error_text(e), expected@ + ", 实际 "@ + actual@),
            _ => true,
        },
{
    match e {
        TunnelError::Connect { addr, source } => {
            text::lemma_says("SSH 连接 "@, addr@, " 失败: "@, source@);
        },
        TunnelError::KeyLoad { path, reason } => {
            text::lemma_says("加载私钥 "@, path@, " 失败: "@, reason@);
        },
        TunnelError::AuthIo { source } => {
            text::lemma_says("认证失败: "@, seq![], seq![], source@);
        },
        TunnelError::PortInUse { port, reason } => {
            text::lemma_says(
                "绑定本机监听端口 "@,
                text::decimal(port as nat),
                " 失败: "@,
                reason@,
            );
        },
        TunnelError::ForwardRejected { port, reason } => {
            text::lemma_says(
                "服务器拒绝反向端口转发 "@,
                text::decimal(port as nat),
                ": "@,
                reason@,
            );
        },
        TunnelError::ChannelOpen { what, reason } => {
            text::lemma_says("打开"@, what@, "失败: "@, reason@);
        },
        TunnelError::Session { source } => {
            text::lemma_says("SSH 会话错误: "@, seq![], seq![], source@);
        },
        TunnelError::HostKeyChanged { host, expected, actual } => {
            lemma_changed_key_text(host@, expected@, actual@, error_text(e));
        },
        _ => {},
    }
}

proof fn lemma_changed_key_text(
    host: Seq<char>,
    expected: Seq<char>,
    actual: Seq<char>,
    t: Seq<char>,
)
    requires
        t == "服务器 "@ + host + " 主机密钥指纹已变更 (预期 "@ + expected + ", 实际 "@ + actual
            + ") —— 若服务器确已重装, 请在「服务器」页清除指纹记录后重试"@,
    ensures
        text::occurs(t, host),
        text::occurs(t, expected + ", 实际 "@ + actual),
{
    let mid = " 主机密钥指纹已变更 (预期 "@;
    let tail = ") —— 若服务器确已重装, 请在「服务器」页清除指纹记录后重试"@;
    let pair = expected + ", 实际 "@ + actual;
    text::lemma_says("服务器 "@, host, mid, pair + tail);
    assert("服务器 "@ + host + mid + (pair + tail) =~= t);
    text::law_occurrence("服务器 "@ + host + mid, pair, tail);
    assert("服务器 "@ + host + mid + pair + tail =~= t);
}

/// The policy of a tunnel that was given none: it reconnects; three retries come fast; waits are
/// capped at thirty seconds; three seconds of life start the sequence afresh; a probe every ten
/// seconds, and three unanswered ones mean the end.
pub proof fn law_default_policy(p: ReconnectPolicy)
    requires
        is_default_policy(p),
    ensures
        p.auto,
        p.fast_retries == 3,
        p.max_backoff@ == 30_000_000_000,
        p.alive_reset@ == 3_000_000_000,
        p.keepalive@ == 10_000_000_000,
        p.keepalive_max == 3,
{
}

/// A state is shown as it is: the number of the retry and its wait, the message and whether
/// another try may help.
pub proof fn law_state_is_shown_as_it_is(attempt: u32, secs: u64, message: String, retryable: bool)
    ensures
        (TunnelState::Backoff { attempt, wait_secs: secs })@ == (StateView::Backoff {
            attempt,
            wait_secs: secs,
        }),
        (TunnelState::Failed { message, retryable })@ == (StateView::Failed {
            message: message@,
            retryable,
        }),
        TunnelState::Stopped@ is Stopped,
        TunnelState::Starting@ is Starting,
        TunnelState::Running@ is Running,
{
}

} // verus!
