//! One SSH connection for several tunnels: which local landing a forwarded connection goes
//! to, how many channels are open, and what is done with the first byte of a channel.
use crate::known_hosts::HostKeyCheck;
use crate::text;
use crate::text::{decimal_text, hex_text};
use std::collections::HashMap;
use vstd::prelude::*;

verus! {

broadcast use vstd::std_specs::hash::group_hash_axioms;

/// The sessions a server usually allows per connection.
pub const DEFAULT_MAX_SESSIONS: usize = 10;

/// A local landing: host and port.
pub type Landing = (String, u16);

/// The landing of each port that the server listens on.
pub type RouteMap = HashMap<u16, Landing>;

/// Whether `t` is the landing of the only route there is.
pub open spec fn is_only_route(m: Map<u16, Landing>, t: Landing) -> bool {
    m.dom().len() == 1 && exists|k: u16| #[trigger] m.contains_key(k) && m[k] == t
}

/// Where a connection to `port` goes: to the landing of that port, or else to the only
/// landing there is, if there is only one.
pub open spec fn routes_to(m: Map<u16, Landing>, port: u16, r: Option<Landing>) -> bool {
    if m.contains_key(port) {
        r == Some(m[port])
    } else if m.dom().len() == 1 {
        r matches Some(t) && is_only_route(m, t)
    } else {
        r is None
    }
}

fn copy_landing(t: &Landing) -> (r: Landing)
    ensures
        r == *t,
{
    (t.0.clone(), t.1)
}

/// Looks up where a connection to `port` goes. The fallback to a single route keeps servers
/// working that report the port wrongly.
pub fn lookup_route(routes: &RouteMap, port: u16) -> (r: Option<Landing>)
    ensures
        routes_to(routes@, port, r),
{
    if let Some(t) = routes.get(&port) {
        return Some(copy_landing(t));
    }
    if routes.len() == 1 {
        for v in it: routes.values()
            invariant
                routes.len() == 1,
                it.seq().len() == routes@.dom().len(),
                it.seq().unref().to_set() == routes@.values(),
                it.index() == 0,
                !routes@.contains_key(port),
        {
            proof {
                let u = it.seq().unref();
                assert(u[0] == *v);
                assert(u.to_set().contains(*v));
                assert(routes@.values().contains(*v));
            }
            return Some(copy_landing(v));
        }
    }
    None
}

// ---------------------------------------------------------------- counting channels
/// The warning of a connection whose channels are used up.
pub open spec fn exhausted_note(count: nat, budget: nat) -> Seq<char> {
    "⚠️ 连接通道数 "@ + text::decimal(count) + " 已达预算 "@ + text::decimal(budget)
        + " —— 服务器 MaxSessions 可能拒绝新转发通道, 可在默认值中上调 MaxSessions 或关闭共享连接"@
}

/// The warning to log when `count` channels are open, if they reach the budget.
pub fn warn_exhausted(count: usize, budget: usize) -> (r: Option<String>)
    ensures
        match r {
            Some(s) => count >= budget && s@ == exhausted_note(count as nat, budget as nat),
            None => count < budget,
        },
{
    if count >= budget {
        let mut s = "⚠️ 连接通道数 ".to_owned();
        s.append(decimal_text(count as u64).as_str());
        s.append(" 已达预算 ");
        s.append(decimal_text(budget as u64).as_str());
        s.append(
            " —— 服务器 MaxSessions 可能拒绝新转发通道, 可在默认值中上调 MaxSessions 或关闭共享连接",
        );
        Some(s)
    } else {
        None
    }
}

/// The channels of one connection: how many are open, and how many are allowed.
#[derive(Debug, Clone, Copy, PartialEq, Eq, Structural)]
pub struct ChannelCount {
    pub open: usize,
    pub budget: usize,
}

/// The warning of a connection with these channels, if they reach the budget.
pub open spec fn warning_at(c: ChannelCount) -> Option<Seq<char>> {
    if c.open >= c.budget {
        Some(exhausted_note(c.open as nat, c.budget as nat))
    } else {
        None
    }
}

/// The count with one more channel open.
pub open spec fn one_more(c: ChannelCount) -> ChannelCount {
    ChannelCount { open: (c.open + 1) as usize, ..c }
}

/// The count with one channel fewer open.
pub open spec fn one_fewer(c: ChannelCount) -> ChannelCount {
    ChannelCount { open: (c.open - 1) as usize, ..c }
}

/// The right to one channel of a connection; it is given back by `release`.
#[derive(Debug, PartialEq, Eq)]
pub struct ChannelGuard;

impl ChannelGuard {
    /// Counts a channel that was opened. Comes with the warning to log, if there is one.
    pub fn acquire(count: &mut ChannelCount) -> (r: (Self, Option<String>))
        requires
            old(count).open < usize::MAX,
        ensures
            *final(count) == one_more(*old(count)),
            text::maybe(r.1) == warning_at(*final(count)),
    {
        count.open = count.open + 1;
        let note = warn_exhausted(count.open, count.budget);
        (ChannelGuard, note)
    }

    /// Counts a channel that was closed.
    pub fn release(self, count: &mut ChannelCount)
        requires
            old(count).open > 0,
        ensures
            *final(count) == one_fewer(*old(count)),
    {
        count.open = count.open - 1;
    }
}

/// Opening a channel and closing it leaves the count as it was.
pub proof fn law_channel_balance(c: ChannelCount)
    requires
        c.open < usize::MAX,
    ensures
        one_fewer(one_more(c)) == c,
        one_more(c).open == c.open + 1,
{
}

// ---------------------------------------------------------------- forwarded channels
/// What is done with a connection that the server forwards.
#[derive(Debug, PartialEq, Eq)]
pub enum Incoming {
    /// Nobody waits on that port: refuse the channel, and log this.
    Refuse(String),
    /// Bridge the channel to this address; log the warning, if there is one.
    Bridge { target: String, warning: Option<String> },
}

/// The address of a landing.
pub open spec fn address(t: Landing) -> Seq<char> {
    t.0@ + ":"@ + text::decimal(t.1 as nat)
}

/// What the tunnels of one connection share: the check of the server's key, whether
/// forwarded channels were found tampered with, the routes, and the open channels.
pub struct SharedHandler {
    pub host_check: HostKeyCheck,
    pub corrupted: bool,
    pub routes: RouteMap,
    pub channels: ChannelCount,
}

impl SharedHandler {
    /// The handler of a connection to `host:port` that allows `budget` channels.
    pub fn new(host: &str, port: u16, budget: usize) -> (r: Self)
        ensures
            r.host_check.host() == host@,
            r.host_check.port() == port,
            r.host_check.refusal() is None,
            !r.corrupted,
            r.routes@ == Map::<u16, Landing>::empty(),
            r.channels == (ChannelCount { open: 0, budget }),
    {
        SharedHandler {
            host_check: HostKeyCheck::new(host, port),
            corrupted: false,
            routes: HashMap::new(),
            channels: ChannelCount { open: 0, budget },
        }
    }

    /// Decides what is done with a connection that came in on `connected_port` of the
    /// server. One that is bridged counts as an open channel.
    pub fn on_forwarded(&mut self, connected_port: u32) -> (r: Incoming)
        requires
            old(self).channels.open < usize::MAX,
        ensures
            final(self).host_check == old(self).host_check,
            final(self).corrupted == old(self).corrupted,
            final(self).routes == old(self).routes,
            final(self).channels.budget == old(self).channels.budget,
            exists|t: Option<Landing>| #[trigger]
                routes_to(old(self).routes@, connected_port as u16, t) && match r {
                    Incoming::Refuse(line) => {
                        &&& t is None
                        &&& final(self).channels.open == old(self).channels.open
                        &&& line@ == "转发端口 "@ + text::decimal(connected_port as nat)
                            + " 无路由, 拒绝通道"@
                    },
                    Incoming::Bridge { target, warning } => {
                        &&& t is Some
                        &&& target@ == address(t->0)
                        &&& final(self).channels.open == old(self).channels.open + 1
                        &&& text::maybe(warning) == warning_at(final(self).channels)
                    },
                },
    {
        #[verifier::truncate]
        let port = connected_port as u16;
        let found = lookup_route(&self.routes, port);
        assert(routes_to(self.routes@, connected_port as u16, found));
        match found {
            None => {
                let mut line = "转发端口 ".to_owned();
                line.append(decimal_text(connected_port as u64).as_str());
                line.append(" 无路由, 拒绝通道");
                Incoming::Refuse(line)
            },
            Some(t) => {
                let (_, warning) = ChannelGuard::acquire(&mut self.channels);
                let mut target = t.0.clone();
                target.append(":");
                target.append(decimal_text(t.1 as u64).as_str());
                Incoming::Bridge { target, warning }
            },
        }
    }

    /// A bridged connection ended: its channel is given back.
    pub fn on_bridge_ended(&mut self)
        requires
            old(self).channels.open > 0,
        ensures
            final(self).host_check == old(self).host_check,
            final(self).corrupted == old(self).corrupted,
            final(self).routes == old(self).routes,
            final(self).channels == one_fewer(old(self).channels),
    {
        let guard = ChannelGuard;
        guard.release(&mut self.channels);
    }
}

/// What copying both ways came to: the bytes carried either way, or the error as the system
/// describes it.
pub open spec fn copy_outcome(copied: Result<(u64, u64), String>) -> Seq<char> {
    match copied {
        Ok(n) => "(Ok(("@ + text::decimal(n.0 as nat) + ", "@ + text::decimal(n.1 as nat) + ")))"@,
        Err(e) => "(Err("@ + e@ + "))"@,
    }
}

/// Puts what copying came to behind `what`.
pub(crate) fn copy_line(what: &str, copied: &Result<(u64, u64), String>) -> (r: String)
    ensures
        r@ == what@ + copy_outcome(*copied),
{
    let mut s = what.to_owned();
    match copied {
        Ok(n) => {
            s.append("(Ok((");
            s.append(decimal_text(n.0).as_str());
            s.append(", ");
            s.append(decimal_text(n.1).as_str());
            s.append(")))");
        },
        Err(e) => {
            s.append("(Err(");
            s.append(e.as_str());
            s.append("))");
        },
    }
    assert(s@ =~= what@ + copy_outcome(*copied));
    s
}

/// What a bridged channel asks for.
#[derive(Debug, PartialEq, Eq)]
pub enum BridgeAction {
    /// Connect to this landing.
    Dial(String),
    /// Write this byte to the landing.
    Pass(u8),
    /// Copy both ways until the end.
    Copy,
    /// Close the channel.
    Close,
    /// Note that the connection's forwarded channels are tampered with, and close this one.
    Taint,
}

/// The bridge of one forwarded channel.
pub struct Bridge {
    target: String,
    head: Option<u8>,
}

impl Bridge {
    /// The address of the landing.
    pub closed spec fn target(&self) -> Seq<char> {
        self.target@
    }

    /// The first byte, once it is there.
    pub closed spec fn head(&self) -> Option<u8> {
        self.head
    }

    /// A channel whose first byte is awaited.
    pub fn new(target: String) -> (r: Self)
        ensures
            r.target() == target@,
            r.head() is None,
    {
        Bridge { target, head: None }
    }

    /// Takes the first byte. A channel that stays silent is closed. A zero byte is what
    /// injected audit data begins with: the connection is tainted. Every other byte may be
    /// the first one of an application.
    pub fn on_head(&mut self, head: Option<u8>) -> (r: (BridgeAction, Option<String>))
        ensures
            final(self).target() == old(self).target(),
            final(self).head() == head,
            match head {
                None => r.0 is Close && (r.1 matches Some(s) && s@ == "转发通道无数据, 关闭"@),
                Some(0u8) => r.0 is Taint && (r.1 matches Some(s) && s@
                    == "检测到转发通道首字节 0x00, 疑似服务器端注入审计数据 (云主机安全组件)"@),
                Some(_) => (r.0 matches BridgeAction::Dial(t) && t@ == old(self).target()) && r.1
                    is None,
            },
    {
        self.head = head;
        match head {
            None => (BridgeAction::Close, Some("转发通道无数据, 关闭".to_owned())),
            Some(b) => if b == 0 {
                (
                    BridgeAction::Taint,
                    Some(
                        "检测到转发通道首字节 0x00, 疑似服务器端注入审计数据 (云主机安全组件)".to_owned(),
                    ),
                )
            } else {
                (BridgeAction::Dial(self.target.clone()), None)
            },
        }
    }

    /// Takes the outcome of dialing the landing. What it is sent first is the first byte.
    pub fn on_dialed(&self, outcome: Result<(), String>) -> (r: (BridgeAction, String))
        requires
            self.head() is Some,
        ensures
            match outcome {
                Ok(_) => r.0 == BridgeAction::Pass(self.head()->0) && r.1@ == "已连接本地代理 "@
                    + self.target(),
                Err(e) => r.0 is Close && r.1@ == "连接本地代理 "@ + self.target() + " 失败: "@ + e@,
            },
    {
        match outcome {
            Ok(_) => {
                let mut s = "已连接本地代理 ".to_owned();
                s.append(self.target.as_str());
                match self.head {
                    Some(b) => (BridgeAction::Pass(b), s),
                    None => (BridgeAction::Close, s),
                }
            },
            Err(e) => {
                let mut s = "连接本地代理 ".to_owned();
                s.append(self.target.as_str());
                s.append(" 失败: ");
                s.append(e.as_str());
                (BridgeAction::Close, s)
            },
        }
    }

    /// Takes the outcome of passing the first byte on.
    pub fn on_passed(&self, outcome: Result<(), String>) -> (r: (BridgeAction, Option<String>))
        ensures
            match outcome {
                Ok(_) => r.0 is Copy && r.1 is None,
                Err(e) => r.0 is Close && (r.1 matches Some(s) && s@ == "写回首字节失败: "@ + e@),
            },
    {
        match outcome {
            Ok(_) => (BridgeAction::Copy, None),
            Err(e) => {
                let mut s = "写回首字节失败: ".to_owned();
                s.append(e.as_str());
                (BridgeAction::Close, Some(s))
            },
        }
    }

    /// The line of a channel whose copying ended.
    pub fn closed_line(copied: &Result<(u64, u64), String>) -> (r: String)
        ensures
            r@ == "连接关闭 "@ + copy_outcome(*copied),
    {
        copy_line("连接关闭 ", copied)
    }
}

// ---------------------------------------------------------------- SOCKS landings
/// The handler of a connection whose only landing is a SOCKS5 server. Every client of such a
/// landing begins with the version byte, so more can be told from the first byte.
pub struct TunnelHandler {
    pub target: String,
    /// A forwarded channel was found tampered with.
    pub corrupted: bool,
}

impl TunnelHandler {
    /// The handler of a connection that lands at `host:port`.
    pub fn new(host: &str, port: u16) -> (r: Self)
        ensures
            r.target@ == host@ + ":"@ + text::decimal(port as nat),
            !r.corrupted,
    {
        let mut target = host.to_owned();
        target.append(":");
        target.append(decimal_text(port as u64).as_str());
        TunnelHandler { target, corrupted: false }
    }

    /// Takes the first byte of a channel. Only the version byte of SOCKS5 is bridged. A zero
    /// byte is what injected audit data begins with; every other byte comes from a probe and
    /// is dropped with its channel.
    pub fn on_head(&mut self, head: Option<u8>) -> (r: (BridgeAction, Option<String>))
        ensures
            final(self).target == old(self).target,
            final(self).corrupted == (old(self).corrupted || head == Some(0u8)),
            match head {
                None => r.0 is Close && text::maybe(r.1) == Some("转发通道无数据, 关闭"@),
                Some(5u8) => r.0 == BridgeAction::Dial(old(self).target) && r.1 is None,
                Some(0u8) => r.0 is Taint && text::maybe(r.1) == Some(
                    "检测到转发通道首字节 0x00, 疑似服务器端注入审计数据 (云主机安全组件)"@,
                ),
                Some(b) => r.0 is Close && text::maybe(r.1) == Some(
                    "转发通道首字节 0x"@ + text::hex_byte(b) + " 非 SOCKS5 (探测数据?), 关闭"@,
                ),
            },
    {
        match head {
            None => (BridgeAction::Close, Some("转发通道无数据, 关闭".to_owned())),
            Some(b) => if b == 5 {
                (BridgeAction::Dial(self.target.clone()), None)
            } else if b == 0 {
                self.corrupted = true;
                (
                    BridgeAction::Taint,
                    Some(
                        "检测到转发通道首字节 0x00, 疑似服务器端注入审计数据 (云主机安全组件)".to_owned(),
                    ),
                )
            } else {
                let mut s = "转发通道首字节 0x".to_owned();
                s.append(hex_text(&[b]).as_str());
                s.append(" 非 SOCKS5 (探测数据?), 关闭");
                proof {
                    let d = [b]@;
                    assert(d.drop_last() =~= seq![]);
                    assert(text::hex(d.drop_last()) =~= seq![]);
                    assert(text::hex(d) =~= text::hex_byte(b));
                }
                (BridgeAction::Close, Some(s))
            },
        }
    }
}

// ---------------------------------------------------------------- laws
/// Where a forwarded connection goes: to the landing of its port, always, where there is one; to
/// the only landing, where there is just one, of whatever port; nowhere otherwise. A landing that
/// is given is one of the routes.
pub proof fn law_connection_finds_its_landing(
    m: Map<u16, Landing>,
    port: u16,
    r: Option<Landing>,
    k: u16,
    t: Landing,
)
    requires
        routes_to(m, port, r),
    ensures
        m.dom().contains(port) ==> r == Some(m[port]),
        r is Some ==> exists|q: u16| #[trigger] m.dom().contains(q) && m[q] == r->0,
        m == Map::<u16, Landing>::empty().insert(k, t) ==> r == Some(t),
        m == Map::<u16, Landing>::empty() ==> r is None,
        m.dom().finite() && m.dom().len() >= 2 && !m.dom().contains(port) ==> r is None,
{
    if m == Map::<u16, Landing>::empty().insert(k, t) {
        assert(m.dom() =~= Set::empty().insert(k));
        assert(m.dom().len() == 1);
        if !m.contains_key(port) {
            assert(is_only_route(m, r->0));
            let q = choose|q: u16| #[trigger] m.contains_key(q) && m[q] == r->0;
            assert(q == k);
        }
    }
    if m.contains_key(port) {
        assert(m.dom().contains(port));
    } else if r is Some {
        assert(is_only_route(m, r->0));
        let q = choose|q: u16| #[trigger] m.contains_key(q) && m[q] == r->0;
        assert(m.dom().contains(q));
    }
    if m == Map::<u16, Landing>::empty() {
        assert(m.dom() =~= Set::empty());
    }
}

/// A connection warns exactly where its open channels have reached its budget, and the warning
/// gives both numbers. Opening and closing move the count by one and leave the budget.
pub proof fn law_used_up_channels_warn(c: ChannelCount)
    ensures
        warning_at(c) is Some <==> c.open >= c.budget,
        warning_at(c) matches Some(w) ==> text::occurs(w, text::decimal(c.open as nat))
            && text::occurs(w, text::decimal(c.budget as nat)),
        c.open < usize::MAX ==> one_more(c).open == c.open + 1,
        c.open > 0 ==> one_fewer(c).open == c.open - 1,
        one_more(c).budget == c.budget,
        one_fewer(c).budget == c.budget,
{
    let a = text::decimal(c.open as nat);
    let b = text::decimal(c.budget as nat);
    let tail = " —— 服务器 MaxSessions 可能拒绝新转发通道, 可在默认值中上调 MaxSessions 或关闭共享连接"@;
    text::lemma_says("⚠️ 连接通道数 "@, a, " 已达预算 "@, b + tail);
    assert("⚠️ 连接通道数 "@ + a + " 已达预算 "@ + (b + tail) =~= exhausted_note(
        c.open as nat,
        c.budget as nat,
    ));
    text::law_occurrence("⚠️ 连接通道数 "@ + a + " 已达预算 "@, b, tail);
}

/// The address that is dialed is the landing's host, a colon, and the numeral of its port.
pub proof fn law_address_is_host_and_port(t: Landing)
    ensures
        t.0@.is_prefix_of(address(t)),
        address(t)[t.0@.len() as int] == ':',
        text::digits_value(address(t).skip(t.0@.len() as int + 1)) == t.1,
{
    reveal_strlit(":");
    text::lemma_decimal_value(t.1 as nat);
    assert(address(t).take(t.0@.len() as int) =~= t.0@);
    assert(address(t).skip(t.0@.len() as int + 1) =~= text::decimal(t.1 as nat));
}

/// What copying came to tells the bytes of both directions, the sender's first, or the error.
pub proof fn law_copied_bytes_are_told(a: u64, b: u64, e: String)
    ensures
        text::occurs(
            copy_outcome(Ok((a, b))),
            text::decimal(a as nat) + ", "@ + text::decimal(b as nat),
        ),
        text::occurs(copy_outcome(Err(e)), e@),
{
    let x = text::decimal(a as nat);
    let y = text::decimal(b as nat);
    let pair = x + ", "@ + y;
    text::law_occurrence("(Ok(("@, pair, ")))"@);
    assert("(Ok(("@ + pair + ")))"@ =~= copy_outcome(Ok((a, b))));
    text::law_occurrence("(Err("@, e@, "))"@);
}

} // verus!
