//! The built-in SOCKS5 server: CONNECT only, no authentication, for this machine.
use crate::model::TunnelError;
use crate::text;
use crate::text::{decimal_text, text_of};
use vstd::prelude::*;
use vstd::slice::slice_to_vec;

verus! {

/// A target as the client names it.
#[derive(Debug, PartialEq, Eq)]
pub enum SocksHost {
    /// A name or an IPv4 address, as text.
    Name(String),
    /// The sixteen octets of an IPv6 address.
    V6(Vec<u8>),
}

/// A target as a mathematical value.
pub enum HostView {
    Name(Seq<char>),
    V6(Seq<u8>),
}

impl View for SocksHost {
    type V = HostView;

    open spec fn view(&self) -> HostView {
        match self {
            SocksHost::Name(s) => HostView::Name(s@),
            SocksHost::V6(o) => HostView::V6(o@),
        }
    }
}

/// What the server asks for next.
#[derive(Debug, PartialEq, Eq)]
pub enum SocksAction {
    /// Read exactly this many bytes.
    Read(usize),
    /// Write these bytes.
    Write(Vec<u8>),
    /// Connect to the target, for ten seconds at most.
    Dial { host: SocksHost, port: u16 },
    /// Copy both ways until the end.
    Relay,
    /// Close the client's connection.
    Close,
}

/// An action as a mathematical value.
pub enum SocksActionView {
    Read(nat),
    Write(Seq<u8>),
    Dial { host: HostView, port: u16 },
    Relay,
    Close,
}

impl View for SocksAction {
    type V = SocksActionView;

    open spec fn view(&self) -> SocksActionView {
        match self {
            SocksAction::Read(n) => SocksActionView::Read(*n as nat),
            SocksAction::Write(d) => SocksActionView::Write(d@),
            SocksAction::Dial { host, port } => SocksActionView::Dial { host: host@, port: *port },
            SocksAction::Relay => SocksActionView::Relay,
            SocksAction::Close => SocksActionView::Close,
        }
    }
}

/// The actions of an executable vector.
pub open spec fn socks_actions(v: Seq<SocksAction>) -> Seq<SocksActionView> {
    v.map_values(|a: SocksAction| a@)
}

/// Where a client's session stands: what is read next.
#[derive(Debug, PartialEq, Eq)]
pub enum SocksState {
    /// Version and number of methods.
    Greeting,
    /// This many methods.
    Methods(u8),
    /// Version, command, a reserved byte, type of address.
    Head,
    /// An IPv4 address.
    V4,
    /// The length of a name.
    NameLen,
    /// A name of this length.
    Name(u8),
    /// An IPv6 address.
    V6,
    /// The port of this target.
    Port(SocksHost),
    /// Nothing: the target is being dialed.
    Dialing,
    /// Nothing: the session relays, or is closed.
    Done,
}

/// The state as a mathematical value.
pub enum SocksStateView {
    Greeting,
    Methods(u8),
    Head,
    V4,
    NameLen,
    Name(u8),
    V6,
    Port(HostView),
    Dialing,
    Done,
}

impl View for SocksState {
    type V = SocksStateView;

    open spec fn view(&self) -> SocksStateView {
        match self {
            SocksState::Greeting => SocksStateView::Greeting,
            SocksState::Methods(n) => SocksStateView::Methods(*n),
            SocksState::Head => SocksStateView::Head,
            SocksState::V4 => SocksStateView::V4,
            SocksState::NameLen => SocksStateView::NameLen,
            SocksState::Name(n) => SocksStateView::Name(*n),
            SocksState::V6 => SocksStateView::V6,
            SocksState::Port(h) => SocksStateView::Port(h@),
            SocksState::Dialing => SocksStateView::Dialing,
            SocksState::Done => SocksStateView::Done,
        }
    }
}

/// How many bytes a state reads; none where it reads nothing.
pub open spec fn wanted(s: SocksStateView) -> Option<nat> {
    match s {
        SocksStateView::Greeting => Some(2),
        SocksStateView::Methods(n) => Some(n as nat),
        SocksStateView::Head => Some(4),
        SocksStateView::V4 => Some(4),
        SocksStateView::NameLen => Some(1),
        SocksStateView::Name(n) => Some(n as nat),
        SocksStateView::V6 => Some(16),
        SocksStateView::Port(_) => Some(2),
        _ => None,
    }
}

/// A reply: version, code, and an address of zeros.
pub open spec fn reply_bytes(code: u8) -> Seq<u8> {
    seq![5u8, code, 0, 1, 0, 0, 0, 0, 0, 0]
}

/// The text of an IPv4 address.
pub open spec fn v4_text(o: Seq<u8>) -> Seq<char> {
    text::decimal(o[0] as nat) + "."@ + text::decimal(o[1] as nat) + "."@ + text::decimal(
        o[2] as nat,
    ) + "."@ + text::decimal(o[3] as nat)
}

/// A port, most significant byte first.
pub open spec fn port_value(d: Seq<u8>) -> u16 {
    (d[0] * 256 + d[1]) as u16
}

/// What reading does to a session.
pub struct SocksStep {
    pub state: SocksStateView,
    pub actions: Seq<SocksActionView>,
}

/// The session goes on reading.
pub open spec fn reads(state: SocksStateView) -> SocksStep {
    SocksStep { state, actions: seq![SocksActionView::Read(wanted(state)->0)] }
}

/// The session ends with a reply.
pub open spec fn refuses(code: u8) -> SocksStep {
    SocksStep {
        state: SocksStateView::Done,
        actions: seq![SocksActionView::Write(reply_bytes(code)), SocksActionView::Close],
    }
}

/// What the bytes that were wanted do to a session.
pub open spec fn socks_next(state: SocksStateView, d: Seq<u8>) -> SocksStep {
    match state {
        SocksStateView::Greeting => if d[0] != 5 {
            SocksStep { state: SocksStateView::Done, actions: seq![SocksActionView::Close] }
        } else {
            reads(SocksStateView::Methods(d[1]))
        },
        SocksStateView::Methods(_) => if d.contains(0u8) {
            SocksStep {
                state: SocksStateView::Head,
                actions: seq![
                    SocksActionView::Write(seq![5u8, 0]),
                    SocksActionView::Read(4),
                ],
            }
        } else {
            SocksStep {
                state: SocksStateView::Done,
                actions: seq![
                    SocksActionView::Write(seq![5u8, 0xFF]),
                    SocksActionView::Close,
                ],
            }
        },
        SocksStateView::Head => if d[1] != 1 {
            refuses(7)
        } else if d[3] == 1 {
            reads(SocksStateView::V4)
        } else if d[3] == 3 {
            reads(SocksStateView::NameLen)
        } else if d[3] == 4 {
            reads(SocksStateView::V6)
        } else {
            refuses(8)
        },
        SocksStateView::V4 => reads(SocksStateView::Port(HostView::Name(v4_text(d)))),
        SocksStateView::NameLen => reads(SocksStateView::Name(d[0])),
        SocksStateView::Name(_) => reads(
            SocksStateView::Port(HostView::Name(text::lossy_text(d))),
        ),
        SocksStateView::V6 => reads(SocksStateView::Port(HostView::V6(d))),
        SocksStateView::Port(host) => SocksStep {
            state: SocksStateView::Dialing,
            actions: seq![SocksActionView::Dial { host, port: port_value(d) }],
        },
        _ => SocksStep { state, actions: seq![] },
    }
}

/// How dialing the target went.
#[derive(Debug, Clone, Copy, PartialEq, Eq, Structural)]
pub enum Dialed {
    Connected,
    Failed,
    TimedOut,
}

/// The code that a client is told.
pub open spec fn dial_code(d: Dialed) -> u8 {
    match d {
        Dialed::Connected => 0,
        Dialed::Failed => 5,
        Dialed::TimedOut => 4,
    }
}

fn reply(code: u8) -> (r: SocksAction)
    ensures
        r@ == SocksActionView::Write(reply_bytes(code)),
{
    let v: Vec<u8> = vec![5, code, 0, 1, 0, 0, 0, 0, 0, 0];
    assert(v@ =~= reply_bytes(code));
    SocksAction::Write(v)
}

/// One client's session.
pub struct SocksSession {
    state: SocksState,
}

impl View for SocksSession {
    type V = SocksStateView;

    closed spec fn view(&self) -> SocksStateView {
        self.state@
    }
}

impl SocksSession {
    /// A client that was just accepted. Its first two bytes are wanted.
    pub fn new() -> (r: Self)
        ensures
            r@ is Greeting,
    {
        SocksSession { state: SocksState::Greeting }
    }

    /// How many bytes are wanted next.
    pub fn wants(&self) -> (r: Option<usize>)
        ensures
            match r {
                Some(n) => wanted(self@) == Some(n as nat),
                None => wanted(self@) is None,
            },
    {
        match &self.state {
            SocksState::Greeting => Some(2),
            SocksState::Methods(n) => Some(*n as usize),
            SocksState::Head => Some(4),
            SocksState::V4 => Some(4),
            SocksState::NameLen => Some(1),
            SocksState::Name(n) => Some(*n as usize),
            SocksState::V6 => Some(16),
            SocksState::Port(_) => Some(2),
            _ => None,
        }
    }

    fn has_zero(d: &[u8]) -> (r: bool)
        ensures
            r == d@.contains(0u8),
    {
        let mut i: usize = 0;
        while i < d.len()
            invariant
                i <= d.len(),
                forall|j: int| 0 <= j < i ==> d@[j] != 0,
            decreases d.len() - i,
        {
            if d[i] == 0 {
                assert(d@[i as int] == 0);
                return true;
            }
            i = i + 1;
        }
        false
    }

    fn v4(d: &[u8]) -> (r: String)
        requires
            d@.len() == 4,
        ensures
            r@ == v4_text(d@),
    {
        let mut s = decimal_text(d[0] as u64);
        s.append(".");
        s.append(decimal_text(d[1] as u64).as_str());
        s.append(".");
        s.append(decimal_text(d[2] as u64).as_str());
        s.append(".");
        s.append(decimal_text(d[3] as u64).as_str());
        s
    }

    fn go(&mut self, state: SocksState, out: &mut Vec<SocksAction>)
        requires
            wanted(state@) is Some,
        ensures
            final(self)@ == state@,
            socks_actions(final(out)@) == socks_actions(old(out)@).push(
                SocksActionView::Read(wanted(state@)->0),
            ),
    {
        self.state = state;
        let n = match self.wants() {
            Some(n) => n,
            None => 0,
        };
        let ghost before = out@;
        let a = SocksAction::Read(n);
        out.push(a);
        assert(socks_actions(out@) =~= socks_actions(before).push(a@));
    }

    fn refuse(&mut self, code: u8, out: &mut Vec<SocksAction>)
        ensures
            final(self)@ is Done,
            socks_actions(final(out)@) == socks_actions(old(out)@) + refuses(code).actions,
    {
        let ghost before = out@;
        self.state = SocksState::Done;
        out.push(reply(code));
        out.push(SocksAction::Close);
        assert(socks_actions(out@) =~= socks_actions(before) + refuses(code).actions);
    }

    /// Takes the bytes that were wanted and says what follows.
    pub fn on_read(&mut self, d: &[u8]) -> (r: Vec<SocksAction>)
        requires
            wanted(old(self)@) == Some(d@.len()),
        ensures
            final(self)@ == socks_next(old(self)@, d@).state,
            socks_actions(r@) == socks_next(old(self)@, d@).actions,
            old(self)@ is Name && vstd::utf8::valid_utf8(d@) ==> final(self)@
                == SocksStateView::Port(HostView::Name(vstd::utf8::decode_utf8(d@))),
    {
        let ghost step = socks_next(self@, d@);
        let mut out: Vec<SocksAction> = Vec::new();
        assert(socks_actions(out@) =~= seq![]);
        match &self.state {
            SocksState::Greeting => {
                if d[0] != 5 {
                    self.state = SocksState::Done;
                    out.push(SocksAction::Close);
                } else {
                    self.go(SocksState::Methods(d[1]), &mut out);
                }
            },
            SocksState::Methods(_) => {
                let v: Vec<u8> = if Self::has_zero(d) {
                    vec![5, 0]
                } else {
                    vec![5, 0xFF]
                };
                if Self::has_zero(d) {
                    assert(v@ =~= seq![5u8, 0]);
                    out.push(SocksAction::Write(v));
                    self.go(SocksState::Head, &mut out);
                } else {
                    assert(v@ =~= seq![5u8, 0xFF]);
                    self.state = SocksState::Done;
                    out.push(SocksAction::Write(v));
                    out.push(SocksAction::Close);
                }
            },
            SocksState::Head => {
                if d[1] != 1 {
                    self.refuse(7, &mut out);
                } else if d[3] == 1 {
                    self.go(SocksState::V4, &mut out);
                } else if d[3] == 3 {
                    self.go(SocksState::NameLen, &mut out);
                } else if d[3] == 4 {
                    self.go(SocksState::V6, &mut out);
                } else {
                    self.refuse(8, &mut out);
                }
            },
            SocksState::V4 => {
                let host = SocksHost::Name(Self::v4(d));
                self.go(SocksState::Port(host), &mut out);
            },
            SocksState::NameLen => {
                self.go(SocksState::Name(d[0]), &mut out);
            },
            SocksState::Name(_) => {
                let host = SocksHost::Name(text_of(d));
                self.go(SocksState::Port(host), &mut out);
            },
            SocksState::V6 => {
                let host = SocksHost::V6(slice_to_vec(d));
                self.go(SocksState::Port(host), &mut out);
            },
            SocksState::Port(host) => {
                let host = match host {
                    SocksHost::Name(s) => SocksHost::Name(s.clone()),
                    SocksHost::V6(o) => SocksHost::V6(slice_to_vec(o.as_slice())),
                };
                let port: u16 = d[0] as u16 * 256 + d[1] as u16;
                self.state = SocksState::Dialing;
                out.push(SocksAction::Dial { host, port });
            },
            _ => {},
        }
        assert(socks_actions(out@) =~= step.actions);
        out
    }

    /// Takes the outcome of dialing the target: the client is told, and served or left.
    pub fn on_dialed(&mut self, d: Dialed) -> (r: Vec<SocksAction>)
        requires
            old(self)@ is Dialing,
        ensures
            final(self)@ is Done,
            socks_actions(r@) == seq![
                SocksActionView::Write(reply_bytes(dial_code(d))),
                if d is Connected {
                    SocksActionView::Relay
                } else {
                    SocksActionView::Close
                },
            ],
    {
        let mut out: Vec<SocksAction> = Vec::new();
        self.state = SocksState::Done;
        match d {
            Dialed::Connected => {
                out.push(reply(0));
                out.push(SocksAction::Relay);
            },
            Dialed::Failed => {
                out.push(reply(5));
                out.push(SocksAction::Close);
            },
            Dialed::TimedOut => {
                out.push(reply(4));
                out.push(SocksAction::Close);
            },
        }
        assert(socks_actions(out@) =~= seq![
            SocksActionView::Write(reply_bytes(dial_code(d))),
            if d is Connected {
                SocksActionView::Relay
            } else {
                SocksActionView::Close
            },
        ]);
        out
    }
}

// ---------------------------------------------------------------- listening
/// Why the server could not be started.
#[derive(Debug, PartialEq, Eq)]
pub enum StartFailure {
    /// The port could not be bound.
    Bind(String),
    /// The bound port could not be learned.
    Address(String),
}

/// What is said of a server on `port` that could not be started.
pub open spec fn start_failure_text(port: u16, f: StartFailure) -> Seq<char> {
    match f {
        StartFailure::Bind(e) => "绑定内置 SOCKS 端口 "@ + text::decimal(port as nat) + " 失败: "@
            + e@,
        StartFailure::Address(e) => "获取内置 SOCKS 端口失败: "@ + e@,
    }
}

/// What starting the server on a port of this machine comes to: the port it listens on, or
/// an error that starting again cannot cure.
pub fn start_socks_server(port: u16, bound: Result<u16, StartFailure>) -> (r: Result<
    u16,
    TunnelError,
>)
    ensures
        match bound {
            Ok(p) => r == Ok::<u16, TunnelError>(p),
            Err(f) => r matches Err(TunnelError::PortInUse { port: q, reason }) && q == port
                && reason@ == start_failure_text(port, f),
        },
{
    match bound {
        Ok(p) => Ok(p),
        Err(StartFailure::Bind(e)) => {
            let mut reason = "绑定内置 SOCKS 端口 ".to_owned();
            reason.append(decimal_text(port as u64).as_str());
            reason.append(" 失败: ");
            reason.append(e.as_str());
            Err(TunnelError::PortInUse { port, reason })
        },
        Err(StartFailure::Address(e)) => {
            let mut reason = "获取内置 SOCKS 端口失败: ".to_owned();
            reason.append(e.as_str());
            Err(TunnelError::PortInUse { port, reason })
        },
    }
}

// ---------------------------------------------------------------- laws
/// A session that reads a whole stream, piece by piece as it wants it: the state it comes
/// to, and all it asked for.
pub open spec fn socks_run(state: SocksStateView, d: Seq<u8>, fuel: nat) -> SocksStep
    decreases fuel,
{
    match wanted(state) {
        Some(n) if fuel > 0 && n <= d.len() => {
            let a = socks_next(state, d.take(n as int));
            let b = socks_run(a.state, d.skip(n as int), (fuel - 1) as nat);
            SocksStep { state: b.state, actions: a.actions + b.actions }
        },
        _ => SocksStep { state, actions: seq![] },
    }
}

/// What a client may ask for: an IPv4 address, a name, an IPv6 address.
pub enum Asked {
    V4(Seq<u8>),
    Name(Seq<u8>),
    V6(Seq<u8>),
}

/// Whether the address has the length that its type wants.
pub open spec fn well_sized(a: Asked) -> bool {
    match a {
        Asked::V4(addr) => addr.len() == 4,
        Asked::Name(name) => name.len() <= 255,
        Asked::V6(addr) => addr.len() == 16,
    }
}

/// The request to connect, up to the port.
pub open spec fn address_bytes(a: Asked) -> Seq<u8> {
    match a {
        Asked::V4(addr) => seq![5u8, 1, 0, 1] + addr,
        Asked::Name(name) => seq![5u8, 1, 0, 3] + (seq![name.len() as u8] + name),
        Asked::V6(addr) => seq![5u8, 1, 0, 4] + addr,
    }
}

/// The host that is asked for.
pub open spec fn host_asked(a: Asked) -> HostView {
    match a {
        Asked::V4(addr) => HostView::Name(v4_text(addr)),
        Asked::Name(name) => HostView::Name(text::lossy_text(name)),
        Asked::V6(addr) => HostView::V6(addr),
    }
}

/// What is read of the request after its head.
pub open spec fn address_reads(a: Asked) -> Seq<SocksActionView> {
    match a {
        Asked::V4(_) => seq![SocksActionView::Read(4), SocksActionView::Read(2)],
        Asked::Name(name) => seq![
            SocksActionView::Read(1),
            SocksActionView::Read(name.len()),
            SocksActionView::Read(2),
        ],
        Asked::V6(_) => seq![SocksActionView::Read(16), SocksActionView::Read(2)],
    }
}

/// A port, most significant byte first.
pub open spec fn port_bytes(port: u16) -> Seq<u8> {
    seq![(port / 256) as u8, (port % 256) as u8]
}

/// The bytes of a client that offers `methods` and asks for an address and a port.
pub open spec fn request(methods: Seq<u8>, a: Asked, port: u16) -> Seq<u8> {
    seq![5u8, methods.len() as u8] + (methods + (address_bytes(a) + port_bytes(port)))
}

/// One piece of a stream that a session reads.
proof fn lemma_socks_piece(state: SocksStateView, d: Seq<u8>, rest: Seq<u8>, fuel: nat)
    requires
        wanted(state) == Some(d.len()),
        fuel > 0,
    ensures
        ({
            let a = socks_next(state, d);
            let b = socks_run(a.state, rest, (fuel - 1) as nat);
            &&& socks_run(state, d + rest, fuel).state == b.state
            &&& socks_run(state, d + rest, fuel).actions == a.actions + b.actions
        }),
{
    assert((d + rest).take(d.len() as int) =~= d);
    assert((d + rest).skip(d.len() as int) =~= rest);
}

proof fn lemma_port_read(host: HostView, port: u16, fuel: nat)
    requires
        fuel > 0,
    ensures
        socks_run(SocksStateView::Port(host), port_bytes(port), fuel).state is Dialing,
        socks_run(SocksStateView::Port(host), port_bytes(port), fuel).actions == seq![
            SocksActionView::Dial { host, port },
        ],
{
    let d = port_bytes(port);
    assert(d + Seq::<u8>::empty() =~= d);
    lemma_socks_piece(SocksStateView::Port(host), d, Seq::empty(), fuel);
    assert(port_value(d) == port);
    assert(socks_run(SocksStateView::Port(host), d, fuel).actions =~= seq![
        SocksActionView::Dial { host, port },
    ]);
}

/// The head of a request, its address and its port are read, and the target is dialed.
spec fn address_is_read(a: Asked, port: u16) -> bool {
    let r = socks_run(SocksStateView::Head, address_bytes(a) + port_bytes(port), 4);
    r.state is Dialing && r.actions == address_reads(a).push(
        SocksActionView::Dial { host: host_asked(a), port },
    )
}

proof fn lemma_v4_read(addr: Seq<u8>, port: u16)
    requires
        addr.len() == 4,
    ensures
        address_is_read(Asked::V4(addr), port),
{
    let a = Asked::V4(addr);
    let head = seq![5u8, 1, 0, 1];
    let tail = addr + port_bytes(port);
    assert(address_bytes(a) + port_bytes(port) =~= head + tail);
    lemma_socks_piece(SocksStateView::Head, head, tail, 4);
    assert(socks_next(SocksStateView::Head, head) == reads(SocksStateView::V4));
    lemma_socks_piece(SocksStateView::V4, addr, port_bytes(port), 3);
    lemma_port_read(host_asked(a), port, 2);
    assert(socks_run(SocksStateView::Head, head + tail, 4).actions =~= address_reads(a).push(
        SocksActionView::Dial { host: host_asked(a), port },
    ));
}

proof fn lemma_v6_read(addr: Seq<u8>, port: u16)
    requires
        addr.len() == 16,
    ensures
        address_is_read(Asked::V6(addr), port),
{
    let a = Asked::V6(addr);
    let head = seq![5u8, 1, 0, 4];
    let tail = addr + port_bytes(port);
    assert(address_bytes(a) + port_bytes(port) =~= head + tail);
    lemma_socks_piece(SocksStateView::Head, head, tail, 4);
    assert(socks_next(SocksStateView::Head, head) == reads(SocksStateView::V6));
    lemma_socks_piece(SocksStateView::V6, addr, port_bytes(port), 3);
    lemma_port_read(host_asked(a), port, 2);
    assert(socks_run(SocksStateView::Head, head + tail, 4).actions =~= address_reads(a).push(
        SocksActionView::Dial { host: host_asked(a), port },
    ));
}

proof fn lemma_name_read(name: Seq<u8>, port: u16)
    requires
        name.len() <= 255,
    ensures
        address_is_read(Asked::Name(name), port),
{
    let a = Asked::Name(name);
    let head = seq![5u8, 1, 0, 3];
    let len = seq![name.len() as u8];
    let tail = name + port_bytes(port);
    assert(address_bytes(a) + port_bytes(port) =~= head + (len + tail));
    lemma_socks_piece(SocksStateView::Head, head, len + tail, 4);
    assert(socks_next(SocksStateView::Head, head) == reads(SocksStateView::NameLen));
    lemma_socks_piece(SocksStateView::NameLen, len, tail, 3);
    lemma_socks_piece(SocksStateView::Name(len[0]), name, port_bytes(port), 2);
    lemma_port_read(host_asked(a), port, 1);
    assert(socks_run(SocksStateView::Head, head + (len + tail), 4).actions =~= address_reads(
        a,
    ).push(SocksActionView::Dial { host: host_asked(a), port }));
}

/// A client that offers to go without authentication and asks for an address, of any type, is
/// answered, and the target that is dialed is the one it asked for.
pub proof fn law_connect_dialed(methods: Seq<u8>, a: Asked, port: u16)
    requires
        methods.len() <= 255,
        methods.contains(0u8),
        well_sized(a),
    ensures
        socks_run(SocksStateView::Greeting, request(methods, a, port), 6).state is Dialing,
        socks_run(SocksStateView::Greeting, request(methods, a, port), 6).actions == seq![
            SocksActionView::Read(methods.len()),
            SocksActionView::Write(seq![5u8, 0]),
            SocksActionView::Read(4),
        ] + address_reads(a).push(SocksActionView::Dial { host: host_asked(a), port }),
{
    let rest = address_bytes(a) + port_bytes(port);
    let head = seq![5u8, methods.len() as u8];
    lemma_socks_piece(SocksStateView::Greeting, head, methods + rest, 6);
    lemma_socks_piece(SocksStateView::Methods(methods.len() as u8), methods, rest, 5);
    match a {
        Asked::V4(addr) => lemma_v4_read(addr, port),
        Asked::Name(name) => lemma_name_read(name, port),
        Asked::V6(addr) => lemma_v6_read(addr, port),
    }
    assert(socks_run(SocksStateView::Greeting, request(methods, a, port), 6).actions =~= seq![
        SocksActionView::Read(methods.len()),
        SocksActionView::Write(seq![5u8, 0]),
        SocksActionView::Read(4),
    ] + address_reads(a).push(SocksActionView::Dial { host: host_asked(a), port }));
}

/// A client that only offers authentication is told so, whatever it offers and whatever it
/// sends after that.
pub proof fn law_no_method_refused(methods: Seq<u8>, rest: Seq<u8>)
    requires
        methods.len() <= 255,
        !methods.contains(0u8),
    ensures
        socks_run(
            SocksStateView::Greeting,
            seq![5u8, methods.len() as u8] + (methods + rest),
            6,
        ).actions == seq![
            SocksActionView::Read(methods.len()),
            SocksActionView::Write(seq![5u8, 0xFF]),
            SocksActionView::Close,
        ],
{
    let head = seq![5u8, methods.len() as u8];
    lemma_socks_piece(SocksStateView::Greeting, head, methods + rest, 6);
    lemma_socks_piece(SocksStateView::Methods(methods.len() as u8), methods, rest, 5);
    assert(socks_run(SocksStateView::Greeting, head + (methods + rest), 6).actions =~= seq![
        SocksActionView::Read(methods.len()),
        SocksActionView::Write(seq![5u8, 0xFF]),
        SocksActionView::Close,
    ]);
}

/// A session never hangs: whatever the bytes are that it wanted, it asks for something.
pub proof fn law_never_hangs(state: SocksStateView, d: Seq<u8>)
    requires
        wanted(state) == Some(d.len()),
    ensures
        socks_next(state, d).actions.len() > 0,
        socks_next(state, d).state is Done ==> socks_next(state, d).actions.last() is Close,
{
}

proof fn lemma_numeral_without_dot(n: nat)
    ensures
        !text::decimal(n).contains('.'),
{
    text::lemma_decimal_value(n);
    let s = text::decimal(n);
    if s.contains('.') {
        let i = choose|i: int| 0 <= i < s.len() && s[i] == '.';
        assert(text::is_digit(s[i]));
    }
}

/// The host that is dialed for an IPv4 request is the dotted form of its four octets, in the
/// order in which they came: cut at its dots it has four parts, and each of them, read as a
/// decimal number, is the octet of its place. So two addresses never share a text.
pub proof fn law_dotted_octets(o: Seq<u8>, q: Seq<u8>)
    requires
        o.len() == 4,
        q.len() == 4,
    ensures
        text::parts(v4_text(o), '.').len() == 4,
        forall|i: int|
            0 <= i < 4 ==> {
                &&& text::all_digits(#[trigger] text::parts(v4_text(o), '.')[i])
                &&& text::parts(v4_text(o), '.')[i].len() > 0
                &&& text::digits_value(text::parts(v4_text(o), '.')[i]) == o[i]
            },
        v4_text(o) == v4_text(q) ==> o == q,
        socks_next(SocksStateView::V4, o).state == SocksStateView::Port(
            HostView::Name(v4_text(o)),
        ),
{
    lemma_dotted_parts(o);
    lemma_dotted_parts(q);
    if v4_text(o) == v4_text(q) {
        assert forall|i: int| 0 <= i < 4 implies o[i] == q[i] by {
            assert(text::digits_value(text::parts(v4_text(o), '.')[i]) == o[i]);
        }
        assert(o =~= q);
    }
}

proof fn lemma_dotted_parts(o: Seq<u8>)
    requires
        o.len() == 4,
    ensures
        text::parts(v4_text(o), '.').len() == 4,
        forall|i: int|
            0 <= i < 4 ==> {
                &&& text::all_digits(#[trigger] text::parts(v4_text(o), '.')[i])
                &&& text::parts(v4_text(o), '.')[i].len() > 0
                &&& text::digits_value(text::parts(v4_text(o), '.')[i]) == o[i]
            },
{
    reveal_strlit(".");
    let a = text::decimal(o[0] as nat);
    let b = text::decimal(o[1] as nat);
    let c = text::decimal(o[2] as nat);
    let d = text::decimal(o[3] as nat);
    let dot = seq!['.'];
    assert("."@ =~= dot);
    lemma_numeral_without_dot(o[0] as nat);
    lemma_numeral_without_dot(o[1] as nat);
    lemma_numeral_without_dot(o[2] as nat);
    lemma_numeral_without_dot(o[3] as nat);
    text::lemma_decimal_value(o[0] as nat);
    text::lemma_decimal_value(o[1] as nat);
    text::lemma_decimal_value(o[2] as nat);
    text::lemma_decimal_value(o[3] as nat);
    text::law_parts(a, '.', b);
    text::law_parts(b, '.', Seq::empty());
    text::law_parts(a + dot + b, '.', c);
    text::law_parts(c, '.', Seq::empty());
    text::law_parts(a + dot + b + dot + c, '.', d);
    text::law_parts(d, '.', Seq::empty());
    assert(v4_text(o) =~= a + dot + b + dot + c + dot + d);
    assert(text::parts(v4_text(o), '.') =~= seq![a, b, c, d]);
}

/// What is dialed is what was asked for, byte for byte: the port is the two bytes behind the
/// address, the first weighs most; the length of a name is the byte in front of it; an IPv6
/// address is its sixteen octets; and the host that was read is the host that is dialed.
pub proof fn law_request_is_taken_literally(host: HostView, n: u8, d: Seq<u8>)
    ensures
        d.len() == 2 ==> {
            let step = socks_next(SocksStateView::Port(host), d);
            &&& step.state is Dialing
            &&& step.actions.len() == 1
            &&& step.actions[0] matches SocksActionView::Dial { host: h, port } && h == host
                && port == d[0] * 256 + d[1]
        },
        d.len() == 1 ==> {
            let step = socks_next(SocksStateView::NameLen, d);
            &&& step.state == SocksStateView::Name(d[0])
            &&& step.actions.len() == 1
            &&& step.actions[0] matches SocksActionView::Read(n) && n == d[0]
        },
        d.len() == 16 ==> {
            let step = socks_next(SocksStateView::V6, d);
            &&& step.state == SocksStateView::Port(HostView::V6(d))
            &&& step.actions.len() == 1
            &&& step.actions[0] == SocksActionView::Read(2)
        },
        d.len() == 4 ==> {
            let step = socks_next(SocksStateView::V4, d);
            &&& step.actions.len() == 1
            &&& step.actions[0] == SocksActionView::Read(2)
        },
        d.len() == n ==> {
            let step = socks_next(SocksStateView::Name(n), d);
            &&& step.state == SocksStateView::Port(HostView::Name(text::lossy_text(d)))
            &&& step.actions.len() == 1
            &&& step.actions[0] == SocksActionView::Read(2)
        },
{
}

/// Only SOCKS5 is spoken, only CONNECT is served, and only the three types of address are taken.
/// Another version is hung up on without a word; another command is answered with code 7 and
/// another type of address with code 8, and the client's connection is closed.
pub proof fn law_unsupported_is_refused(d: Seq<u8>)
    ensures
        d.len() == 2 ==> {
            let step = socks_next(SocksStateView::Greeting, d);
            if d[0] == 5 {
                step.state == SocksStateView::Methods(d[1]) && step.actions == seq![
                    SocksActionView::Read(d[1] as nat),
                ]
            } else {
                step.state is Done && step.actions == seq![SocksActionView::Close]
            }
        },
        d.len() == 4 ==> {
            let step = socks_next(SocksStateView::Head, d);
            if d[1] == 1 && (d[3] == 1 || d[3] == 3 || d[3] == 4) {
                &&& step.state == if d[3] == 1 {
                    SocksStateView::V4
                } else if d[3] == 3 {
                    SocksStateView::NameLen
                } else {
                    SocksStateView::V6
                }
                &&& step.actions == seq![
                    SocksActionView::Read(
                        if d[3] == 1 {
                            4
                        } else if d[3] == 3 {
                            1
                        } else {
                            16
                        },
                    ),
                ]
            } else {
                &&& step.state is Done
                &&& step.actions.len() == 2
                &&& step.actions[0] == SocksActionView::Write(
                    seq![
                        5u8,
                        if d[1] != 1 {
                            7u8
                        } else {
                            8
                        },
                        0,
                        1,
                        0,
                        0,
                        0,
                        0,
                        0,
                        0,
                    ],
                )
                &&& step.actions[1] is Close
            }
        },
{
}

/// A client is told of success just where the target answered. What it is told otherwise tells a
/// target that refused from one that did not answer in time.
pub proof fn law_dial_outcome_is_told(d: Dialed, e: Dialed)
    ensures
        reply_bytes(dial_code(d)).len() == 10,
        reply_bytes(dial_code(d))[0] == 5,
        reply_bytes(dial_code(d))[1] == 0 <==> d is Connected,
        d is Failed ==> reply_bytes(dial_code(d))[1] == 5,
        d is TimedOut ==> reply_bytes(dial_code(d))[1] == 4,
        reply_bytes(dial_code(d)) == reply_bytes(dial_code(e)) ==> d == e,
{
    assert(reply_bytes(dial_code(d))[1] == dial_code(d));
    assert(reply_bytes(dial_code(e))[1] == dial_code(e));
}

/// What is said of a server that could not be started ends with what the system said, and a
/// port that could not be bound is named.
pub proof fn law_start_failure_names_its_cause(port: u16, f: StartFailure)
    ensures
        match f {
            StartFailure::Bind(e) => text::ends_in(start_failure_text(port, f), e@)
                && text::occurs(start_failure_text(port, f), text::decimal(port as nat)),
            StartFailure::Address(e) => text::ends_in(start_failure_text(port, f), e@),
        },
{
    match f {
        StartFailure::Bind(e) => {
            text::lemma_says("绑定内置 SOCKS 端口 "@, text::decimal(port as nat), " 失败: "@, e@);
        },
        StartFailure::Address(e) => {
            text::lemma_says("获取内置 SOCKS 端口失败: "@, seq![], seq![], e@);
        },
    }
}

/// An action towards a client is carried out as it is: as many bytes are read, these bytes are
/// written, this target is dialed at this port.
pub proof fn law_socks_action_is_carried_out_as_it_is(
    n: usize,
    d: Vec<u8>,
    name: String,
    port: u16,
)
    ensures
        SocksAction::Read(n)@ == SocksActionView::Read(n as nat),
        SocksAction::Write(d)@ == SocksActionView::Write(d@),
        (SocksAction::Dial { host: SocksHost::Name(name), port })@ == (SocksActionView::Dial {
            host: HostView::Name(name@),
            port,
        }),
        (SocksAction::Dial { host: SocksHost::V6(d), port })@ == (SocksActionView::Dial {
            host: HostView::V6(d@),
            port,
        }),
        SocksAction::Relay@ is Relay,
        SocksAction::Close@ is Close,
{
}

} // verus!
