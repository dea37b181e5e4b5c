//! Compatibility transport: one session channel to a helper on the server, which carries
//! one connection after another in frames.
//!
//! Where a server's forwarded channels are tampered with, a small helper is started on it
//! instead. The helper listens on the port and passes each connection through its standard
//! input and output; this side passes it on to the local landing.
use crate::model::TunnelError;
use crate::text;
use crate::text::{decimal_text, hex_text, parse_port, strip_prefix, text_of, trim};
use crate::time::Duration;
use crate::transport::frame;
use crate::transport::frame::{
    encode_end, encode_payload, Frame, FrameParser, ParserState, MARKER,
};
use crate::transport::shared;
use crate::transport::shared::{ChannelCount, ChannelGuard};
use crate::tunnel::TunnelConfig;
use vstd::prelude::*;
use vstd::slice::{slice_subrange, slice_to_vec};

verus! {

// ---------------------------------------------------------------- the port line
/// The port that the helper reports, if the line is one: `PORT`, a space, and a port that is
/// not zero.
pub open spec fn reported_port(line: Seq<char>) -> Option<u16> {
    let t = text::trimmed(line);
    if text::found_at(t, "PORT "@, 0) {
        match text::port_of(text::trimmed(t.skip("PORT "@.len() as int))) {
            Some(p) if p != 0 => Some(p),
            _ => None,
        }
    } else {
        None
    }
}

/// Reads the port from the helper's first line.
pub fn parse_port_line(line: &str) -> (r: Result<u16, TunnelError>)
    ensures
        match r {
            Ok(p) => reported_port(line@) == Some(p),
            Err(e) => reported_port(line@) is None && (e matches TunnelError::Protocol(m) && m@
                == "助手端口行异常: "@ + text::trimmed(line@)),
        },
{
    let t = trim(line);
    if let Some(rest) = strip_prefix(t, "PORT ") {
        if let Some(p) = parse_port(trim(rest)) {
            if p != 0 {
                return Ok(p);
            }
        }
    }
    let mut m = "助手端口行异常: ".to_owned();
    m.append(t);
    Err(TunnelError::Protocol(m))
}

/// What came out of one read while the port line is awaited.
#[derive(Debug, PartialEq, Eq)]
pub enum PortLineStep {
    /// Read another byte.
    More,
    /// The line is complete, or cannot be.
    Done(Result<u16, TunnelError>),
}

/// The helper's first line, read byte by byte so that nothing behind it is lost.
pub struct PortLine {
    line: Vec<u8>,
}

impl View for PortLine {
    type V = Seq<u8>;

    closed spec fn view(&self) -> Seq<u8> {
        self.line@
    }
}

impl PortLine {
    /// A line of which nothing has come.
    pub fn new() -> (r: Self)
        ensures
            r@ == Seq::<u8>::empty(),
    {
        let r = PortLine { line: Vec::new() };
        assert(r@ =~= Seq::empty());
        r
    }

    /// Takes what one read gave: a byte, or none at the end of the stream. A line feed
    /// completes the line; more than 32 bytes without one are too many.
    pub fn on_byte(&mut self, byte: Option<u8>) -> (r: PortLineStep)
        ensures
            match byte {
                None => final(self)@ == old(self)@ && (r matches PortLineStep::Done(
                    Err(TunnelError::Protocol(m)),
                ) && m@ == "转发助手提前退出 (未上报端口)——服务器可能没有 python3"@),
                Some(10u8) => {
                    let line = text::lossy_text(old(self)@);
                    &&& final(self)@ == old(self)@
                    &&& vstd::utf8::valid_utf8(old(self)@) ==> line == vstd::utf8::decode_utf8(
                        old(self)@,
                    )
                    &&& r matches PortLineStep::Done(x) && match x {
                        Ok(p) => reported_port(line) == Some(p),
                        Err(e) => reported_port(line) is None && (e matches TunnelError::Protocol(
                            m,
                        ) && m@ == "助手端口行异常: "@ + text::trimmed(line)),
                    }
                },
                Some(b) => final(self)@ == old(self)@.push(b) && if old(self)@.len() + 1 > 32 {
                    r matches PortLineStep::Done(Err(TunnelError::Protocol(m))) && m@
                        == "助手端口行超长"@
                } else {
                    r is More
                },
            },
    {
        match byte {
            None => PortLineStep::Done(
                Err(
                    TunnelError::Protocol(
                        "转发助手提前退出 (未上报端口)——服务器可能没有 python3".to_owned(),
                    ),
                ),
            ),
            Some(b) => {
                if b == 10 {
                    let s = text_of(self.line.as_slice());
                    return PortLineStep::Done(parse_port_line(s.as_str()));
                }
                self.line.push(b);
                if self.line.len() > 32 {
                    PortLineStep::Done(Err(TunnelError::Protocol("助手端口行超长".to_owned())))
                } else {
                    PortLineStep::More
                }
            },
        }
    }
}

/// Why the line could not be read to its end.
#[derive(Debug, PartialEq, Eq)]
pub enum PortLineFault {
    /// It took too long.
    TimedOut,
    /// The channel failed, and how.
    Broken(String),
}

/// The error that a line which could not be read is reported with.
pub fn port_line_error(fault: PortLineFault) -> (r: TunnelError)
    ensures
        r matches TunnelError::Protocol(m) && m@ == match fault {
            PortLineFault::TimedOut => "等待助手上报端口超时"@,
            PortLineFault::Broken(e) => "读助手端口行失败: "@ + e@,
        },
{
    match fault {
        PortLineFault::TimedOut => TunnelError::Protocol("等待助手上报端口超时".to_owned()),
        PortLineFault::Broken(e) => {
            let mut m = "读助手端口行失败: ".to_owned();
            m.append(e.as_str());
            TunnelError::Protocol(m)
        },
    }
}

/// The helper: listens on 127.0.0.1 and serves one connection at a time over its standard
/// input and output. It holds no single quote, because the shell gets it between two.
pub const HELPER_PY: &'static str = "python3 -c 'import socket,select,os,sys,zlib,time
p=int(sys.argv[1])
p0=(p==0)
def dbg(m):
 try:
  f=open(\"/tmp/hc_dbg.log\",\"a\")
  f.write(m+\"\\n\")
  f.close()
 except Exception:
  pass
M=b\"\\x00\\x00\\x00\\x08\\xde\\xad\\xbe\\xef\\xde\\xad\\xbe\\xef\"
END=b\"\\xde\\xad\\xbe\\xef\"
s=socket.socket()
s.setsockopt(socket.SOL_SOCKET,socket.SO_REUSEADDR,1)
s.bind((\"127.0.0.1\",p))
p=s.getsockname()[1]
s.listen(8)
try:
 w=socket.socket(); w.settimeout(3)
 w.connect((\"127.0.0.1\",p))
 c2,a=s.accept(); c2.settimeout(3)
 w.send(b\"X\"); c2.recv(1)
 c2.close(); w.close()
except Exception:
 pass
if p0:
 sys.stdout.buffer.write(b\"PORT %d\\n\"%p)
 sys.stdout.buffer.flush()
sys.stdout.buffer.write(M)
sys.stdout.buffer.flush()
buf=b\"\"
c=None
partial=None
partial_since=None
cid=0
def feed(d):
 global buf,c,partial,partial_since
 buf+=d
 while True:
  if partial is not None:
   if len(buf)<8+partial: return
   if partial==8 and buf[4:12]==M[4:]:
    buf=buf[12:]
    partial=None
    continue
   if partial==4 and buf[8:12]==END:
    buf=buf[12:]
    partial=None
    dbg(\"feed_end\")
    if c is not None:
     try: c.close()
     except Exception: pass
    c=None
    continue
   try:
    ok=zlib.crc32(buf[8:8+partial])==int.from_bytes(buf[4:8],\"big\")
   except Exception:
    ok=False
   if not ok:
    dbg(\"feed_badcrc_partial\")
    if c is not None:
     try: c.close()
     except Exception: pass
    c=None
    buf=buf[8+partial:]
    partial=None
    continue
   if c is not None:
    try:
     c.sendall(buf[8:8+partial])
     dbg(\"feed_ok id=\"+str(cid)+\" n=\"+str(partial))
    except Exception as e:
     dbg(\"feed_exc id=\"+str(cid)+\" n=\"+str(partial)+\" \"+repr(e))
   else:
    dbg(\"feed_drop id=\"+str(cid)+\" n=\"+str(partial))
   buf=buf[8+partial:]
   partial=None
  i=buf.find(M)
  if i<0:
   if len(buf)>len(M)-1:
    buf=buf[len(M)-1:]
   return
  buf=buf[i+len(M):]
  if len(buf)<8: return
  n=int.from_bytes(buf[:4],\"big\")
  if n==8 and buf[4:12]==M[4:]:
   buf=buf[12:]
   continue
  if n==4 and buf[8:12]==END:
   buf=buf[12:]
   dbg(\"feed_end\")
   if c is not None:
    c.close()
   c=None
   continue
  if n==0:
   buf=buf[4:]
   continue
  if len(buf)<8+n:
   partial=n
   partial_since=time.time()
   dbg(\"feed_partial \"+str(n))
   return
  try:
   ok=zlib.crc32(buf[8:8+n])==int.from_bytes(buf[4:8],\"big\")
  except Exception:
   ok=False
  if not ok:
   dbg(\"feed_badcrc \"+str(n))
   if c is not None:
    try: c.close()
    except Exception: pass
   c=None
   buf=buf[8+n:]
   continue
  if c is not None:
   try:
    c.sendall(buf[8:8+n])
    dbg(\"feed_ok id=\"+str(cid)+\" n=\"+str(n))
   except Exception as e:
    dbg(\"feed_exc id=\"+str(cid)+\" n=\"+str(n)+\" \"+repr(e))
  else:
   dbg(\"feed_drop id=\"+str(cid)+\" n=\"+str(n))
  buf=buf[8+n:]
while True:
 r,_,_=select.select([s,sys.stdin],[],[],0.5)
 if sys.stdin in r:
  d=os.read(0,65536)
  if not d: sys.exit(0)
  feed(d)
  continue
 if s in r:
  c,a=s.accept()
  cid+=1
  dbg(\"accept id=\"+str(cid))
  sys.stdout.buffer.write(M)
  sys.stdout.buffer.flush()
  try:
   while True:
    if partial is not None and partial_since is not None and time.time()-partial_since>5:
     dbg(\"feed_partial_timeout\")
     partial=None
     partial_since=None
     buf=b\"\"
     if c is not None:
      try: c.close()
      except Exception: pass
     c=None
     break
    r,_,_=select.select([c,sys.stdin],[],[],0.3)
    if sys.stdin in r:
     d=os.read(0,65536)
     if not d: dbg(\"stdin EOF\"); sys.exit(0)
     feed(d)
     if c is None: break
    if c in r:
     d=c.recv(65536)
     if not d:
      dbg(\"ceof id=\"+str(cid))
      sys.stdout.buffer.write(M+len(END).to_bytes(4,\"big\")+zlib.crc32(END).to_bytes(4,\"big\")+END)
      sys.stdout.buffer.flush()
      break
     for i in range(0,len(d),4096):
      ch=d[i:i+4096]
      sys.stdout.buffer.write(M+len(ch).to_bytes(4,\"big\")+zlib.crc32(ch).to_bytes(4,\"big\")+ch)
      sys.stdout.buffer.flush()
  except Exception as e:
   dbg(\"loop EXC \"+repr(e))
  if c is not None:
   c.close()'";

// ---------------------------------------------------------------- starting the helper
/// The command that starts the helper for a port.
pub open spec fn helper_command_of(port: u32) -> Seq<char> {
    HELPER_PY@ + " "@ + text::decimal(port as nat)
}

/// The command that starts the helper for a port.
pub fn helper_command(port: u32) -> (r: String)
    ensures
        r@ == helper_command_of(port),
{
    let mut s = HELPER_PY.to_owned();
    s.append(" ");
    s.append(decimal_text(port as u64).as_str());
    s
}

/// The outcome of an outside step: done, or what went wrong in words.
pub type Outcome = Result<(), String>;

/// Where the helper's start stands.
#[derive(Debug, Clone, Copy, PartialEq, Eq, Structural)]
pub enum SetupPhase {
    Opening,
    Starting,
    Marking,
    Listening,
    Ended,
}

/// What the start of the helper asks for next.
#[derive(Debug, PartialEq, Eq)]
pub enum SetupAction {
    /// Run this command on the session channel.
    Exec(String),
    /// Write these bytes to the channel.
    Write(Vec<u8>),
    /// Read the helper's first line.
    ReadPortLine,
    /// The helper serves; the server listens on this port.
    Ready(u16),
    /// The helper cannot be had.
    Fail(TunnelError),
}

/// What an action asks for, but for the words of a failure.
pub enum SetupAsk {
    Exec(Seq<char>),
    Write(Seq<u8>),
    ReadPortLine,
    Ready(u16),
    Fail,
}

/// What an action asks for, but for the words of a failure.
pub open spec fn asked(a: SetupAction) -> SetupAsk {
    match a {
        SetupAction::Exec(c) => SetupAsk::Exec(c@),
        SetupAction::Write(b) => SetupAsk::Write(b@),
        SetupAction::ReadPortLine => SetupAsk::ReadPortLine,
        SetupAction::Ready(p) => SetupAsk::Ready(p),
        SetupAction::Fail(_) => SetupAsk::Fail,
    }
}

/// What the start of the helper hears, but for the words of a failure.
pub enum SetupEvent {
    /// The step that was asked for is done, or failed.
    Step(bool),
    /// The helper's first line: the port it reports, if it does.
    Line(Option<u16>),
}

/// Where the helper's start stands, and the channels of its connection.
pub struct SetupState {
    pub phase: SetupPhase,
    pub channels: ChannelCount,
}

/// What an event does to the start of a helper for the port `requested`, and what is asked for
/// then. The channel counts once the helper serves: nothing can fail any more. An event that
/// does not belong to the phase does nothing.
pub open spec fn setup_next(requested: u32, s: SetupState, e: SetupEvent) -> (
    SetupState,
    Option<SetupAsk>,
) {
    let failed = (SetupState { phase: SetupPhase::Ended, ..s }, Some(SetupAsk::Fail));
    match (s.phase, e) {
        (SetupPhase::Opening, SetupEvent::Step(ok)) => if ok {
            (
                SetupState { phase: SetupPhase::Starting, ..s },
                Some(SetupAsk::Exec(helper_command_of(requested))),
            )
        } else {
            failed
        },
        (SetupPhase::Starting, SetupEvent::Step(ok)) => if ok {
            (
                SetupState { phase: SetupPhase::Marking, ..s },
                Some(SetupAsk::Write(frame::marker())),
            )
        } else {
            failed
        },
        (SetupPhase::Marking, SetupEvent::Step(ok)) => if !ok {
            failed
        } else if requested == 0 {
            (SetupState { phase: SetupPhase::Listening, ..s }, Some(SetupAsk::ReadPortLine))
        } else {
            serving(s, requested as u16)
        },
        (SetupPhase::Listening, SetupEvent::Line(port)) => match port {
            Some(p) => serving(s, p),
            None => failed,
        },
        _ => (s, None),
    }
}

/// The end of a start that came to a helper which serves on `bound`.
pub open spec fn serving(s: SetupState, bound: u16) -> (SetupState, Option<SetupAsk>) {
    (
        SetupState { phase: SetupPhase::Ended, channels: shared::one_more(s.channels) },
        Some(SetupAsk::Ready(bound)),
    )
}

/// The failure of one of the steps.
pub open spec fn setup_failure(phase: SetupPhase, reason: Seq<char>, e: TunnelError) -> bool {
    match phase {
        SetupPhase::Opening => e matches TunnelError::ChannelOpen { what, reason: r } && what@
            == "会话通道"@ && r@ == reason,
        SetupPhase::Starting => e matches TunnelError::Protocol(m) && m@ == "启动转发助手失败: "@
            + reason,
        _ => e matches TunnelError::Protocol(m) && m@ == "写标记帧失败: "@ + reason,
    }
}

/// The start of the helper: open a session channel, run the command on it, write the marker
/// that absorbs what is injected in front of the first write and, where the server chooses
/// the port, read which one it is.
pub struct HelperSetup {
    port: u32,
    phase: SetupPhase,
}

/// The line that announces the helper's start.
pub open spec fn start_line(port: u32) -> Seq<char> {
    "兼容模式: 在服务器上启动 stdio 转发助手 (请求端口 "@ + text::decimal(port as nat) + ")"@
}

/// The line that tells of a helper that serves.
pub open spec fn ready_line(requested: u32, bound: u16) -> Seq<char> {
    if requested == 0 {
        "转发助手已启动, 动态分配端口 "@ + text::decimal(bound as nat)
    } else {
        "转发助手已启动 (监听 127.0.0.1:"@ + text::decimal(requested as nat) + ")"@
    }
}

/// The lines of a helper that serves: where it listens, and the warning of a connection whose
/// channels are used up now.
pub open spec fn serving_lines(requested: u32, bound: u16, channels: ChannelCount) -> Seq<
    Seq<char>,
> {
    seq![ready_line(requested, bound)] + match shared::warning_at(channels) {
        Some(w) => seq![w],
        None => seq![],
    }
}

/// The line of a marker that was written.
pub open spec fn marked_line() -> Seq<char> {
    "已发送标记帧 (吸收服务器端写注入)"@
}

impl HelperSetup {
    /// The requested port.
    pub closed spec fn requested(&self) -> u32 {
        self.port
    }

    /// Where the start stands.
    pub closed spec fn at(&self) -> SetupPhase {
        self.phase
    }

    /// Where the start stands, with the channels of its connection.
    pub open spec fn with(&self, channels: ChannelCount) -> SetupState {
        SetupState { phase: self.at(), channels }
    }

    /// A start that waits for its session channel; with the line to log.
    pub fn new(cfg: &TunnelConfig) -> (r: (Self, String))
        ensures
            r.0.requested() == cfg.remote_port,
            r.0.at() == SetupPhase::Opening,
            r.1@ == start_line(cfg.remote_port),
    {
        let mut line = "兼容模式: 在服务器上启动 stdio 转发助手 (请求端口 ".to_owned();
        line.append(decimal_text(cfg.remote_port as u64).as_str());
        line.append(")");
        (HelperSetup { port: cfg.remote_port, phase: SetupPhase::Opening }, line)
    }

    fn ready(&self, bound: u16) -> (r: String)
        ensures
            r@ == ready_line(self.requested(), bound),
    {
        if self.port == 0 {
            let mut s = "转发助手已启动, 动态分配端口 ".to_owned();
            s.append(decimal_text(bound as u64).as_str());
            s
        } else {
            let mut s = "转发助手已启动 (监听 127.0.0.1:".to_owned();
            s.append(decimal_text(self.port as u64).as_str());
            s.append(")");
            s
        }
    }

    fn serve(&mut self, bound: u16, count: &mut ChannelCount, lines: &mut Vec<String>)
        requires
            old(count).open < usize::MAX,
        ensures
            final(self).requested() == old(self).requested(),
            final(self).at() is Ended,
            *final(count) == shared::one_more(*old(count)),
            text::texts(final(lines)@) == text::texts(old(lines)@) + serving_lines(
                old(self).requested(),
                bound,
                *final(count),
            ),
    {
        let ghost before = text::texts(lines@);
        self.phase = SetupPhase::Ended;
        lines.push(self.ready(bound));
        let (_, warning) = ChannelGuard::acquire(count);
        if let Some(w) = warning {
            lines.push(w);
        }
        assert(text::texts(lines@) =~= before + serving_lines(self.port, bound, *count));
    }

    /// Takes the outcome of the step that was asked for (the first one: opening the session
    /// channel) and says what follows, with the lines to log.
    pub fn on_outcome(&mut self, outcome: Outcome, count: &mut ChannelCount) -> (r: (
        SetupAction,
        Vec<String>,
    ))
        requires
            old(self).at() is Opening || old(self).at() is Starting || old(self).at() is Marking,
            old(count).open < usize::MAX,
        ensures
            final(self).requested() == old(self).requested(),
            setup_next(
                old(self).requested(),
                old(self).with(*old(count)),
                SetupEvent::Step(outcome is Ok),
            ) == (final(self).with(*final(count)), Some(asked(r.0))),
            r.0 matches SetupAction::Write(b) ==> b@ == frame::marker(),
            r.0 is Ready ==> *final(count) == shared::one_more(*old(count)),
            !(r.0 is Ready) ==> *final(count) == *old(count),
            outcome matches Err(reason) ==> (r.0 matches SetupAction::Fail(e) && setup_failure(
                old(self).at(),
                reason@,
                e,
            )),
            text::texts(r.1@) == match r.0 {
                SetupAction::ReadPortLine => seq![marked_line()],
                SetupAction::Ready(bound) => seq![marked_line()] + serving_lines(
                    old(self).requested(),
                    bound,
                    *final(count),
                ),
                _ => Seq::<Seq<char>>::empty(),
            },
    {
        let mut lines: Vec<String> = Vec::new();
        assert(text::texts(lines@) =~= Seq::<Seq<char>>::empty());
        match outcome {
            Err(reason) => {
                let e = match self.phase {
                    SetupPhase::Opening => TunnelError::ChannelOpen {
                        what: "会话通道".to_owned(),
                        reason,
                    },
                    SetupPhase::Starting => {
                        let mut m = "启动转发助手失败: ".to_owned();
                        m.append(reason.as_str());
                        TunnelError::Protocol(m)
                    },
                    _ => {
                        let mut m = "写标记帧失败: ".to_owned();
                        m.append(reason.as_str());
                        TunnelError::Protocol(m)
                    },
                };
                self.phase = SetupPhase::Ended;
                (SetupAction::Fail(e), lines)
            },
            Ok(_) => match self.phase {
                SetupPhase::Opening => {
                    self.phase = SetupPhase::Starting;
                    (SetupAction::Exec(helper_command(self.port)), lines)
                },
                SetupPhase::Starting => {
                    self.phase = SetupPhase::Marking;
                    (SetupAction::Write(slice_to_vec(MARKER.as_slice())), lines)
                },
                _ => {
                    lines.push("已发送标记帧 (吸收服务器端写注入)".to_owned());
                    assert(text::texts(lines@) =~= seq![marked_line()]);
                    if self.port == 0 {
                        self.phase = SetupPhase::Listening;
                        (SetupAction::ReadPortLine, lines)
                    } else {
                        #[verifier::truncate]
                        let bound = self.port as u16;
                        self.serve(bound, count, &mut lines);
                        (SetupAction::Ready(bound), lines)
                    }
                },
            },
        }
    }

    /// Takes what the helper's first line says.
    pub fn on_port_line(
        &mut self,
        port: Result<u16, TunnelError>,
        count: &mut ChannelCount,
    ) -> (r: (SetupAction, Vec<String>))
        requires
            old(self).at() is Listening,
            old(self).requested() == 0,
            old(count).open < usize::MAX,
        ensures
            final(self).requested() == old(self).requested(),
            setup_next(
                old(self).requested(),
                old(self).with(*old(count)),
                SetupEvent::Line(
                    match port {
                        Ok(p) => Some(p),
                        Err(_) => None,
                    },
                ),
            ) == (final(self).with(*final(count)), Some(asked(r.0))),
            r.0 is Ready ==> *final(count) == shared::one_more(*old(count)),
            !(r.0 is Ready) ==> *final(count) == *old(count),
            match port {
                Ok(p) => r.0 == SetupAction::Ready(p) && text::texts(r.1@) == serving_lines(
                    0,
                    p,
                    *final(count),
                ),
                Err(e) => r.0 == SetupAction::Fail(e) && r.1@.len() == 0,
            },
    {
        let mut lines: Vec<String> = Vec::new();
        match port {
            Ok(p) => {
                self.serve(p, count, &mut lines);
                assert(text::texts(lines@) =~= serving_lines(0, p, *count));
                (SetupAction::Ready(p), lines)
            },
            Err(e) => {
                self.phase = SetupPhase::Ended;
                (SetupAction::Fail(e), lines)
            },
        }
    }
}

// ---------------------------------------------------------------- the helper's two tasks
/// One of the two tasks that serve the helper's channel.
#[derive(Debug, Clone, Copy, PartialEq, Eq, Structural)]
pub enum HelperTask {
    /// Turns the channel's bytes into frames.
    Reader,
    /// Carries the frames to local connections.
    Forwarder,
}

/// Which of the two tasks still run. The channel counts while one of them does.
#[derive(Debug, Clone, Copy, PartialEq, Eq, Structural)]
pub struct HelperTasks {
    pub reading: bool,
    pub forwarding: bool,
}

/// The tasks after the end of one of them.
pub open spec fn without(t: HelperTasks, task: HelperTask) -> HelperTasks {
    match task {
        HelperTask::Reader => HelperTasks { reading: false, ..t },
        HelperTask::Forwarder => HelperTasks { forwarding: false, ..t },
    }
}

/// Whether one of the tasks runs.
pub open spec fn running(t: HelperTasks) -> bool {
    t.reading || t.forwarding
}

/// Whether this end leaves none of the tasks running, so that the channel is given back.
pub open spec fn gives_back(t: HelperTasks, task: HelperTask) -> bool {
    running(t) && !running(without(t, task))
}

impl HelperTasks {
    /// Both tasks, at their start.
    pub fn new() -> (r: Self)
        ensures
            r == (HelperTasks { reading: true, forwarding: true }),
    {
        HelperTasks { reading: true, forwarding: true }
    }

    /// Takes the end of a task, whether it came to its end or was broken off. With the second
    /// one the channel is given back; the result says whether it was.
    pub fn on_ended(&mut self, task: HelperTask, count: &mut ChannelCount) -> (r: bool)
        requires
            gives_back(*old(self), task) ==> old(count).open > 0,
        ensures
            *final(self) == without(*old(self), task),
            r == gives_back(*old(self), task),
            *final(count) == if r {
                shared::one_fewer(*old(count))
            } else {
                *old(count)
            },
    {
        let before = self.reading || self.forwarding;
        match task {
            HelperTask::Reader => {
                self.reading = false;
            },
            HelperTask::Forwarder => {
                self.forwarding = false;
            },
        }
        let last = before && !self.reading && !self.forwarding;
        if last {
            let guard = ChannelGuard;
            guard.release(count);
        }
        last
    }
}

// ---------------------------------------------------------------- reading the channel
/// What is left of a time limit of five seconds.
pub open spec fn overdue(since: nat, now: nat) -> bool {
    now > since && now - since > 5_000_000_000
}

/// Reads frames out of the channel and watches over frames that stay incomplete.
pub struct ChannelReader {
    parser: FrameParser,
    since: Option<Duration>,
}

impl ChannelReader {
    /// The parser's state.
    pub closed spec fn parser(&self) -> ParserState {
        self.parser@
    }

    /// Since when a frame is incomplete, as far as that was noticed.
    pub closed spec fn since(&self) -> Option<nat> {
        match self.since {
            Some(d) => Some(d@),
            None => None,
        }
    }

    /// A reader of a new channel.
    pub fn new() -> (r: Self)
        ensures
            r.parser() == frame::fresh(),
            r.since() is None,
    {
        ChannelReader { parser: FrameParser::new(), since: None }
    }

    /// To be called before every read, with the time. The clock starts when a frame is first
    /// seen incomplete, and stops when it is complete. After five seconds the frame is given
    /// up: the result is then true, and the current connection ends.
    pub fn before_read(&mut self, now: Duration, notes: &mut Vec<String>) -> (r: bool)
        ensures
            match old(self).parser().partial {
                None => !r && final(self).parser() == old(self).parser() && final(self).since() is None && final(notes)@ == old(notes)@,
                Some(n) => {
                    let began = match old(self).since() {
                        Some(t) => t,
                        None => now@,
                    };
                    &&& r == overdue(began, now@)
                    &&& r ==> {
                        &&& final(self).since() is None
                        &&& final(self).parser() == (ParserState {
                            buf: seq![],
                            partial: None,
                            synced: old(self).parser().synced,
                        })
                        &&& text::texts(final(notes)@) == text::texts(old(notes)@).push(
                            frame::timeout_note(n),
                        )
                    }
                    &&& !r ==> {
                        &&& final(self).since() == Some(began)
                        &&& final(self).parser() == old(self).parser()
                        &&& final(notes)@ == old(notes)@
                    }
                },
            },
    {
        if !self.parser.partial_pending() {
            self.since = None;
            return false;
        }
        let began = match self.since {
            Some(t) => t,
            None => now,
        };
        if began.shorter(&now) && Duration::from_secs(5).shorter(&now.minus(began)) {
            self.since = None;
            let _ = self.parser.on_partial_timeout(notes);
            true
        } else {
            self.since = Some(began);
            false
        }
    }

    /// Takes the bytes of one read and gives the frames they complete.
    pub fn on_bytes(&mut self, data: &[u8], notes: &mut Vec<String>) -> (r: Vec<Frame>)
        ensures
            final(self).since() == old(self).since(),
            final(self).parser() == frame::fed(old(self).parser(), data@).state,
            frame::frames(r@) == frame::fed(old(self).parser(), data@).out,
            text::texts(final(notes)@) == text::texts(old(notes)@) + frame::fed(
                old(self).parser(),
                data@,
            ).notes,
    {
        self.parser.feed_with(data, notes)
    }
}

/// What is dumped of one read, where dumping is on: its size and its first bytes.
pub open spec fn read_dump(dump: bool, data: Seq<u8>) -> Option<Seq<char>> {
    if dump {
        Some(
            "READ n="@ + text::decimal(data.len()) + " head="@ + text::hex(
                data.take(
                    if data.len() < 24 {
                        data.len() as int
                    } else {
                        24
                    },
                ),
            ),
        )
    } else {
        None
    }
}

/// The line to log of one read, where dumping is on.
pub fn read_note(dump: bool, data: &[u8]) -> (r: Option<String>)
    ensures
        text::maybe(r) == read_dump(dump, data@),
{
    if !dump {
        return None;
    }
    let n = data.len();
    let k: usize = if n < 24 {
        n
    } else {
        24
    };
    let mut s = "READ n=".to_owned();
    s.append(decimal_text(n as u64).as_str());
    s.append(" head=");
    s.append(hex_text(slice_subrange(data, 0, k)).as_str());
    assert(data@.subrange(0, k as int) =~= data@.take(k as int));
    Some(s)
}

// ---------------------------------------------------------------- forwarding
/// What arrives from the channel.
#[derive(Debug, PartialEq, Eq)]
pub enum FrameMsg {
    Payload(Vec<u8>),
    /// The connection on the server ended.
    End,
    /// The channel is closed.
    ChannelClosed,
}

/// What arrives from the local landing.
#[derive(Debug, PartialEq, Eq)]
pub enum LocalMsg {
    Data(Vec<u8>),
    Closed,
}

/// What the forwarder hears.
#[derive(Debug, PartialEq, Eq)]
pub enum FwdEvent {
    Frame(FrameMsg),
    Local(LocalMsg),
    /// The landing was dialed: it answered, or why not.
    Dialed(Result<(), String>),
    /// The write that was asked for is done, or failed.
    Written(bool),
}

/// What the forwarder asks for.
#[derive(Debug, PartialEq, Eq)]
pub enum FwdAction {
    /// Connect to this landing.
    Dial(String),
    /// Write to the landing.
    WriteLocal(Vec<u8>),
    /// Write to the channel.
    WriteChannel(Vec<u8>),
    /// Close the connection to the landing.
    DropLocal,
    Log(String),
}

/// An action as a mathematical value.
pub enum FwdActionView {
    Dial(Seq<char>),
    WriteLocal(Seq<u8>),
    WriteChannel(Seq<u8>),
    DropLocal,
    Log(Seq<char>),
}

impl View for FwdAction {
    type V = FwdActionView;

    open spec fn view(&self) -> FwdActionView {
        match self {
            FwdAction::Dial(t) => FwdActionView::Dial(t@),
            FwdAction::WriteLocal(d) => FwdActionView::WriteLocal(d@),
            FwdAction::WriteChannel(d) => FwdActionView::WriteChannel(d@),
            FwdAction::DropLocal => FwdActionView::DropLocal,
            FwdAction::Log(s) => FwdActionView::Log(s@),
        }
    }
}

/// The actions of an executable vector.
pub open spec fn fwd_actions(v: Seq<FwdAction>) -> Seq<FwdActionView> {
    v.map_values(|a: FwdAction| a@)
}

/// Where the forwarder stands.
#[derive(Debug, PartialEq, Eq)]
pub enum FwdState {
    /// Between connections: the first frame of the next one is awaited.
    Idle,
    /// The landing is being dialed for a connection that began with these bytes.
    Dialing(Vec<u8>),
    /// The first bytes are being written to the landing.
    Priming,
    /// Both directions are open; turn number `turn` is about to begin.
    Open { turn: u64 },
    /// A payload is being written to the landing.
    ToLocal { turn: u64 },
    /// This many bytes of the landing are being written to the channel.
    ToChannel { turn: u64, len: usize },
    /// The end of the connection is being written to the channel.
    Closing,
    /// The channel is closed.
    Ended,
}

/// The forwarder's state as a mathematical value.
pub enum FwdStateView {
    Idle,
    Dialing(Seq<u8>),
    Priming,
    Open { turn: nat },
    ToLocal { turn: nat },
    ToChannel { turn: nat, len: nat },
    Closing,
    Ended,
}

impl View for FwdState {
    type V = FwdStateView;

    open spec fn view(&self) -> FwdStateView {
        match self {
            FwdState::Idle => FwdStateView::Idle,
            FwdState::Dialing(d) => FwdStateView::Dialing(d@),
            FwdState::Priming => FwdStateView::Priming,
            FwdState::Open { turn } => FwdStateView::Open { turn: *turn as nat },
            FwdState::ToLocal { turn } => FwdStateView::ToLocal { turn: *turn as nat },
            FwdState::ToChannel { turn, len } => FwdStateView::ToChannel {
                turn: *turn as nat,
                len: *len as nat,
            },
            FwdState::Closing => FwdStateView::Closing,
            FwdState::Ended => FwdStateView::Ended,
        }
    }
}

/// What one event does to the forwarder.
pub struct FwdStep {
    pub state: FwdStateView,
    pub actions: Seq<FwdActionView>,
}

/// The line that ends one connection.
pub open spec fn connection_over() -> FwdActionView {
    FwdActionView::Log("连接转发结束"@)
}

/// The line that ends the channel.
pub open spec fn channel_over() -> FwdActionView {
    FwdActionView::Log("隧道会话通道已结束"@)
}

/// The trace of one turn, where tracing is on.
pub open spec fn trace(dump: bool, turn: nat, what: Seq<char>, len: nat) -> Seq<FwdActionView> {
    if dump {
        seq![
            FwdActionView::Log("FWD#"@ + text::decimal(turn) + what + text::decimal(len)),
        ]
    } else {
        seq![]
    }
}

/// What an event does. An event that does not belong to the state does nothing.
pub open spec fn fwd_next(
    target: Seq<char>,
    dump: bool,
    state: FwdStateView,
    event: FwdEvent,
) -> FwdStep {
    let stay = FwdStep { state, actions: seq![] };
    match state {
        FwdStateView::Idle => match event {
            FwdEvent::Frame(FrameMsg::Payload(p)) => FwdStep {
                state: FwdStateView::Dialing(p@),
                actions: seq![FwdActionView::Dial(target)],
            },
            FwdEvent::Frame(FrameMsg::ChannelClosed) => FwdStep {
                state: FwdStateView::Ended,
                actions: seq![channel_over()],
            },
            _ => stay,
        },
        FwdStateView::Dialing(first) => match event {
            FwdEvent::Dialed(Ok(_)) => FwdStep {
                state: FwdStateView::Priming,
                actions: seq![
                    FwdActionView::Log(
                        "已连接本地代理, 开始转发 (首帧 "@ + text::decimal(first.len())
                            + " 字节)"@,
                    ),
                    FwdActionView::WriteLocal(first),
                ],
            },
            FwdEvent::Dialed(Err(e)) => FwdStep {
                state: FwdStateView::Ended,
                actions: seq![
                    FwdActionView::Log("连接本地代理 "@ + target + " 失败: "@ + e@),
                    channel_over(),
                ],
            },
            _ => stay,
        },
        FwdStateView::Priming => match event {
            FwdEvent::Written(true) => FwdStep {
                state: FwdStateView::Open { turn: 1 },
                actions: seq![],
            },
            FwdEvent::Written(false) => FwdStep {
                state: FwdStateView::Idle,
                actions: seq![
                    FwdActionView::Log("写首帧到本地代理失败"@),
                    FwdActionView::DropLocal,
                ],
            },
            _ => stay,
        },
        FwdStateView::Open { turn } => match event {
            FwdEvent::Frame(FrameMsg::Payload(p)) => FwdStep {
                state: FwdStateView::ToLocal { turn },
                actions: trace(dump, turn, " rx Payload "@, p@.len()) + seq![
                    FwdActionView::WriteLocal(p@),
                ],
            },
            FwdEvent::Frame(FrameMsg::End) => FwdStep {
                state: FwdStateView::Idle,
                actions: seq![
                    FwdActionView::Log("收到 End 帧 (服务器连接结束)"@),
                    connection_over(),
                    FwdActionView::DropLocal,
                ],
            },
            FwdEvent::Frame(FrameMsg::ChannelClosed) => FwdStep {
                state: FwdStateView::Ended,
                actions: seq![FwdActionView::DropLocal, channel_over()],
            },
            FwdEvent::Local(LocalMsg::Data(d)) => FwdStep {
                state: FwdStateView::ToChannel { turn, len: d@.len() },
                actions: trace(dump, turn, " local Data "@, d@.len()) + seq![
                    FwdActionView::WriteChannel(frame::marker() + frame::frame_bytes(d@)),
                ],
            },
            FwdEvent::Local(LocalMsg::Closed) => FwdStep {
                state: FwdStateView::Closing,
                actions: seq![
                    FwdActionView::Log("本地代理连接结束, 发送结束帧"@),
                    FwdActionView::WriteChannel(
                        frame::marker() + frame::frame_bytes(frame::end_payload()),
                    ),
                ],
            },
            _ => stay,
        },
        FwdStateView::ToLocal { turn } => match event {
            FwdEvent::Written(true) => FwdStep {
                state: FwdStateView::Open { turn: turn + 1 },
                actions: seq![],
            },
            FwdEvent::Written(false) => FwdStep {
                state: FwdStateView::Idle,
                actions: seq![connection_over(), FwdActionView::DropLocal],
            },
            _ => stay,
        },
        FwdStateView::ToChannel { turn, len } => match event {
            FwdEvent::Written(true) => FwdStep {
                state: FwdStateView::Open { turn: turn + 1 },
                actions: seq![
                    FwdActionView::Log("回写帧 "@ + text::decimal(len) + " 字节"@),
                ],
            },
            FwdEvent::Written(false) => FwdStep {
                state: FwdStateView::Ended,
                actions: seq![FwdActionView::DropLocal, channel_over()],
            },
            _ => stay,
        },
        FwdStateView::Closing => match event {
            FwdEvent::Written(true) => FwdStep {
                state: FwdStateView::Idle,
                actions: seq![connection_over(), FwdActionView::DropLocal],
            },
            FwdEvent::Written(false) => FwdStep {
                state: FwdStateView::Ended,
                actions: seq![FwdActionView::DropLocal, channel_over()],
            },
            _ => stay,
        },
        FwdStateView::Ended => stay,
    }
}

/// The forwarder of one channel: it serves the server's connections one after another, each
/// with a connection to the local landing.
pub struct Forwarder {
    target: String,
    dump: bool,
    state: FwdState,
}

impl Forwarder {
    /// The landing.
    pub closed spec fn target(&self) -> Seq<char> {
        self.target@
    }

    /// Whether every turn is traced.
    pub closed spec fn dump(&self) -> bool {
        self.dump
    }

    /// Where the forwarder stands.
    pub closed spec fn at(&self) -> FwdStateView {
        self.state@
    }

    /// Whether another turn can be counted.
    pub open spec fn can_turn(&self) -> bool {
        match self.at() {
            FwdStateView::ToLocal { turn } => turn < u64::MAX,
            FwdStateView::ToChannel { turn, .. } => turn < u64::MAX,
            _ => true,
        }
    }

    /// The forwarder of a new channel, to the landing of `cfg`.
    pub fn new(cfg: &TunnelConfig, dump: bool) -> (r: Self)
        ensures
            r.target() == cfg.local_proxy_host@ + ":"@ + text::decimal(
                cfg.local_proxy_port as nat,
            ),
            r.dump() == dump,
            r.at() is Idle,
    {
        let mut target = cfg.local_proxy_host.clone();
        target.append(":");
        target.append(decimal_text(cfg.local_proxy_port as u64).as_str());
        Forwarder { target, dump, state: FwdState::Idle }
    }

    fn put(out: &mut Vec<FwdAction>, a: FwdAction)
        ensures
            fwd_actions(final(out)@) == fwd_actions(old(out)@).push(a@),
    {
        let ghost before = out@;
        out.push(a);
        assert(fwd_actions(out@) =~= fwd_actions(before).push(a@));
    }

    fn say(out: &mut Vec<FwdAction>, line: &str)
        ensures
            fwd_actions(final(out)@) == fwd_actions(old(out)@).push(FwdActionView::Log(line@)),
    {
        Self::put(out, FwdAction::Log(line.to_owned()));
    }

    fn put_trace(&self, out: &mut Vec<FwdAction>, turn: u64, what: &str, len: usize)
        ensures
            fwd_actions(final(out)@) == fwd_actions(old(out)@) + trace(
                self.dump(),
                turn as nat,
                what@,
                len as nat,
            ),
    {
        let ghost before = fwd_actions(out@);
        if self.dump {
            let mut s = "FWD#".to_owned();
            s.append(decimal_text(turn).as_str());
            s.append(what);
            s.append(decimal_text(len as u64).as_str());
            Self::put(out, FwdAction::Log(s));
        }
        assert(fwd_actions(out@) =~= before + trace(self.dump, turn as nat, what@, len as nat));
    }

    /// Whether the channel is closed and nothing more is to be done.
    pub fn ended(&self) -> (r: bool)
        ensures
            r == (self.at() is Ended),
    {
        match &self.state {
            FwdState::Ended => true,
            _ => false,
        }
    }

    /// Takes an event and says what follows.
    pub fn on_event(&mut self, event: FwdEvent) -> (r: Vec<FwdAction>)
        requires
            old(self).can_turn(),
        ensures
            final(self).target() == old(self).target(),
            final(self).dump() == old(self).dump(),
            final(self).at() == fwd_next(
                old(self).target(),
                old(self).dump(),
                old(self).at(),
                event,
            ).state,
            fwd_actions(r@) == fwd_next(
                old(self).target(),
                old(self).dump(),
                old(self).at(),
                event,
            ).actions,
    {
        let ghost step = fwd_next(self.target@, self.dump, self.state@, event);
        let mut out: Vec<FwdAction> = Vec::new();
        assert(fwd_actions(out@) =~= seq![]);
        match &self.state {
            FwdState::Idle => match event {
                FwdEvent::Frame(FrameMsg::Payload(p)) => {
                    self.state = FwdState::Dialing(p);
                    let target = self.target.clone();
                    Self::put(&mut out, FwdAction::Dial(target));
                },
                FwdEvent::Frame(FrameMsg::ChannelClosed) => {
                    self.state = FwdState::Ended;
                    Self::say(&mut out, "隧道会话通道已结束");
                },
                _ => {},
            },
            FwdState::Dialing(first) => match event {
                FwdEvent::Dialed(Ok(_)) => {
                    let first = slice_to_vec(first.as_slice());
                    let mut s = "已连接本地代理, 开始转发 (首帧 ".to_owned();
                    s.append(decimal_text(first.len() as u64).as_str());
                    s.append(" 字节)");
                    Self::put(&mut out, FwdAction::Log(s));
                    Self::put(&mut out, FwdAction::WriteLocal(first));
                    self.state = FwdState::Priming;
                },
                FwdEvent::Dialed(Err(e)) => {
                    let mut s = "连接本地代理 ".to_owned();
                    s.append(self.target.as_str());
                    s.append(" 失败: ");
                    s.append(e.as_str());
                    Self::put(&mut out, FwdAction::Log(s));
                    Self::say(&mut out, "隧道会话通道已结束");
                    self.state = FwdState::Ended;
                },
                _ => {},
            },
            FwdState::Priming => match event {
                FwdEvent::Written(ok) => {
                    if ok {
                        self.state = FwdState::Open { turn: 1 };
                    } else {
                        Self::say(&mut out, "写首帧到本地代理失败");
                        Self::put(&mut out, FwdAction::DropLocal);
                        self.state = FwdState::Idle;
                    }
                },
                _ => {},
            },
            FwdState::Open { turn } => {
                let turn = *turn;
                match event {
                    FwdEvent::Frame(FrameMsg::Payload(p)) => {
                        self.put_trace(&mut out, turn, " rx Payload ", p.len());
                        Self::put(&mut out, FwdAction::WriteLocal(p));
                        self.state = FwdState::ToLocal { turn };
                    },
                    FwdEvent::Frame(FrameMsg::End) => {
                        Self::say(&mut out, "收到 End 帧 (服务器连接结束)");
                        Self::say(&mut out, "连接转发结束");
                        Self::put(&mut out, FwdAction::DropLocal);
                        self.state = FwdState::Idle;
                    },
                    FwdEvent::Frame(FrameMsg::ChannelClosed) => {
                        Self::put(&mut out, FwdAction::DropLocal);
                        Self::say(&mut out, "隧道会话通道已结束");
                        self.state = FwdState::Ended;
                    },
                    FwdEvent::Local(LocalMsg::Data(d)) => {
                        self.put_trace(&mut out, turn, " local Data ", d.len());
                        Self::put(
                            &mut out,
                            FwdAction::WriteChannel(encode_payload(d.as_slice())),
                        );
                        self.state = FwdState::ToChannel { turn, len: d.len() };
                    },
                    FwdEvent::Local(LocalMsg::Closed) => {
                        Self::say(&mut out, "本地代理连接结束, 发送结束帧");
                        Self::put(&mut out, FwdAction::WriteChannel(encode_end()));
                        self.state = FwdState::Closing;
                    },
                    _ => {},
                }
            },
            FwdState::ToLocal { turn } => {
                let turn = *turn;
                match event {
                    FwdEvent::Written(ok) => {
                        if ok {
                            self.state = FwdState::Open { turn: turn + 1 };
                        } else {
                            Self::say(&mut out, "连接转发结束");
                            Self::put(&mut out, FwdAction::DropLocal);
                            self.state = FwdState::Idle;
                        }
                    },
                    _ => {},
                }
            },
            FwdState::ToChannel { turn, len } => {
                let turn = *turn;
                let len = *len;
                match event {
                    FwdEvent::Written(ok) => {
                        if ok {
                            let mut s = "回写帧 ".to_owned();
                            s.append(decimal_text(len as u64).as_str());
                            s.append(" 字节");
                            Self::put(&mut out, FwdAction::Log(s));
                            self.state = FwdState::Open { turn: turn + 1 };
                        } else {
                            Self::put(&mut out, FwdAction::DropLocal);
                            Self::say(&mut out, "隧道会话通道已结束");
                            self.state = FwdState::Ended;
                        }
                    },
                    _ => {},
                }
            },
            FwdState::Closing => match event {
                FwdEvent::Written(ok) => {
                    if ok {
                        Self::say(&mut out, "连接转发结束");
                        Self::put(&mut out, FwdAction::DropLocal);
                        self.state = FwdState::Idle;
                    } else {
                        Self::put(&mut out, FwdAction::DropLocal);
                        Self::say(&mut out, "隧道会话通道已结束");
                        self.state = FwdState::Ended;
                    }
                },
                _ => {},
            },
            FwdState::Ended => {},
        }
        assert(fwd_actions(out@) =~= step.actions);
        out
    }
}

} // verus!
