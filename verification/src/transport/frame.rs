//! Frame protocol of the compatibility transport: encoding, decoding and the parser's
//! state machine.
//!
//! A frame is `[u32 BE length][u32 BE CRC32][data]`, and every write unit is
//! `[marker][frame]`.
//! - The marker is a twelve byte constant. It is an idempotent synchronisation point:
//!   whatever state the parser is in, a marker is absorbed.
//! - The end frame is `[00 00 00 04][crc32(DEADBEEF)][DE AD BE EF]`. It is never encoded
//!   with length zero, because an empty audit record on the wire is `[00 00 00 00]`.
//!
//! The wire may carry injected bytes in front of any write. The parser starts unsynced
//! and throws everything away up to a marker; once synced, the head of the buffer is a
//! frame and nothing is scanned.
use crate::bytes::{push_slice, same_bytes};
use crate::text;
use crate::text::decimal_text;
use vstd::prelude::*;
use vstd::slice::{slice_subrange, slice_to_vec};

verus! {

/// The marker: an idempotent synchronisation point.
pub const MARKER: [u8; 12] = [
    0x00,
    0x00,
    0x00,
    0x08,
    0xDE,
    0xAD,
    0xBE,
    0xEF,
    0xDE,
    0xAD,
    0xBE,
    0xEF,
];

/// The payload of an end frame.
pub const END_PAYLOAD: [u8; 4] = [0xDE, 0xAD, 0xBE, 0xEF];

/// The bytes of the marker.
pub open spec fn marker() -> Seq<u8> {
    seq![0u8, 0, 0, 8, 0xDE, 0xAD, 0xBE, 0xEF, 0xDE, 0xAD, 0xBE, 0xEF]
}

/// The bytes that an end frame carries.
pub open spec fn end_payload() -> Seq<u8> {
    seq![0xDEu8, 0xAD, 0xBE, 0xEF]
}

/// A decoded frame: data, or the end of a connection.
#[derive(Debug, PartialEq, Eq)]
pub enum Frame {
    /// The payload of a data frame.
    Payload(Vec<u8>),
    /// The peer closed the connection.
    End,
}

/// A frame as a mathematical value.
pub enum FrameView {
    Payload(Seq<u8>),
    End,
}

impl View for Frame {
    type V = FrameView;

    open spec fn view(&self) -> FrameView {
        match self {
            Frame::Payload(data) => FrameView::Payload(data@),
            Frame::End => FrameView::End,
        }
    }
}

/// The frames of an executable vector.
pub open spec fn frames(v: Seq<Frame>) -> Seq<FrameView> {
    v.map_values(|f: Frame| f@)
}

// ---------------------------------------------------------------- big-endian words
/// The four big-endian bytes of `n`.
pub open spec fn be32(n: u32) -> Seq<u8> {
    seq![
        (n / 0x100_0000) as u8,
        (n / 0x1_0000 % 256) as u8,
        (n / 256 % 256) as u8,
        (n % 256) as u8,
    ]
}

/// The number that the first four bytes of `s` hold, most significant byte first.
pub open spec fn be32_value(s: Seq<u8>) -> nat {
    (s[0] * 0x100_0000 + s[1] * 0x1_0000 + s[2] * 256 + s[3]) as nat
}

fn read_be32(buf: &[u8], at: usize) -> (n: u32)
    requires
        at + 4 <= buf@.len(),
    ensures
        n == be32_value(buf@.subrange(at as int, at + 4)),
{
    buf[at] as u32 * 0x100_0000 + buf[at + 1] as u32 * 0x1_0000 + buf[at + 2] as u32 * 256
        + buf[at + 3] as u32
}

fn push_be32(out: &mut Vec<u8>, n: u32)
    ensures
        final(out)@ == old(out)@ + be32(n),
{
    out.push((n / 0x100_0000) as u8);
    out.push((n / 0x1_0000 % 256) as u8);
    out.push((n / 256 % 256) as u8);
    out.push((n % 256) as u8);
    assert(out@ =~= old(out)@ + be32(n));
}

/// Reading back what was written gives the same number.
pub proof fn lemma_be32_round_trip(n: u32)
    ensures
        be32(n).len() == 4,
        be32_value(be32(n)) == n,
{
}

// ---------------------------------------------------------------- CRC-32
/// One bit of the reflected CRC-32 register.
pub open spec fn crc_bit(c: u32) -> u32 {
    if c & 1 == 1 {
        (c >> 1) ^ 0xEDB8_8320
    } else {
        c >> 1
    }
}

/// `n` bits of the register.
pub open spec fn crc_bits(c: u32, n: nat) -> u32
    decreases n,
{
    if n == 0 {
        c
    } else {
        crc_bit(crc_bits(c, (n - 1) as nat))
    }
}

/// The register after `data`, before the final inversion.
pub open spec fn crc_register(data: Seq<u8>) -> u32
    decreases data.len(),
{
    if data.len() == 0 {
        0xFFFF_FFFF
    } else {
        crc_bits(crc_register(data.drop_last()) ^ (data.last() as u32), 8)
    }
}

/// The CRC-32 checksum (IEEE 802.3, as zlib computes it).
pub open spec fn crc32_of(data: Seq<u8>) -> u32 {
    !crc_register(data)
}

/// The checksum of a frame's data.
pub fn crc32(data: &[u8]) -> (r: u32)
    ensures
        r == crc32_of(data@),
{
    let mut crc: u32 = 0xFFFF_FFFF;
    let mut i: usize = 0;
    assert(data@.subrange(0, 0) =~= Seq::empty());
    while i < data.len()
        invariant
            i <= data.len(),
            crc == crc_register(data@.subrange(0, i as int)),
        decreases data.len() - i,
    {
        crc = crc ^ (data[i] as u32);
        let ghost start = crc;
        let mut k: u32 = 0;
        while k < 8
            invariant
                k <= 8,
                crc == crc_bits(start, k as nat),
            decreases 8 - k,
        {
            if crc & 1 == 1 {
                crc = (crc >> 1) ^ 0xEDB8_8320;
            } else {
                crc = crc >> 1;
            }
            k = k + 1;
        }
        proof {
            let next = data@.subrange(0, i + 1);
            assert(next.drop_last() =~= data@.subrange(0, i as int));
            assert(next.last() == data@[i as int]);
        }
        i = i + 1;
    }
    assert(data@.subrange(0, data@.len() as int) =~= data@);
    !crc
}

// ---------------------------------------------------------------- encoding
/// The bytes of one frame: length (its low 32 bits), checksum, data.
pub open spec fn frame_bytes(data: Seq<u8>) -> Seq<u8> {
    be32(data.len() as u32) + be32(crc32_of(data)) + data
}

fn push_frame(out: &mut Vec<u8>, data: &[u8])
    ensures
        final(out)@ == old(out)@ + frame_bytes(data@),
{
    push_be32(out, data.len() as u32);
    push_be32(out, crc32(data));
    push_slice(out, data);
    assert(out@ =~= old(out)@ + frame_bytes(data@));
}

proof fn lemma_marker()
    ensures
        MARKER@ == marker(),
        END_PAYLOAD@ == end_payload(),
{
    assert(MARKER@ =~= marker());
    assert(END_PAYLOAD@ =~= end_payload());
}

/// Encodes one write unit: marker, then data frame.
pub fn encode_payload(data: &[u8]) -> (r: Vec<u8>)
    ensures
        r@ == marker() + frame_bytes(data@),
{
    let mut f: Vec<u8> = Vec::new();
    push_slice(&mut f, &MARKER);
    push_frame(&mut f, data);
    proof {
        lemma_marker();
    }
    assert(f@ =~= marker() + frame_bytes(data@));
    f
}

/// Encodes one write unit: marker, then end frame.
pub fn encode_end() -> (r: Vec<u8>)
    ensures
        r@ == marker() + frame_bytes(end_payload()),
{
    let mut f: Vec<u8> = Vec::new();
    push_slice(&mut f, &MARKER);
    push_frame(&mut f, &END_PAYLOAD);
    proof {
        lemma_marker();
    }
    assert(f@ =~= marker() + frame_bytes(end_payload()));
    f
}

// ---------------------------------------------------------------- parsing
/// Whether the marker stands at offset `i` of `buf`.
pub open spec fn marker_at(buf: Seq<u8>, i: int) -> bool {
    0 <= i && i + 12 <= buf.len() && buf.subrange(i, i + 12) == marker()
}

/// Whether `i` is the first offset of `buf` at which the marker stands.
pub open spec fn is_first_marker(buf: Seq<u8>, i: int) -> bool {
    marker_at(buf, i) && forall|j: int| 0 <= j < i ==> !marker_at(buf, j)
}

/// The first offset of the marker in `buf`, if it occurs at all.
pub open spec fn first_marker(buf: Seq<u8>) -> Option<int> {
    if exists|i: int| is_first_marker(buf, i) {
        Some(choose|i: int| is_first_marker(buf, i))
    } else {
        None
    }
}

/// Whether a whole end frame stands at offset `i` of `buf`.
pub open spec fn end_at(buf: Seq<u8>, i: int) -> bool {
    &&& 0 <= i && i + 12 <= buf.len()
    &&& be32_value(buf.subrange(i, i + 4)) == 4
    &&& buf.subrange(i + 8, i + 12) == end_payload()
}

/// Whether bytes 4 to 12 of `buf` are those of a marker.
pub open spec fn marker_tail(buf: Seq<u8>) -> bool {
    buf.len() >= 12 && buf.subrange(4, 12) == marker().subrange(4, 12)
}

/// Whether the head of `buf` is a complete frame of `len` data bytes whose checksum holds.
pub open spec fn checksum_holds(buf: Seq<u8>, len: nat) -> bool {
    &&& buf.len() >= 8 + len
    &&& crc32_of(buf.subrange(8, 8 + len as int)) == be32_value(buf.subrange(4, 8))
}

/// The parser's state.
pub struct ParserState {
    /// Bytes that have arrived and were not consumed.
    pub buf: Seq<u8>,
    /// The announced length of a frame whose data has not arrived in full.
    pub partial: Option<nat>,
    /// A marker was consumed, so the head of the buffer is a frame.
    pub synced: bool,
}

/// What one turn of the parser does: the next state, what it emits, what it reports, and
/// whether another turn follows.
pub struct Turn {
    pub state: ParserState,
    pub out: Seq<FrameView>,
    pub notes: Seq<Seq<char>>,
    pub more: bool,
}

/// A turn that consumes `n` bytes, leaves no frame pending and goes on.
pub open spec fn consume(s: ParserState, n: int, synced: bool, out: Seq<FrameView>) -> Turn {
    Turn {
        state: ParserState { buf: s.buf.skip(n), partial: None, synced },
        out,
        notes: seq![],
        more: true,
    }
}

/// A turn that only waits for more bytes.
pub open spec fn wait(s: ParserState) -> Turn {
    Turn { state: s, out: seq![], notes: seq![], more: false }
}

/// The report of a damaged frame that had arrived in pieces.
pub open spec fn damaged_partial_note() -> Seq<char> {
    "CRC 校验失败 (注入截断), 丢弃连接并重置同步"@
}

/// The report of a damaged frame of `len` bytes that was whole in the buffer.
pub open spec fn damaged_note(len: nat) -> Seq<char> {
    "CRC 校验失败 (注入截断, 帧 "@ + text::decimal(len) + " 字节), 丢弃连接并重置同步"@
}

/// The report of a frame of `len` bytes whose tail never came.
pub open spec fn timeout_note(len: nat) -> Seq<char> {
    "帧 "@ + text::decimal(len) + " 字节不完整超时 (注入截断), 丢弃连接并重置同步"@
}

/// A turn with a frame pending: the missing bytes are real data and complete it.
pub open spec fn turn_partial(s: ParserState, plen: nat) -> Turn {
    if s.buf.len() < 8 + plen {
        wait(s)
    } else if plen == 8 && marker_tail(s.buf) {
        consume(s, 12, s.synced, seq![])
    } else if plen == 4 && s.buf.subrange(8, 12) == end_payload() {
        consume(s, 12, false, seq![FrameView::End])
    } else if !checksum_holds(s.buf, plen) {
        Turn {
            state: ParserState { buf: seq![], partial: None, synced: false },
            out: seq![FrameView::End],
            notes: seq![damaged_partial_note()],
            more: false,
        }
    } else {
        consume(
            s,
            8 + plen as int,
            false,
            seq![FrameView::Payload(s.buf.subrange(8, 8 + plen as int))],
        )
    }
}

/// A turn in synced state: the head of the buffer is a frame.
pub open spec fn turn_synced(s: ParserState) -> Turn {
    let len = be32_value(s.buf.subrange(0, 4));
    if s.buf.len() < 8 {
        wait(s)
    } else if len == 0 {
        consume(s, 4, true, seq![])
    } else if len == 8 && marker_tail(s.buf) {
        consume(s, 12, true, seq![])
    } else if s.buf.len() < 8 + len {
        wait(ParserState { partial: Some(len), ..s })
    } else if !checksum_holds(s.buf, len) {
        Turn {
            notes: seq![damaged_note(len)],
            ..consume(s, 8 + len as int, false, seq![FrameView::End])
        }
    } else {
        consume(s, 8 + len as int, false, seq![FrameView::Payload(s.buf.subrange(8, 8 + len as int))])
    }
}

/// A turn in unsynced state: everything up to the first marker is thrown away.
pub open spec fn turn_unsynced(s: ParserState) -> Turn {
    match first_marker(s.buf) {
        Some(i) => consume(s, i + 12, true, seq![]),
        None => if s.buf.len() > 11 {
            wait(ParserState { buf: s.buf.skip(s.buf.len() - 11), ..s })
        } else {
            wait(s)
        },
    }
}

/// One turn of the parser.
pub open spec fn turn(s: ParserState) -> Turn {
    match s.partial {
        Some(plen) => turn_partial(s, plen),
        None => if end_at(s.buf, 0) {
            consume(s, 12, s.synced, seq![FrameView::End])
        } else if s.synced {
            turn_synced(s)
        } else {
            turn_unsynced(s)
        },
    }
}

/// The outcome of running the parser until it waits.
pub struct Run {
    pub state: ParserState,
    pub out: Seq<FrameView>,
    pub notes: Seq<Seq<char>>,
}

/// Runs turns until the parser waits for more bytes.
pub open spec fn run(s: ParserState) -> Run
    decreases s.buf.len(),
{
    let t = turn(s);
    if t.more {
        let r = run(t.state);
        Run { state: r.state, out: t.out + r.out, notes: t.notes + r.notes }
    } else {
        Run { state: t.state, out: t.out, notes: t.notes }
    }
}

/// What feeding `data` to a parser in state `s` does.
pub open spec fn fed(s: ParserState, data: Seq<u8>) -> Run {
    run(ParserState { buf: s.buf + data, ..s })
}

/// What giving up on a pending frame does: the buffer and the connection are dropped, and a
/// frame that was pending is reported.
pub open spec fn timed_out(s: ParserState) -> Run {
    Run {
        state: ParserState { buf: seq![], partial: None, synced: s.synced },
        out: seq![FrameView::End],
        notes: match s.partial {
            Some(n) => seq![timeout_note(n)],
            None => seq![],
        },
    }
}

/// The first marker is where a search from the left finds it.
pub proof fn lemma_first_marker(buf: Seq<u8>, i: int)
    requires
        is_first_marker(buf, i),
    ensures
        first_marker(buf) == Some(i),
{
    let k = choose|k: int| is_first_marker(buf, k);
    assert(is_first_marker(buf, k));
    if k < i {
        assert(marker_at(buf, k));
    } else if i < k {
        assert(marker_at(buf, i));
    }
}

/// Whether the head of `buf` is a complete frame of `len` data bytes whose checksum holds.
pub fn frame_crc_ok(buf: &[u8], len: usize) -> (r: bool)
    ensures
        r == checksum_holds(buf@, len as nat),
{
    if buf.len() < 8 || buf.len() - 8 < len {
        return false;
    }
    let crc = read_be32(buf, 4);
    crc32(slice_subrange(buf, 8, 8 + len)) == crc
}

/// The first offset of the marker in `buf`, used to skip injected bytes.
pub fn find_marker(buf: &[u8]) -> (r: Option<usize>)
    ensures
        match r {
            Some(i) => first_marker(buf@) == Some(i as int) && is_first_marker(buf@, i as int),
            None => first_marker(buf@) is None && forall|i: int| !marker_at(buf@, i),
        },
{
    proof {
        lemma_marker();
    }
    let mut i: usize = 0;
    while buf.len() >= 12 && i <= buf.len() - 12
        invariant
            MARKER@ == marker(),
            forall|j: int| 0 <= j < i ==> !marker_at(buf@, j),
            i <= buf.len(),
        decreases buf.len() - i,
    {
        if same_bytes(slice_subrange(buf, i, i + 12), &MARKER) {
            proof {
                assert(marker_at(buf@, i as int));
                lemma_first_marker(buf@, i as int);
            }
            return Some(i);
        }
        i = i + 1;
    }
    None
}

/// The parser: bytes of the channel in, frames out.
pub struct FrameParser {
    buf: Vec<u8>,
    partial: Option<usize>,
    synced: bool,
}

impl View for FrameParser {
    type V = ParserState;

    closed spec fn view(&self) -> ParserState {
        ParserState {
            buf: self.buf@,
            partial: match self.partial {
                Some(n) => Some(n as nat),
                None => None,
            },
            synced: self.synced,
        }
    }
}

/// A parser that has seen nothing: it skips bytes until the peer's marker.
pub open spec fn fresh() -> ParserState {
    ParserState { buf: seq![], partial: None, synced: false }
}

impl Default for FrameParser {
    fn default() -> (r: Self)
        ensures
            r@ == fresh(),
    {
        Self::new()
    }
}

proof fn lemma_frames_push(v: Seq<Frame>, f: Frame)
    ensures
        frames(v.push(f)) == frames(v) + seq![f@],
{
    assert(frames(v.push(f)) =~= frames(v) + seq![f@]);
}

impl FrameParser {
    /// A new parser, unsynced.
    pub fn new() -> (r: Self)
        ensures
            r@ == fresh(),
    {
        let r = FrameParser { buf: Vec::new(), partial: None, synced: false };
        assert(r@.buf =~= seq![]);
        r
    }

    /// Whether a frame is pending (the caller times it).
    pub fn partial_pending(&self) -> (r: bool)
        ensures
            r == (self@.partial is Some),
    {
        self.partial.is_some()
    }

    /// The tail of a pending frame never came: drops the buffer and the connection, and
    /// stays as synced as it was. The report goes to `notes`.
    pub fn on_partial_timeout(&mut self, notes: &mut Vec<String>) -> (r: Frame)
        ensures
            timed_out(old(self)@).out == seq![r@],
            final(self)@ == timed_out(old(self)@).state,
            text::texts(final(notes)@) == text::texts(old(notes)@) + timed_out(old(self)@).notes,
    {
        if let Some(plen) = self.partial {
            let mut s = "帧 ".to_owned();
            s.append(decimal_text(plen as u64).as_str());
            s.append(" 字节不完整超时 (注入截断), 丢弃连接并重置同步");
            proof {
                text::lemma_texts_push(notes@, s);
            }
            notes.push(s);
        }
        assert(text::texts(notes@) =~= text::texts(old(notes)@) + timed_out(old(self)@).notes);
        self.partial = None;
        self.buf.clear();
        assert(self@.buf =~= seq![]);
        Frame::End
    }

    /// Removes the first `n` bytes of the buffer.
    fn drop_front(&mut self, n: usize)
        requires
            n <= old(self).buf@.len(),
        ensures
            final(self).buf@ == old(self).buf@.skip(n as int),
            final(self).partial == old(self).partial,
            final(self).synced == old(self).synced,
    {
        let rest = self.buf.split_off(n);
        self.buf = rest;
        assert(self.buf@ =~= old(self).buf@.skip(n as int));
    }

    /// One turn; the result says whether another one follows.
    fn turn(&mut self, out: &mut Vec<Frame>, notes: &mut Vec<String>) -> (more: bool)
        ensures
            more == turn(old(self)@).more,
            final(self)@ == turn(old(self)@).state,
            frames(final(out)@) == frames(old(out)@) + turn(old(self)@).out,
            text::texts(final(notes)@) == text::texts(old(notes)@) + turn(old(self)@).notes,
    {
        if let Some(plen) = self.partial {
            return self.turn_partial(plen, out, notes);
        }
        if self.buf.len() >= 12 && read_be32(self.buf.as_slice(), 0) == 4 && same_bytes(
            slice_subrange(self.buf.as_slice(), 8, 12),
            &END_PAYLOAD,
        ) {
            proof {
                lemma_marker();
                lemma_frames_push(out@, Frame::End);
            }
            self.drop_front(12);
            out.push(Frame::End);
            return true;
        }
        proof {
            lemma_marker();
            assert(!end_at(self@.buf, 0));
        }
        if self.synced {
            self.turn_synced(out, notes)
        } else {
            self.turn_unsynced()
        }
    }

    fn turn_partial(&mut self, plen: usize, out: &mut Vec<Frame>, notes: &mut Vec<String>) -> (more:
        bool)
        requires
            old(self).partial == Some(plen),
        ensures
            more == turn_partial(old(self)@, plen as nat).more,
            final(self)@ == turn_partial(old(self)@, plen as nat).state,
            frames(final(out)@) == frames(old(out)@) + turn_partial(old(self)@, plen as nat).out,
            text::texts(final(notes)@) == text::texts(old(notes)@) + turn_partial(
                old(self)@,
                plen as nat,
            ).notes,
    {
        proof {
            lemma_marker();
        }
        if self.buf.len() < 8 || self.buf.len() - 8 < plen {
            return false;
        }
        if plen == 8 && same_bytes(
            slice_subrange(self.buf.as_slice(), 4, 12),
            slice_subrange(&MARKER, 4, 12),
        ) {
            self.drop_front(12);
            self.partial = None;
            return true;
        }
        if plen == 4 && same_bytes(slice_subrange(self.buf.as_slice(), 8, 12), &END_PAYLOAD) {
            self.drop_front(12);
            self.partial = None;
            self.synced = false;
            proof {
                lemma_frames_push(out@, Frame::End);
            }
            out.push(Frame::End);
            return true;
        }
        if !frame_crc_ok(self.buf.as_slice(), plen) {
            let note = "CRC 校验失败 (注入截断), 丢弃连接并重置同步".to_owned();
            proof {
                text::lemma_texts_push(notes@, note);
                lemma_frames_push(out@, Frame::End);
            }
            notes.push(note);
            self.partial = None;
            self.buf.clear();
            self.synced = false;
            assert(self@.buf =~= seq![]);
            out.push(Frame::End);
            return false;
        }
        let payload = slice_to_vec(slice_subrange(self.buf.as_slice(), 8, 8 + plen));
        self.drop_front(8 + plen);
        self.partial = None;
        self.synced = false;
        let frame = Frame::Payload(payload);
        proof {
            lemma_frames_push(out@, frame);
        }
        out.push(frame);
        true
    }

    fn turn_synced(&mut self, out: &mut Vec<Frame>, notes: &mut Vec<String>) -> (more: bool)
        requires
            old(self).partial is None,
            old(self).synced,
        ensures
            more == turn_synced(old(self)@).more,
            final(self)@ == turn_synced(old(self)@).state,
            frames(final(out)@) == frames(old(out)@) + turn_synced(old(self)@).out,
            text::texts(final(notes)@) == text::texts(old(notes)@) + turn_synced(old(self)@).notes,
    {
        proof {
            lemma_marker();
        }
        if self.buf.len() < 8 {
            return false;
        }
        let len: usize = read_be32(self.buf.as_slice(), 0) as usize;
        if len == 0 {
            self.drop_front(4);
            return true;
        }
        if len == 8 && self.buf.len() >= 12 && same_bytes(
            slice_subrange(self.buf.as_slice(), 4, 12),
            slice_subrange(&MARKER, 4, 12),
        ) {
            self.drop_front(12);
            return true;
        }
        if self.buf.len() - 8 < len {
            self.partial = Some(len);
            return false;
        }
        if !frame_crc_ok(self.buf.as_slice(), len) {
            let mut note = "CRC 校验失败 (注入截断, 帧 ".to_owned();
            note.append(decimal_text(len as u64).as_str());
            note.append(" 字节), 丢弃连接并重置同步");
            proof {
                text::lemma_texts_push(notes@, note);
                lemma_frames_push(out@, Frame::End);
            }
            notes.push(note);
            self.drop_front(8 + len);
            out.push(Frame::End);
            self.synced = false;
            return true;
        }
        let payload = slice_to_vec(slice_subrange(self.buf.as_slice(), 8, 8 + len));
        self.drop_front(8 + len);
        self.synced = false;
        let frame = Frame::Payload(payload);
        proof {
            lemma_frames_push(out@, frame);
        }
        out.push(frame);
        true
    }

    fn turn_unsynced(&mut self) -> (more: bool)
        requires
            old(self).partial is None,
            !old(self).synced,
        ensures
            more == turn_unsynced(old(self)@).more,
            final(self)@ == turn_unsynced(old(self)@).state,
            turn_unsynced(old(self)@).out.len() == 0,
            turn_unsynced(old(self)@).notes.len() == 0,
    {
        let n = self.buf.len();
        match find_marker(self.buf.as_slice()) {
            None => {
                if n > 11 {
                    self.drop_front(n - 11);
                }
                false
            },
            Some(pos) => {
                assert(marker_at(self.buf@, pos as int));
                self.drop_front(pos + 12);
                self.synced = true;
                true
            },
        }
    }

    /// Feeds bytes of the channel and returns the frames they complete. Injected bytes,
    /// empty records and markers are absorbed without a trace.
    pub fn feed(&mut self, data: &[u8]) -> (r: Vec<Frame>)
        ensures
            final(self)@ == fed(old(self)@, data@).state,
            frames(r@) == fed(old(self)@, data@).out,
    {
        let mut notes: Vec<String> = Vec::new();
        self.feed_with(data, &mut notes)
    }

    /// As `feed`; what was thrown away because it was damaged is reported in `notes`.
    pub fn feed_with(&mut self, data: &[u8], notes: &mut Vec<String>) -> (r: Vec<Frame>)
        ensures
            final(self)@ == fed(old(self)@, data@).state,
            frames(r@) == fed(old(self)@, data@).out,
            text::texts(final(notes)@) == text::texts(old(notes)@) + fed(old(self)@, data@).notes,
    {
        let mut out: Vec<Frame> = Vec::new();
        push_slice(&mut self.buf, data);
        let ghost start = self@;
        let ghost goal = run(start);
        let ghost notes0 = text::texts(notes@);
        let mut more = true;
        assert(frames(out@) =~= seq![]);
        assert(frames(out@) + run(self@).out =~= goal.out);
        assert(text::texts(notes@) + run(self@).notes =~= notes0 + goal.notes);
        while more
            invariant
                more ==> run(self@).state == goal.state,
                more ==> frames(out@) + run(self@).out == goal.out,
                more ==> text::texts(notes@) + run(self@).notes == notes0 + goal.notes,
                !more ==> self@ == goal.state,
                !more ==> frames(out@) == goal.out,
                !more ==> text::texts(notes@) == notes0 + goal.notes,
            decreases self@.buf.len(), (if more { 1int } else { 0int }),
        {
            let ghost before = self@;
            let ghost out0 = frames(out@);
            let ghost n0 = text::texts(notes@);
            more = self.turn(&mut out, notes);
            proof {
                let t = turn(before);
                if more {
                    assert(out0 + (t.out + run(t.state).out) =~= (out0 + t.out) + run(t.state).out);
                    assert(n0 + (t.notes + run(t.state).notes) =~= (n0 + t.notes) + run(
                        t.state,
                    ).notes);
                }
            }
        }
        out
    }
}

// ---------------------------------------------------------------- laws
/// How a frame lies on the wire: four bytes of length, four of checksum, the most significant
/// byte first in both, then the data as it is.
pub proof fn law_frame_layout(d: Seq<u8>)
    requires
        d.len() <= u32::MAX,
    ensures
        ({
            let f = frame_bytes(d);
            &&& f.len() == 8 + d.len()
            &&& f[0] * 0x100_0000 + f[1] * 0x1_0000 + f[2] * 0x100 + f[3] == d.len()
            &&& f[4] * 0x100_0000 + f[5] * 0x1_0000 + f[6] * 0x100 + f[7] == crc32_of(d)
            &&& forall|i: int| 0 <= i < d.len() ==> f[8 + i] == #[trigger] d[i]
        }),
{
    let f = frame_bytes(d);
    lemma_be32_round_trip(d.len() as u32);
    lemma_be32_round_trip(crc32_of(d));
    let a = be32(d.len() as u32);
    let c = be32(crc32_of(d));
    assert(f[0] == a[0] && f[1] == a[1] && f[2] == a[2] && f[3] == a[3]);
    assert(f[4] == c[0] && f[5] == c[1] && f[6] == c[2] && f[7] == c[3]);
}

/// The number of four bytes is read with the first byte weighing most.
pub proof fn law_word_is_big_endian(a: u8, b: u8, c: u8, d: u8)
    ensures
        be32_value(seq![a, b, c, d]) == a * 16_777_216 + b * 65_536 + c * 256 + d,
{
}

/// A frame that is given up is dropped with all that is buffered, ends the connection, and leaves
/// the parser as synced as it was. It is reported with its length.
pub proof fn law_timeout_drops_the_frame(s: ParserState)
    ensures
        timed_out(s).state.buf.len() == 0,
        timed_out(s).state.partial is None,
        timed_out(s).state.synced == s.synced,
        timed_out(s).out == seq![FrameView::End],
        s.partial is Some <==> timed_out(s).notes.len() == 1,
        s.partial matches Some(n) ==> text::occurs(timed_out(s).notes[0], text::decimal(n)),
{
    if let Some(n) = s.partial {
        text::law_occurrence(
            "帧 "@,
            text::decimal(n),
            " 字节不完整超时 (注入截断), 丢弃连接并重置同步"@,
        );
    }
}

/// A frame is what it carries: its payload, or the end of a connection.
pub proof fn law_frame_is_what_it_carries(data: Vec<u8>)
    ensures
        Frame::Payload(data)@ == FrameView::Payload(data@),
        Frame::End@ is End,
{
}

} // verus!
