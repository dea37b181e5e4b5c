//! Laws of the frame protocol: what a peer writes is what the parser gives back, however
//! the bytes are cut into pieces on the way.
use crate::transport::frame;
use crate::transport::frame::{FrameView, ParserState, Run};
use vstd::prelude::*;

verus! {

/// One item of a peer's byte stream.
pub enum Token {
    /// A marker.
    Marker,
    /// A data frame.
    Data(Seq<u8>),
    /// An end frame.
    End,
    /// An empty audit record.
    Empty,
}

/// The bytes of a token.
pub open spec fn token_bytes(t: Token) -> Seq<u8> {
    match t {
        Token::Marker => frame::marker(),
        Token::Data(d) => frame::frame_bytes(d),
        Token::End => frame::frame_bytes(frame::end_payload()),
        Token::Empty => seq![0u8, 0, 0, 0],
    }
}

/// The frames that a token stands for.
pub open spec fn token_frames(t: Token) -> Seq<FrameView> {
    match t {
        Token::Data(d) => seq![FrameView::Payload(d)],
        Token::End => seq![FrameView::End],
        _ => seq![],
    }
}

/// Data whose frame cannot be mistaken for anything else on the wire: it is not empty (an
/// empty frame reads as two empty records), its length fits the header, and its frame is
/// neither an end frame nor a marker followed by four bytes.
pub open spec fn clean(d: Seq<u8>) -> bool {
    &&& 1 <= d.len() <= u32::MAX
    &&& d != frame::end_payload()
    &&& !(d.len() == 8 && frame::marker_tail(frame::frame_bytes(d)))
}

/// The grammar of a stream. `synced` says that the reader has consumed a marker and no
/// frame since: only then may data, or an empty record, follow.
pub open spec fn accepts(synced: bool, ts: Seq<Token>) -> bool
    decreases ts.len(),
{
    ts.len() > 0 ==> match ts[0] {
        Token::Marker => accepts(true, ts.drop_first()),
        Token::End => accepts(false, ts.drop_first()),
        Token::Data(d) => synced && clean(d) && accepts(false, ts.drop_first()),
        Token::Empty => synced && accepts(true, ts.drop_first()),
    }
}

/// The grammar's state after a token.
pub open spec fn synced_after(t: Token) -> bool {
    t is Marker || t is Empty
}

/// The bytes of a stream.
pub open spec fn stream(ts: Seq<Token>) -> Seq<u8>
    decreases ts.len(),
{
    if ts.len() == 0 {
        seq![]
    } else {
        token_bytes(ts[0]) + stream(ts.drop_first())
    }
}

/// The frames of a stream.
pub open spec fn emitted(ts: Seq<Token>) -> Seq<FrameView>
    decreases ts.len(),
{
    if ts.len() == 0 {
        seq![]
    } else {
        token_frames(ts[0]) + emitted(ts.drop_first())
    }
}

/// All bytes of a sequence of chunks.
pub open spec fn joined(chunks: Seq<Seq<u8>>) -> Seq<u8>
    decreases chunks.len(),
{
    if chunks.len() == 0 {
        seq![]
    } else {
        chunks[0] + joined(chunks.drop_first())
    }
}

/// Feeding chunk after chunk.
pub open spec fn fed_all(s: ParserState, chunks: Seq<Seq<u8>>) -> Run
    decreases chunks.len(),
{
    if chunks.len() == 0 {
        Run { state: s, out: seq![], notes: seq![] }
    } else {
        let a = frame::fed(s, chunks[0]);
        let b = fed_all(a.state, chunks.drop_first());
        Run { state: b.state, out: a.out + b.out, notes: a.notes + b.notes }
    }
}

/// A parser that holds no bytes: new, between connections, or reset by a timeout.
pub open spec fn idle(s: ParserState) -> bool {
    s.buf.len() == 0 && s.partial is None
}

// ---------------------------------------------------------------- bytes
proof fn lemma_frame_bytes(d: Seq<u8>)
    requires
        d.len() <= u32::MAX,
    ensures
        frame::frame_bytes(d).len() == 8 + d.len(),
        frame::be32_value(frame::frame_bytes(d).subrange(0, 4)) == d.len(),
        frame::be32_value(frame::frame_bytes(d).subrange(4, 8)) == frame::crc32_of(d),
        frame::frame_bytes(d).subrange(8, 8 + d.len() as int) == d,
{
    let f = frame::frame_bytes(d);
    frame::lemma_be32_round_trip(d.len() as u32);
    frame::lemma_be32_round_trip(frame::crc32_of(d));
    assert(f.subrange(0, 4) =~= frame::be32(d.len() as u32));
    assert(f.subrange(4, 8) =~= frame::be32(frame::crc32_of(d)));
    assert(f.subrange(8, 8 + d.len() as int) =~= d);
}

proof fn lemma_token_size(t: Token)
    ensures
        token_bytes(t).len() >= 4,
{
}

/// Two ways to cut the same bytes agree wherever both cover them.
proof fn lemma_common(buf: Seq<u8>, future: Seq<u8>, x: Seq<u8>, tail: Seq<u8>, a: int, b: int)
    requires
        buf + future == x + tail,
        0 <= a <= b <= buf.len(),
        b <= x.len(),
    ensures
        buf.subrange(a, b) == x.subrange(a, b),
{
    assert forall|i: int| a <= i < b implies buf[i] == x[i] by {
        assert((buf + future)[i] == buf[i]);
        assert((x + tail)[i] == x[i]);
    }
    assert(buf.subrange(a, b) =~= x.subrange(a, b));
}

proof fn lemma_after(buf: Seq<u8>, future: Seq<u8>, x: Seq<u8>, tail: Seq<u8>)
    requires
        buf + future == x + tail,
        x.len() <= buf.len(),
    ensures
        buf.skip(x.len() as int) + future == tail,
{
    let n = x.len() as int;
    assert((buf + future).skip(n) =~= buf.skip(n) + future);
    assert((x + tail).skip(n) =~= tail);
}

// ---------------------------------------------------------------- one turn
/// The state `s` has consumed a stream up to `ts`, and `future` is what has not arrived.
spec fn agrees(s: ParserState, synced: bool, ts: Seq<Token>, future: Seq<u8>) -> bool {
    &&& s.buf + future == stream(ts)
    &&& accepts(synced, ts)
    &&& synced ==> s.synced
    &&& s.partial matches Some(n) ==> {
        &&& s.synced && ts.len() > 0 && !(ts[0] is Empty)
        &&& s.buf.len() >= 8
        &&& n == frame::be32_value(s.buf.subrange(0, 4))
    }
}

/// What one turn does on a stream of the grammar: it consumes the first token, or it waits;
/// and it waits with nothing outstanding only where no frame is left.
spec fn turn_ok(s: ParserState, synced: bool, ts: Seq<Token>, future: Seq<u8>) -> bool {
    let t = frame::turn(s);
    &&& t.notes == Seq::<Seq<char>>::empty()
    &&& t.more ==> {
        &&& ts.len() > 0
        &&& agrees(t.state, synced_after(ts[0]), ts.drop_first(), future)
        &&& t.out == token_frames(ts[0])
    }
    &&& !t.more ==> {
        &&& agrees(t.state, synced, ts, future)
        &&& t.out == Seq::<FrameView>::empty()
        &&& future.len() == 0 ==> emitted(ts) == Seq::<FrameView>::empty()
    }
}

/// A stream of fewer than four bytes holds no token.
proof fn lemma_short_stream(ts: Seq<Token>)
    requires
        stream(ts).len() < 4,
    ensures
        ts.len() == 0,
        emitted(ts) == Seq::<FrameView>::empty(),
{
    if ts.len() > 0 {
        lemma_token_size(ts[0]);
    }
}

proof fn lemma_turn_none(s: ParserState, synced: bool, ts: Seq<Token>, future: Seq<u8>)
    requires
        agrees(s, synced, ts, future),
        ts.len() == 0,
    ensures
        turn_ok(s, synced, ts, future),
{
    assert((s.buf + future).len() == 0);
    assert(s.buf.len() == 0);
    assert forall|i: int| !frame::is_first_marker(s.buf, i) by {}
}

proof fn lemma_turn_marker(s: ParserState, synced: bool, ts: Seq<Token>, future: Seq<u8>)
    requires
        agrees(s, synced, ts, future),
        ts.len() > 0,
        ts[0] is Marker,
    ensures
        turn_ok(s, synced, ts, future),
{
    let tail = stream(ts.drop_first());
    let x = frame::marker();
    if s.buf.len() >= 4 {
        lemma_common(s.buf, future, x, tail, 0, 4);
        assert(x.subrange(0, 4) =~= seq![0u8, 0, 0, 8]);
        assert(frame::be32_value(s.buf.subrange(0, 4)) == 8);
    }
    if s.buf.len() >= 12 {
        lemma_common(s.buf, future, x, tail, 4, 12);
        lemma_common(s.buf, future, x, tail, 0, 12);
        assert(x.subrange(0, 12) =~= x);
        assert(frame::marker_at(s.buf, 0));
        assert(frame::is_first_marker(s.buf, 0));
        frame::lemma_first_marker(s.buf, 0);
        lemma_after(s.buf, future, x, tail);
        assert(frame::marker_tail(s.buf));
    } else {
        assert forall|i: int| !frame::is_first_marker(s.buf, i) by {}
    }
    if !frame::turn(s).more && future.len() == 0 {
        assert((s.buf + future).len() == s.buf.len());
        assert(stream(ts).len() == 12 + tail.len());
        lemma_short_stream(ts.drop_first());
        assert(emitted(ts) =~= Seq::<FrameView>::empty());
    }
}

proof fn lemma_turn_empty(s: ParserState, synced: bool, ts: Seq<Token>, future: Seq<u8>)
    requires
        agrees(s, synced, ts, future),
        ts.len() > 0,
        ts[0] is Empty,
    ensures
        turn_ok(s, synced, ts, future),
{
    let tail = stream(ts.drop_first());
    let x = seq![0u8, 0, 0, 0];
    if s.buf.len() >= 4 {
        lemma_common(s.buf, future, x, tail, 0, 4);
        assert(x.subrange(0, 4) =~= x);
        assert(frame::be32_value(s.buf.subrange(0, 4)) == 0);
        lemma_after(s.buf, future, x, tail);
    }
    if !frame::turn(s).more && future.len() == 0 {
        assert((s.buf + future).len() == s.buf.len());
        assert(stream(ts).len() == 4 + tail.len());
        lemma_short_stream(ts.drop_first());
        assert(emitted(ts) =~= Seq::<FrameView>::empty());
    }
}

proof fn lemma_turn_end(s: ParserState, synced: bool, ts: Seq<Token>, future: Seq<u8>)
    requires
        agrees(s, synced, ts, future),
        ts.len() > 0,
        ts[0] is End,
    ensures
        turn_ok(s, synced, ts, future),
{
    let tail = stream(ts.drop_first());
    let x = frame::frame_bytes(frame::end_payload());
    lemma_frame_bytes(frame::end_payload());
    if s.buf.len() >= 4 {
        lemma_common(s.buf, future, x, tail, 0, 4);
        assert(frame::be32_value(s.buf.subrange(0, 4)) == 4);
    }
    if s.buf.len() >= 12 {
        lemma_common(s.buf, future, x, tail, 8, 12);
        lemma_after(s.buf, future, x, tail);
        assert(frame::end_at(s.buf, 0));
    } else {
        assert forall|i: int| !frame::is_first_marker(s.buf, i) by {}
    }
    if future.len() == 0 {
        assert((s.buf + future).len() == s.buf.len());
    }
}

proof fn lemma_turn_data(s: ParserState, synced: bool, ts: Seq<Token>, future: Seq<u8>)
    requires
        agrees(s, synced, ts, future),
        ts.len() > 0,
        ts[0] is Data,
    ensures
        turn_ok(s, synced, ts, future),
{
    let d = ts[0]->Data_0;
    let tail = stream(ts.drop_first());
    let x = frame::frame_bytes(d);
    let n = d.len() as int;
    lemma_frame_bytes(d);
    if s.buf.len() >= 4 {
        lemma_common(s.buf, future, x, tail, 0, 4);
        assert(frame::be32_value(s.buf.subrange(0, 4)) == d.len());
    }
    if s.buf.len() >= 12 && n == 8 {
        lemma_common(s.buf, future, x, tail, 4, 12);
        assert(!frame::marker_tail(s.buf));
    }
    if s.buf.len() >= 12 && n == 4 {
        lemma_common(s.buf, future, x, tail, 8, 12);
        assert(!frame::end_at(s.buf, 0));
    }
    if s.buf.len() >= 8 + n {
        lemma_common(s.buf, future, x, tail, 4, 8);
        lemma_common(s.buf, future, x, tail, 8, 8 + n);
        lemma_after(s.buf, future, x, tail);
        assert(frame::checksum_holds(s.buf, d.len()));
    }
    if future.len() == 0 {
        assert((s.buf + future).len() == s.buf.len());
    }
}

proof fn lemma_turn(s: ParserState, synced: bool, ts: Seq<Token>, future: Seq<u8>)
    requires
        agrees(s, synced, ts, future),
    ensures
        turn_ok(s, synced, ts, future),
{
    if ts.len() == 0 {
        lemma_turn_none(s, synced, ts, future);
    } else {
        match ts[0] {
            Token::Marker => lemma_turn_marker(s, synced, ts, future),
            Token::Data(_) => lemma_turn_data(s, synced, ts, future),
            Token::End => lemma_turn_end(s, synced, ts, future),
            Token::Empty => lemma_turn_empty(s, synced, ts, future),
        }
    }
}

// ---------------------------------------------------------------- whole streams
/// Running the parser consumes a prefix of the stream. Gives back the grammar's state and
/// the tokens that are left.
proof fn lemma_run(s: ParserState, synced: bool, ts: Seq<Token>, future: Seq<u8>) -> (left: (
    bool,
    Seq<Token>,
))
    requires
        agrees(s, synced, ts, future),
    ensures
        agrees(frame::run(s).state, left.0, left.1, future),
        frame::run(s).out + emitted(left.1) == emitted(ts),
        frame::run(s).notes == Seq::<Seq<char>>::empty(),
        future.len() == 0 ==> emitted(left.1) == Seq::<FrameView>::empty(),
    decreases s.buf.len(),
{
    lemma_turn(s, synced, ts, future);
    let t = frame::turn(s);
    if t.more {
        let left = lemma_run(t.state, synced_after(ts[0]), ts.drop_first(), future);
        let r = frame::run(t.state);
        assert((t.out + r.out) + emitted(left.1) =~= t.out + (r.out + emitted(left.1)));
        assert(t.notes + r.notes =~= Seq::<Seq<char>>::empty());
        left
    } else {
        assert(t.out + emitted(ts) =~= emitted(ts));
        (synced, ts)
    }
}

proof fn lemma_fed_all(s: ParserState, synced: bool, ts: Seq<Token>, chunks: Seq<Seq<u8>>)
    requires
        agrees(s, synced, ts, joined(chunks)),
        chunks.len() == 0 ==> emitted(ts) == Seq::<FrameView>::empty(),
    ensures
        fed_all(s, chunks).out == emitted(ts),
        fed_all(s, chunks).notes == Seq::<Seq<char>>::empty(),
    decreases chunks.len(),
{
    if chunks.len() > 0 {
        let future = joined(chunks.drop_first());
        let s1 = ParserState { buf: s.buf + chunks[0], ..s };
        assert(s1.buf + future =~= s.buf + joined(chunks));
        if s.partial is Some {
            assert(s1.buf.subrange(0, 4) =~= s.buf.subrange(0, 4));
        }
        let left = lemma_run(s1, synced, ts, future);
        let a = frame::fed(s, chunks[0]);
        lemma_fed_all(a.state, left.0, left.1, chunks.drop_first());
        assert(fed_all(s, chunks).notes =~= Seq::<Seq<char>>::empty());
    }
}

/// What a peer writes is what the parser gives back. For every stream of the grammar, and
/// for every way to cut it into chunks, a parser that holds no bytes emits exactly the
/// stream's frames, in order, and reports nothing.
pub proof fn law_stream_round_trip(s: ParserState, ts: Seq<Token>, chunks: Seq<Seq<u8>>)
    requires
        idle(s),
        accepts(false, ts),
        joined(chunks) == stream(ts),
    ensures
        fed_all(s, chunks).out == emitted(ts),
        fed_all(s, chunks).notes == Seq::<Seq<char>>::empty(),
{
    assert(s.buf + joined(chunks) =~= stream(ts));
    if chunks.len() == 0 {
        lemma_short_stream(ts);
    }
    lemma_fed_all(s, false, ts, chunks);
}

// ---------------------------------------------------------------- write units
/// What a peer hands to one write: data, or the end of a connection.
pub open spec fn unit_bytes(f: FrameView) -> Seq<u8> {
    match f {
        FrameView::Payload(d) => frame::marker() + frame::frame_bytes(d),
        FrameView::End => frame::marker() + frame::frame_bytes(frame::end_payload()),
    }
}

/// The bytes of a sequence of writes.
pub open spec fn units_bytes(fs: Seq<FrameView>) -> Seq<u8>
    decreases fs.len(),
{
    if fs.len() == 0 {
        seq![]
    } else {
        unit_bytes(fs[0]) + units_bytes(fs.drop_first())
    }
}

/// Whether every payload in `fs` is clean.
pub open spec fn all_clean(fs: Seq<FrameView>) -> bool {
    forall|i: int| 0 <= i < fs.len() ==> (#[trigger] fs[i] matches FrameView::Payload(d) ==> clean(d))
}

spec fn unit_tokens(f: FrameView) -> Seq<Token> {
    match f {
        FrameView::Payload(d) => seq![Token::Marker, Token::Data(d)],
        FrameView::End => seq![Token::Marker, Token::End],
    }
}

spec fn units_tokens(fs: Seq<FrameView>) -> Seq<Token>
    decreases fs.len(),
{
    if fs.len() == 0 {
        seq![]
    } else {
        unit_tokens(fs[0]) + units_tokens(fs.drop_first())
    }
}

proof fn lemma_units(fs: Seq<FrameView>)
    requires
        all_clean(fs),
    ensures
        accepts(false, units_tokens(fs)),
        stream(units_tokens(fs)) == units_bytes(fs),
        emitted(units_tokens(fs)) == fs,
    decreases fs.len(),
{
    let ts = units_tokens(fs);
    if fs.len() > 0 {
        let rest = fs.drop_first();
        assert(all_clean(rest)) by {
            assert forall|i: int| 0 <= i < rest.len() implies (#[trigger] rest[i] matches
                FrameView::Payload(d) ==> clean(d)) by {
                assert(rest[i] == fs[i + 1]);
            }
        }
        lemma_units(rest);
        let one = ts.drop_first();
        assert(one.drop_first() =~= units_tokens(rest));
        assert(ts[0] is Marker);
        assert(stream(ts) =~= units_bytes(fs)) by {
            assert(stream(one) == token_bytes(one[0]) + stream(units_tokens(rest)));
            assert(stream(ts) == frame::marker() + stream(one));
        }
        assert(emitted(one) == token_frames(one[0]) + rest);
        assert(emitted(ts) =~= fs);
        assert(accepts(true, one));
    } else {
        assert(emitted(ts) =~= fs);
    }
}

/// What `encode_payload` and `encode_end` write, one unit after another, a parser that
/// holds no bytes reads back, however the bytes are cut into chunks.
pub proof fn law_units_round_trip(s: ParserState, fs: Seq<FrameView>, chunks: Seq<Seq<u8>>)
    requires
        idle(s),
        all_clean(fs),
        joined(chunks) == units_bytes(fs),
    ensures
        fed_all(s, chunks).out == fs,
        fed_all(s, chunks).notes == Seq::<Seq<char>>::empty(),
{
    lemma_units(fs);
    law_stream_round_trip(s, units_tokens(fs), chunks);
}

// ---------------------------------------------------------------- injected bytes
/// Bytes in which the parser finds neither a marker nor an end frame before the marker
/// that follows them.
pub open spec fn quiet(junk: Seq<u8>) -> bool {
    forall|i: int|
        0 <= i < junk.len() ==> !(#[trigger] frame::marker_at(junk + frame::marker(), i)) && !frame::end_at(
            junk + frame::marker(),
            i,
        )
}

proof fn lemma_quiet_suffix(junk: Seq<u8>, n: int)
    requires
        quiet(junk),
        0 <= n <= junk.len(),
    ensures
        quiet(junk.skip(n)),
{
    let all = junk + frame::marker();
    let cut = junk.skip(n) + frame::marker();
    assert forall|i: int| 0 <= i < junk.skip(n).len() implies !(#[trigger] frame::marker_at(cut, i))
        && !frame::end_at(cut, i) by {
        assert(!frame::marker_at(all, i + n));
        assert(cut.subrange(i, i + 12) =~= all.subrange(i + n, i + n + 12));
        assert(cut.subrange(i, i + 4) =~= all.subrange(i + n, i + n + 4));
        assert(cut.subrange(i + 8, i + 12) =~= all.subrange(i + n + 8, i + n + 12));
    }
}

/// A parser that has not met a marker and still has `junk` in front of one.
spec fn skipping(s: ParserState, junk: Seq<u8>, ts: Seq<Token>, future: Seq<u8>) -> bool {
    &&& s.partial is None && !s.synced
    &&& quiet(junk)
    &&& accepts(true, ts)
    &&& s.buf + future == junk + frame::marker() + stream(ts)
}

/// One turn of a skipping parser: it waits, having dropped a prefix of the junk, or it
/// reaches the marker.
proof fn lemma_skip_turn(s: ParserState, junk: Seq<u8>, ts: Seq<Token>, future: Seq<u8>)
    requires
        skipping(s, junk, ts, future),
    ensures
        frame::turn(s).out == Seq::<FrameView>::empty(),
        frame::turn(s).notes == Seq::<Seq<char>>::empty(),
        frame::turn(s).more <==> s.buf.len() >= junk.len() + 12,
        frame::turn(s).more ==> agrees(frame::turn(s).state, true, ts, future),
        !frame::turn(s).more ==> exists|n: int|
            0 <= n <= junk.len() && skipping(
                frame::turn(s).state,
                #[trigger] junk.skip(n),
                ts,
                future,
            ),
{
    let front = junk + frame::marker();
    let k = junk.len() as int;
    assert(front + stream(ts) == s.buf + future);
    assert forall|i: int| 0 <= i < k implies !frame::marker_at(s.buf, i) && !frame::end_at(s.buf, i) by {
        assert(!frame::marker_at(front, i));
        if i + 12 <= s.buf.len() {
            lemma_common(s.buf, future, front, stream(ts), i, i + 12);
            lemma_common(s.buf, future, front, stream(ts), i, i + 4);
            lemma_common(s.buf, future, front, stream(ts), i + 8, i + 12);
        }
    }
    if s.buf.len() >= k + 12 {
        lemma_common(s.buf, future, front, stream(ts), k, k + 12);
        assert(front.subrange(k, k + 12) =~= frame::marker());
        assert(frame::is_first_marker(s.buf, k));
        frame::lemma_first_marker(s.buf, k);
        lemma_after(s.buf, future, front, stream(ts));
        if k == 0 {
            assert(s.buf.subrange(0, 4) =~= s.buf.subrange(0, 12).subrange(0, 4));
            assert(s.buf.subrange(0, 4) =~= seq![0u8, 0, 0, 8]);
        }
        assert(!frame::end_at(s.buf, 0));
    } else {
        assert forall|i: int| !frame::marker_at(s.buf, i) by {
            if 0 <= i && i + 12 <= s.buf.len() {
                assert(i < k);
            }
        }
        assert forall|i: int| !frame::is_first_marker(s.buf, i) by {}
        if k == 0 {
            assert(s.buf.len() < 12);
        }
        assert(!frame::end_at(s.buf, 0));
        if s.buf.len() > 11 {
            let n = s.buf.len() - 11;
            lemma_quiet_suffix(junk, n);
            assert(s.buf.skip(n) + future =~= (s.buf + future).skip(n));
            assert(junk.skip(n) + frame::marker() + stream(ts) =~= (front + stream(ts)).skip(n));
            assert(skipping(frame::turn(s).state, junk.skip(n), ts, future));
        } else {
            assert(junk.skip(0) =~= junk);
            assert(skipping(frame::turn(s).state, junk.skip(0), ts, future));
        }
    }
}

proof fn lemma_skip_all(s: ParserState, junk: Seq<u8>, ts: Seq<Token>, chunks: Seq<Seq<u8>>)
    requires
        skipping(s, junk, ts, joined(chunks)),
        chunks.len() > 0,
    ensures
        fed_all(s, chunks).out == emitted(ts),
        fed_all(s, chunks).notes == Seq::<Seq<char>>::empty(),
    decreases chunks.len(),
{
    let rest = chunks.drop_first();
    let future = joined(rest);
    let s1 = ParserState { buf: s.buf + chunks[0], ..s };
    assert(s1.buf + future =~= s.buf + joined(chunks));
    lemma_skip_turn(s1, junk, ts, future);
    let t = frame::turn(s1);
    let a = frame::fed(s, chunks[0]);
    if t.more {
        let left = lemma_run(t.state, true, ts, future);
        assert(a.out =~= frame::run(t.state).out);
        assert(a.notes =~= Seq::<Seq<char>>::empty());
        lemma_fed_all(a.state, left.0, left.1, rest);
    } else {
        let n = choose|n: int|
            0 <= n <= junk.len() && skipping(t.state, #[trigger] junk.skip(n), ts, future);
        if rest.len() == 0 {
            assert(s1.buf + future =~= s1.buf);
            assert(s1.buf.len() >= junk.len() + 12);
        } else {
            lemma_skip_all(t.state, junk.skip(n), ts, rest);
        }
    }
    assert(fed_all(s, chunks).out =~= emitted(ts));
    assert(fed_all(s, chunks).notes =~= Seq::<Seq<char>>::empty());
}

/// Injected bytes in front of the first marker leave no trace where they arrive in one piece with
/// it: it is enough that the marker does not occur earlier and that they do not begin with an
/// end frame. An unsynced parser that holds no bytes emits exactly the frames behind the
/// marker, however those are cut.
pub proof fn law_injection_in_one_piece(
    s: ParserState,
    junk: Seq<u8>,
    ts: Seq<Token>,
    chunks: Seq<Seq<u8>>,
)
    requires
        idle(s),
        !s.synced,
        frame::is_first_marker(junk + frame::marker(), junk.len() as int),
        !frame::end_at(junk + frame::marker(), 0),
        accepts(true, ts),
        joined(chunks) == junk + frame::marker() + stream(ts),
        chunks.len() > 0,
        chunks[0].len() >= junk.len() + 12,
    ensures
        fed_all(s, chunks).out == emitted(ts),
        fed_all(s, chunks).notes == Seq::<Seq<char>>::empty(),
{
    let front = junk + frame::marker();
    let k = junk.len() as int;
    let rest = chunks.drop_first();
    let future = joined(rest);
    let s1 = ParserState { buf: s.buf + chunks[0], ..s };
    let b = s1.buf;
    assert(b =~= chunks[0]);
    assert(b + future == front + stream(ts));
    assert forall|i: int| 0 <= i <= k implies frame::marker_at(b, i) == frame::marker_at(
        front,
        i,
    ) by {
        lemma_common(b, future, front, stream(ts), i, i + 12);
    }
    assert(frame::is_first_marker(b, k));
    frame::lemma_first_marker(b, k);
    lemma_common(b, future, front, stream(ts), 0, 4);
    lemma_common(b, future, front, stream(ts), 8, 12);
    assert(!frame::end_at(b, 0));
    lemma_after(b, future, front, stream(ts));
    let t = frame::turn(s1);
    assert(agrees(t.state, true, ts, future));
    let left = lemma_run(t.state, true, ts, future);
    let a = frame::fed(s, chunks[0]);
    assert(a.out =~= frame::run(t.state).out);
    assert(a.notes =~= Seq::<Seq<char>>::empty());
    lemma_fed_all(a.state, left.0, left.1, rest);
    assert(fed_all(s, chunks).out =~= emitted(ts));
    assert(fed_all(s, chunks).notes =~= Seq::<Seq<char>>::empty());
}

/// Injected bytes in front of the first marker leave no trace, however they arrive. Cut off at
/// an end frame inside them, they would seem to begin with it, so there must be none. An
/// unsynced parser that holds no bytes emits exactly the frames behind the marker.
pub proof fn law_injection_discarded(
    s: ParserState,
    junk: Seq<u8>,
    ts: Seq<Token>,
    chunks: Seq<Seq<u8>>,
)
    requires
        idle(s),
        !s.synced,
        quiet(junk),
        accepts(true, ts),
        joined(chunks) == junk + frame::marker() + stream(ts),
    ensures
        fed_all(s, chunks).out == emitted(ts),
        fed_all(s, chunks).notes == Seq::<Seq<char>>::empty(),
{
    assert(s.buf + joined(chunks) =~= joined(chunks));
    lemma_skip_all(s, junk, ts, chunks);
}

// ---------------------------------------------------------------- damage
/// A frame whose checksum does not hold, and which is no marker and no end frame.
pub open spec fn damaged(f: Seq<u8>) -> bool {
    let len = frame::be32_value(f.subrange(0, 4));
    &&& f.len() >= 8
    &&& len > 0
    &&& f.len() == 8 + len
    &&& !frame::end_at(f, 0)
    &&& !(len == 8 && frame::marker_tail(f))
    &&& !frame::checksum_holds(f, len)
}

proof fn lemma_marker_turn(s: ParserState, rest: Seq<u8>)
    requires
        s.buf == frame::marker() + rest,
        s.partial is None,
    ensures
        frame::turn(s).more,
        frame::turn(s).state == (ParserState { buf: rest, partial: None, synced: true }),
        frame::turn(s).out == Seq::<FrameView>::empty(),
        frame::turn(s).notes == Seq::<Seq<char>>::empty(),
{
    let b = s.buf;
    assert(b.subrange(0, 12) == frame::marker() && b.skip(12) == rest) by {
        assert(b.subrange(0, 12) =~= frame::marker());
        assert(b.skip(12) =~= rest);
    }
    assert(frame::be32_value(b.subrange(0, 4)) == 8) by {
        assert(b.subrange(0, 4) =~= seq![0u8, 0, 0, 8]);
    }
    assert(frame::marker_tail(b)) by {
        assert(b.subrange(4, 12) =~= b.subrange(0, 12).subrange(4, 12));
    }
    assert(frame::first_marker(b) == Some(0int)) by {
        assert(frame::marker_at(b, 0));
        frame::lemma_first_marker(b, 0);
    }
    assert(!frame::end_at(b, 0));
}

proof fn lemma_damaged_turn(s: ParserState, f: Seq<u8>, rest: Seq<u8>)
    requires
        s.buf == f + rest,
        s.partial is None,
        s.synced,
        damaged(f),
    ensures
        frame::turn(s).more,
        frame::turn(s).state == (ParserState { buf: rest, partial: None, synced: false }),
        frame::turn(s).out == seq![FrameView::End],
        frame::turn(s).notes == seq![frame::damaged_note(frame::be32_value(f.subrange(0, 4)))],
{
    let len = frame::be32_value(f.subrange(0, 4));
    let b = s.buf;
    assert(b.subrange(0, 4) =~= f.subrange(0, 4));
    assert(b.subrange(4, 8) =~= f.subrange(4, 8));
    assert(b.subrange(8, 8 + len as int) =~= f.subrange(8, 8 + len as int));
    if len == 4 {
        assert(b.subrange(8, 12) =~= f.subrange(8, 12));
    }
    if len == 8 {
        assert(b.subrange(4, 12) =~= f.subrange(4, 12));
    }
    assert(b.skip(8 + len as int) =~= rest);
}

/// A damaged frame that arrives whole ends its connection, is reported once, and costs
/// nothing of what follows.
pub proof fn law_damage_recovers(s: ParserState, f: Seq<u8>, ts: Seq<Token>)
    requires
        idle(s),
        damaged(f),
        accepts(false, ts),
    ensures
        frame::fed(s, frame::marker() + f + stream(ts)).out == seq![FrameView::End] + emitted(ts),
        frame::fed(s, frame::marker() + f + stream(ts)).notes == seq![
            frame::damaged_note(frame::be32_value(f.subrange(0, 4))),
        ],
{
    let len = frame::be32_value(f.subrange(0, 4));
    let rest = f + stream(ts);
    let s0 = ParserState { buf: s.buf + (frame::marker() + f + stream(ts)), ..s };
    assert(s0.buf =~= frame::marker() + rest);
    lemma_marker_turn(s0, rest);
    let s1 = frame::turn(s0).state;
    lemma_damaged_turn(s1, f, stream(ts));
    let s2 = frame::turn(s1).state;
    assert(s2.buf + Seq::<u8>::empty() =~= stream(ts));
    let left = lemma_run(s2, false, ts, Seq::empty());
    assert(frame::run(s2).out =~= emitted(ts));
    assert(frame::run(s1).out =~= seq![FrameView::End] + emitted(ts));
    assert(frame::run(s1).notes =~= seq![frame::damaged_note(len)]);
    assert(frame::run(s0).out =~= seq![FrameView::End] + emitted(ts));
    assert(frame::run(s0).notes =~= seq![frame::damaged_note(len)]);
}

// ---------------------------------------------------------------- damage in pieces
/// A synced parser that has the first `k` bytes of the frame `f`, and not all of them.
spec fn awaits(s: ParserState, f: Seq<u8>, k: int) -> bool {
    &&& 0 <= k < f.len()
    &&& s.synced
    &&& s.buf == f.take(k)
    &&& s.partial == if k >= 8 {
        Some(frame::be32_value(f.subrange(0, 4)))
    } else {
        None
    }
}

proof fn lemma_fresh_run(s: ParserState)
    requires
        s == frame::fresh(),
    ensures
        frame::run(s).state == s,
        frame::run(s).out == Seq::<FrameView>::empty(),
        frame::run(s).notes == Seq::<Seq<char>>::empty(),
{
}

/// Feeding the next piece of a damaged frame: the parser waits, or the connection ends.
proof fn lemma_damaged_piece(s: ParserState, f: Seq<u8>, k: int, d: Seq<u8>)
    requires
        damaged(f),
        awaits(s, f, k),
        k + d.len() <= f.len(),
        d == f.subrange(k, k + d.len()),
    ensures
        k + d.len() < f.len() ==> {
            &&& awaits(frame::fed(s, d).state, f, k + d.len())
            &&& frame::fed(s, d).out == Seq::<FrameView>::empty()
            &&& frame::fed(s, d).notes == Seq::<Seq<char>>::empty()
        },
        k + d.len() == f.len() ==> {
            &&& frame::fed(s, d).state == frame::fresh()
            &&& frame::fed(s, d).out == seq![FrameView::End]
            &&& frame::fed(s, d).notes.len() == 1
        },
{
    let n = k + d.len();
    let len = frame::be32_value(f.subrange(0, 4));
    let s1 = ParserState { buf: s.buf + d, ..s };
    let b = s1.buf;
    assert(b =~= f.take(n));
    if n >= 4 {
        assert(b.subrange(0, 4) =~= f.subrange(0, 4));
    }
    if n >= 8 {
        assert(b.subrange(4, 8) =~= f.subrange(4, 8));
    }
    if n >= 12 {
        assert(b.subrange(4, 12) =~= f.subrange(4, 12));
        assert(b.subrange(8, 12) =~= f.subrange(8, 12));
    }
    if n == f.len() {
        assert(b =~= f);
        if k < 8 {
            assert(b.skip(8 + len as int) =~= Seq::<u8>::empty());
            lemma_fresh_run(frame::turn(s1).state);
        }
        assert(frame::fed(s, d).out =~= seq![FrameView::End]);
    }
}

proof fn lemma_damaged_pieces(s: ParserState, f: Seq<u8>, k: int, chunks: Seq<Seq<u8>>)
    requires
        damaged(f),
        awaits(s, f, k),
        joined(chunks) == f.skip(k),
    ensures
        fed_all(s, chunks).state == frame::fresh(),
        fed_all(s, chunks).out == seq![FrameView::End],
        fed_all(s, chunks).notes.len() == 1,
    decreases chunks.len(),
{
    assert(f.skip(k).len() > 0);
    let d = chunks[0];
    let rest = chunks.drop_first();
    assert(joined(chunks) == d + joined(rest));
    assert(d =~= f.skip(k).take(d.len() as int));
    assert(d =~= f.subrange(k, k + d.len()));
    lemma_damaged_piece(s, f, k, d);
    let a = frame::fed(s, d);
    if k + d.len() < f.len() {
        assert(joined(rest) =~= f.skip(k).skip(d.len() as int));
        assert(f.skip(k).skip(d.len() as int) =~= f.skip(k + d.len()));
        lemma_damaged_pieces(a.state, f, k + d.len(), rest);
    } else {
        assert(joined(rest).len() == 0);
        lemma_nothing(a.state, rest);
    }
    assert(fed_all(s, chunks).out =~= seq![FrameView::End]);
}

proof fn lemma_nothing(s: ParserState, chunks: Seq<Seq<u8>>)
    requires
        s == frame::fresh(),
        joined(chunks).len() == 0,
    ensures
        fed_all(s, chunks).state == s,
        fed_all(s, chunks).out == Seq::<FrameView>::empty(),
        fed_all(s, chunks).notes == Seq::<Seq<char>>::empty(),
    decreases chunks.len(),
{
    if chunks.len() > 0 {
        assert(s.buf + chunks[0] =~= s.buf);
        lemma_fresh_run(s);
        lemma_nothing(s, chunks.drop_first());
    }
}

proof fn lemma_fed_in_turn(s: ParserState, a: Seq<Seq<u8>>, b: Seq<Seq<u8>>)
    ensures
        fed_all(s, a + b).out == fed_all(s, a).out + fed_all(fed_all(s, a).state, b).out,
        fed_all(s, a + b).notes == fed_all(s, a).notes + fed_all(fed_all(s, a).state, b).notes,
    decreases a.len(),
{
    if a.len() == 0 {
        assert(a + b =~= b);
    } else {
        assert((a + b).drop_first() =~= a.drop_first() + b);
        lemma_fed_in_turn(frame::fed(s, a[0]).state, a.drop_first(), b);
    }
    assert(fed_all(s, a + b).out =~= fed_all(s, a).out + fed_all(fed_all(s, a).state, b).out);
    assert(fed_all(s, a + b).notes =~= fed_all(s, a).notes + fed_all(
        fed_all(s, a).state,
        b,
    ).notes);
}

/// However a damaged frame behind a marker is cut, it ends its connection and is reported
/// once; and where what follows arrives apart from it, nothing of that is lost.
pub proof fn law_damage_in_pieces(
    s: ParserState,
    f: Seq<u8>,
    pieces: Seq<Seq<u8>>,
    ts: Seq<Token>,
    later: Seq<Seq<u8>>,
)
    requires
        idle(s),
        s.synced,
        damaged(f),
        joined(pieces) == f,
        accepts(false, ts),
        joined(later) == stream(ts),
    ensures
        fed_all(s, pieces + later).out == seq![FrameView::End] + emitted(ts),
        fed_all(s, pieces + later).notes.len() == 1,
{
    assert(s.buf =~= f.take(0));
    assert(f.skip(0) =~= f);
    lemma_damaged_pieces(s, f, 0, pieces);
    lemma_fed_in_turn(s, pieces, later);
    law_stream_round_trip(frame::fresh(), ts, later);
}

// ---------------------------------------------------------------- calls of every kind
/// One call of the parser: bytes are fed, or a pending frame is given up.
pub enum Call {
    Feed(Seq<u8>),
    TimeOut,
}

/// What one call does.
pub open spec fn called(s: ParserState, c: Call) -> Run {
    match c {
        Call::Feed(d) => frame::fed(s, d),
        Call::TimeOut => frame::timed_out(s),
    }
}

/// What call after call does.
pub open spec fn called_all(s: ParserState, calls: Seq<Call>) -> Run
    decreases calls.len(),
{
    if calls.len() == 0 {
        Run { state: s, out: seq![], notes: seq![] }
    } else {
        let a = called(s, calls[0]);
        let b = called_all(a.state, calls.drop_first());
        Run { state: b.state, out: a.out + b.out, notes: a.notes + b.notes }
    }
}

/// All bytes that were fed.
pub open spec fn all_fed(calls: Seq<Call>) -> Seq<u8>
    decreases calls.len(),
{
    if calls.len() == 0 {
        seq![]
    } else {
        (match calls[0] {
            Call::Feed(d) => d,
            Call::TimeOut => seq![],
        }) + all_fed(calls.drop_first())
    }
}

// ---------------------------------------------------------------- reports
/// How many connections end in `out`.
pub open spec fn ends(out: Seq<FrameView>) -> nat
    decreases out.len(),
{
    if out.len() == 0 {
        0
    } else {
        ends(out.drop_last()) + if out.last() is End {
            1nat
        } else {
            0
        }
    }
}

proof fn lemma_ends(a: Seq<FrameView>, b: Seq<FrameView>)
    ensures
        ends(a + b) == ends(a) + ends(b),
    decreases b.len(),
{
    if b.len() == 0 {
        assert(a + b =~= a);
    } else {
        assert((a + b).drop_last() =~= a + b.drop_last());
        lemma_ends(a, b.drop_last());
    }
}

proof fn lemma_turn_notes(s: ParserState)
    ensures
        frame::turn(s).notes.len() <= 1,
        frame::turn(s).notes.len() == 1 ==> frame::turn(s).out == seq![FrameView::End],
        frame::turn(s).notes.len() <= ends(frame::turn(s).out),
        frame::turn(s).more ==> frame::turn(s).state.buf.len() < s.buf.len(),
{
    let t = frame::turn(s);
    if let Some(i) = frame::first_marker(s.buf) {
        assert(frame::is_first_marker(s.buf, i));
    }
    if t.notes.len() == 1 {
        assert(t.out.drop_last() =~= Seq::<FrameView>::empty());
        assert(t.out.last() is End);
    }
}

proof fn lemma_run_notes(s: ParserState)
    ensures
        frame::run(s).notes.len() <= ends(frame::run(s).out),
    decreases s.buf.len(),
{
    lemma_turn_notes(s);
    let t = frame::turn(s);
    if t.more {
        lemma_run_notes(t.state);
        lemma_ends(t.out, frame::run(t.state).out);
    }
}

/// Every report ends a connection: whatever arrives, and whenever a frame is given up, there are
/// never more reports than ends. One turn of the parser, which disposes of one frame at most,
/// reports once at most, and then ends the connection.
pub proof fn law_reports_end_connections(s: ParserState, calls: Seq<Call>)
    ensures
        called_all(s, calls).notes.len() <= ends(called_all(s, calls).out),
        frame::turn(s).notes.len() <= 1,
        frame::turn(s).notes.len() == 1 ==> frame::turn(s).out == seq![FrameView::End],
    decreases calls.len(),
{
    lemma_turn_notes(s);
    if calls.len() > 0 {
        let a = called(s, calls[0]);
        match calls[0] {
            Call::Feed(d) => lemma_run_notes(ParserState { buf: s.buf + d, ..s }),
            Call::TimeOut => {
                assert(a.out.drop_last() =~= Seq::<FrameView>::empty());
                assert(a.out.last() is End);
            },
        }
        law_reports_end_connections(a.state, calls.drop_first());
        lemma_ends(a.out, called_all(a.state, calls.drop_first()).out);
    }
}

// ---------------------------------------------------------------- integrity
/// A frame of the data `d` stands at offset `k` of `all`.
pub open spec fn framed_at(d: Seq<u8>, all: Seq<u8>, k: int) -> bool {
    &&& 0 <= k
    &&& k + 8 + d.len() <= all.len()
    &&& all.subrange(k, k + 8 + d.len()) == frame::frame_bytes(d)
}

/// `runs` tells for each frame of `out` where the bytes that it was made of begin and end in
/// `all`: between `from` and `to`, one after the other, none twice. A payload is never empty,
/// and was made of exactly its length, its checksum and its data.
pub open spec fn laid_out(
    out: Seq<FrameView>,
    runs: Seq<(int, int)>,
    all: Seq<u8>,
    from: int,
    to: int,
) -> bool {
    &&& runs.len() == out.len()
    &&& forall|i: int| 0 <= i < runs.len() ==> from <= (#[trigger] runs[i]).0 <= runs[i].1 <= to
    &&& forall|i: int, j: int|
        0 <= i < j < runs.len() ==> (#[trigger] runs[i]).1 <= (#[trigger] runs[j]).0
    &&& forall|i: int|
        0 <= i < out.len() ==> (#[trigger] out[i] matches FrameView::Payload(d) ==> {
            &&& d.len() >= 1
            &&& framed_at(d, all, runs[i].0)
            &&& runs[i].1 == runs[i].0 + 8 + d.len()
        })
}

/// A frame that is pending is not empty and has its header in the buffer. So it is of every
/// parser that was new once.
pub open spec fn sound(s: ParserState) -> bool {
    s.partial matches Some(n) ==> n > 0 && s.buf.len() >= 8 && frame::be32_value(
        s.buf.subrange(0, 4),
    ) == n
}

/// `b` is what is left of `all` after some of its bytes.
spec fn tail_of(b: Seq<u8>, all: Seq<u8>) -> bool {
    b.len() <= all.len() && b == all.skip(all.len() - b.len())
}

proof fn lemma_be32_unique(x: Seq<u8>, n: u32)
    requires
        x.len() == 4,
        frame::be32_value(x) == n,
    ensures
        x == frame::be32(n),
{
    let (a, b, c, d) = (x[0], x[1], x[2], x[3]);
    assert(n / 0x100_0000 == a && n / 0x1_0000 % 256 == b && n / 256 % 256 == c && n % 256 == d)
        by (bit_vector)
        requires
            n == a * 0x100_0000 + b * 0x1_0000 + c * 256 + d,
    ;
    assert(x =~= frame::be32(n));
}

proof fn lemma_framed_head(b: Seq<u8>, len: nat)
    requires
        b.len() >= 8,
        frame::be32_value(b.subrange(0, 4)) == len,
        frame::checksum_holds(b, len),
    ensures
        framed_at(b.subrange(8, 8 + len as int), b, 0),
{
    let d = b.subrange(8, 8 + len as int);
    assert(len <= u32::MAX);
    lemma_be32_unique(b.subrange(0, 4), d.len() as u32);
    lemma_be32_unique(b.subrange(4, 8), frame::crc32_of(d));
    assert(b.subrange(0, 8 + d.len() as int) =~= frame::frame_bytes(d));
}

/// The tails of `s.buf` that a turn may leave.
proof fn lemma_tails(b: Seq<u8>)
    ensures
        tail_of(b, b),
        tail_of(Seq::empty(), b),
        forall|n: int| 0 <= n <= b.len() ==> tail_of(#[trigger] b.skip(n), b),
{
    assert(b.skip(0) =~= b);
    assert(b.skip(b.len() as int) =~= Seq::<u8>::empty());
}

/// What is laid out in a tail of `all` is laid out in `all`, further back.
proof fn lemma_laid_in_tail(
    out: Seq<FrameView>,
    runs: Seq<(int, int)>,
    b: Seq<u8>,
    to: int,
    all: Seq<u8>,
) -> (moved: Seq<(int, int)>)
    requires
        laid_out(out, runs, b, 0, to),
        tail_of(b, all),
    ensures
        laid_out(out, moved, all, all.len() - b.len(), all.len() - b.len() + to),
{
    let skipped = all.len() - b.len();
    let moved = runs.map_values(|r: (int, int)| (r.0 + skipped, r.1 + skipped));
    assert forall|i: int| 0 <= i < out.len() implies (#[trigger] out[i] matches FrameView::Payload(
        d,
    ) ==> {
        &&& d.len() >= 1
        &&& framed_at(d, all, moved[i].0)
        &&& moved[i].1 == moved[i].0 + 8 + d.len()
    }) by {
        if let FrameView::Payload(d) = out[i] {
            let k = runs[i].0;
            assert(framed_at(d, b, k));
            assert(all.subrange(k + skipped, k + skipped + 8 + d.len()) =~= b.subrange(
                k,
                k + 8 + d.len(),
            ));
        }
    }
    moved
}

/// What is laid out stays so when more bytes follow.
proof fn lemma_laid_in_more(
    out: Seq<FrameView>,
    runs: Seq<(int, int)>,
    b: Seq<u8>,
    from: int,
    to: int,
    more: Seq<u8>,
)
    requires
        laid_out(out, runs, b, from, to),
    ensures
        laid_out(out, runs, b + more, from, to),
{
    assert forall|i: int| 0 <= i < out.len() implies (#[trigger] out[i] matches FrameView::Payload(
        d,
    ) ==> {
        &&& d.len() >= 1
        &&& framed_at(d, b + more, runs[i].0)
        &&& runs[i].1 == runs[i].0 + 8 + d.len()
    }) by {
        if let FrameView::Payload(d) = out[i] {
            let k = runs[i].0;
            assert(framed_at(d, b, k));
            assert((b + more).subrange(k, k + 8 + d.len()) =~= b.subrange(k, k + 8 + d.len()));
        }
    }
}

/// What is laid out in two parts, one behind the other, is laid out as a whole.
proof fn lemma_laid_in_turn(
    a: Seq<FrameView>,
    ra: Seq<(int, int)>,
    b: Seq<FrameView>,
    rb: Seq<(int, int)>,
    all: Seq<u8>,
    from: int,
    mid: int,
    to: int,
)
    requires
        from <= mid <= to,
        laid_out(a, ra, all, from, mid),
        laid_out(b, rb, all, mid, to),
    ensures
        laid_out(a + b, ra + rb, all, from, to),
{
    let out = a + b;
    let runs = ra + rb;
    assert forall|i: int| 0 <= i < out.len() implies (#[trigger] out[i] matches FrameView::Payload(
        d,
    ) ==> {
        &&& d.len() >= 1
        &&& framed_at(d, all, runs[i].0)
        &&& runs[i].1 == runs[i].0 + 8 + d.len()
    }) by {
        if i < a.len() {
            assert(out[i] == a[i] && runs[i] == ra[i]);
        } else {
            assert(out[i] == b[i - a.len()] && runs[i] == rb[i - a.len()]);
        }
    }
    assert forall|i: int, j: int| 0 <= i < j < runs.len() implies (#[trigger] runs[i]).1 <= (
    #[trigger] runs[j]).0 by {
        if j < a.len() {
            assert(runs[i] == ra[i] && runs[j] == ra[j]);
        } else if i < a.len() {
            assert(runs[i] == ra[i] && runs[j] == rb[j - a.len()]);
        } else {
            assert(runs[i] == rb[i - a.len()] && runs[j] == rb[j - a.len()]);
        }
    }
}

proof fn lemma_turn_laid(s: ParserState) -> (runs: Seq<(int, int)>)
    requires
        sound(s),
    ensures
        tail_of(frame::turn(s).state.buf, s.buf),
        laid_out(
            frame::turn(s).out,
            runs,
            s.buf,
            0,
            s.buf.len() - frame::turn(s).state.buf.len(),
        ),
        sound(frame::turn(s).state),
        frame::turn(s).more ==> frame::turn(s).state.buf.len() < s.buf.len(),
{
    let t = frame::turn(s);
    lemma_tails(s.buf);
    match s.partial {
        Some(plen) => {
            if s.buf.len() >= 8 + plen && frame::checksum_holds(s.buf, plen) {
                lemma_framed_head(s.buf, plen);
            }
        },
        None => if frame::end_at(s.buf, 0) {
        } else if s.synced {
            let len = frame::be32_value(s.buf.subrange(0, 4));
            if s.buf.len() >= 8 && frame::checksum_holds(s.buf, len) {
                lemma_framed_head(s.buf, len);
            }
        } else if let Some(i) = frame::first_marker(s.buf) {
            assert(frame::is_first_marker(s.buf, i));
        },
    }
    assert(t.out.len() <= 1);
    let taken = s.buf.len() - t.state.buf.len();
    assert(t.out.len() == 1 && t.out[0] is Payload ==> {
        let d = t.out[0]->Payload_0;
        &&& d.len() >= 1
        &&& framed_at(d, s.buf, 0)
        &&& taken == 8 + d.len()
    });
    if t.out.len() == 0 {
        seq![]
    } else {
        seq![(0int, taken)]
    }
}

proof fn lemma_run_laid(s: ParserState) -> (runs: Seq<(int, int)>)
    requires
        sound(s),
    ensures
        tail_of(frame::run(s).state.buf, s.buf),
        laid_out(frame::run(s).out, runs, s.buf, 0, s.buf.len() - frame::run(s).state.buf.len()),
        sound(frame::run(s).state),
    decreases s.buf.len(),
{
    let first = lemma_turn_laid(s);
    let t = frame::turn(s);
    if t.more {
        let rest = lemma_run_laid(t.state);
        let r = frame::run(t.state);
        let n = s.buf.len() as int;
        let mid = n - t.state.buf.len();
        let moved = lemma_laid_in_tail(
            r.out,
            rest,
            t.state.buf,
            t.state.buf.len() - r.state.buf.len(),
            s.buf,
        );
        lemma_laid_in_turn(t.out, first, r.out, moved, s.buf, 0, mid, n - r.state.buf.len());
        assert(r.state.buf =~= s.buf.skip(n - r.state.buf.len()));
        first + moved
    } else {
        first
    }
}

proof fn lemma_calls_laid(s: ParserState, calls: Seq<Call>) -> (runs: Seq<(int, int)>)
    requires
        sound(s),
    ensures
        laid_out(
            called_all(s, calls).out,
            runs,
            s.buf + all_fed(calls),
            0,
            (s.buf + all_fed(calls)).len() as int,
        ),
        sound(called_all(s, calls).state),
    decreases calls.len(),
{
    if calls.len() == 0 {
        seq![]
    } else {
        let rest = calls.drop_first();
        let more = all_fed(rest);
        let all = s.buf + all_fed(calls);
        let a = called(s, calls[0]);
        let now = match calls[0] {
            Call::Feed(d) => s.buf + d,
            Call::TimeOut => s.buf,
        };
        assert(all =~= now + more);
        let taken = now.len() - a.state.buf.len();
        let first = match calls[0] {
            Call::Feed(d) => {
                if s.partial is Some {
                    assert(now.subrange(0, 4) =~= s.buf.subrange(0, 4));
                }
                lemma_run_laid(ParserState { buf: now, ..s })
            },
            Call::TimeOut => {
                lemma_tails(now);
                seq![(0int, taken)]
            },
        };
        assert(laid_out(a.out, first, now, 0, taken));
        assert(tail_of(a.state.buf, now));
        lemma_laid_in_more(a.out, first, now, 0, taken, more);
        let later = lemma_calls_laid(a.state, rest);
        let left = a.state.buf + more;
        assert(left =~= all.skip(all.len() - left.len()));
        let b = called_all(a.state, rest);
        let moved = lemma_laid_in_tail(b.out, later, left, left.len() as int, all);
        lemma_laid_in_turn(a.out, first, b.out, moved, all, 0, taken, all.len() as int);
        first + moved
    }
}

/// Whatever arrives, however it is cut, and whenever a frame is given up: the parser emits no
/// data that does not stand in what arrived as one piece, behind its own length and its own
/// checksum. Each frame was made of bytes of its own, and the frames come out in the order in
/// which their bytes came in.
pub proof fn law_payloads_are_framed(s: ParserState, calls: Seq<Call>)
    requires
        sound(s),
    ensures
        ({
            let all = s.buf + all_fed(calls);
            exists|runs: Seq<(int, int)>| #[trigger]
                laid_out(called_all(s, calls).out, runs, all, 0, all.len() as int)
        }),
        sound(called_all(s, calls).state),
        sound(frame::fresh()),
{
    let runs = lemma_calls_laid(s, calls);
    let all = s.buf + all_fed(calls);
    assert(laid_out(called_all(s, calls).out, runs, all, 0, all.len() as int));
}

} // verus!
