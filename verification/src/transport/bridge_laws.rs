//! Laws of the compatibility transport: what one side reads from its connection is what the
//! other side gets, whatever the order of events, and a helper's channel counts while it is used.
use crate::model::TunnelError;
use crate::text;
use crate::transport::frame;
use crate::transport::frame::{FrameView, ParserState};
use crate::transport::frame_laws;
use crate::transport::python_bridge;
use crate::transport::python_bridge::{
    FrameMsg, FwdAction, FwdActionView, FwdEvent, FwdStateView, FwdStep, HelperTask, HelperTasks,
    LocalMsg, SetupAsk, SetupEvent, SetupPhase, SetupState,
};
use crate::transport::shared;
use crate::transport::shared::ChannelCount;
use vstd::prelude::*;

verus! {

/// Where the forwarder stands after a run of events, and all it asked for.
pub open spec fn fwd_run(
    target: Seq<char>,
    dump: bool,
    state: FwdStateView,
    events: Seq<FwdEvent>,
) -> FwdStep
    decreases events.len(),
{
    if events.len() == 0 {
        FwdStep { state, actions: seq![] }
    } else {
        let before = fwd_run(target, dump, state, events.drop_last());
        let last = python_bridge::fwd_next(target, dump, before.state, events.last());
        FwdStep { state: last.state, actions: before.actions + last.actions }
    }
}

/// What was written to the channel.
pub open spec fn channel_bytes(actions: Seq<FwdActionView>) -> Seq<u8>
    decreases actions.len(),
{
    if actions.len() == 0 {
        seq![]
    } else {
        channel_bytes(actions.drop_last()) + match actions.last() {
            FwdActionView::WriteChannel(d) => d,
            _ => seq![],
        }
    }
}

/// What was written to the landing.
pub open spec fn local_bytes(actions: Seq<FwdActionView>) -> Seq<u8>
    decreases actions.len(),
{
    if actions.len() == 0 {
        seq![]
    } else {
        local_bytes(actions.drop_last()) + match actions.last() {
            FwdActionView::WriteLocal(d) => d,
            _ => seq![],
        }
    }
}

/// What one event of the landing means to the server, given where the forwarder stands.
pub open spec fn sent_up(state: FwdStateView, event: FwdEvent) -> Seq<FrameView> {
    match (state, event) {
        (FwdStateView::Open { .. }, FwdEvent::Local(LocalMsg::Data(d))) => seq![
            FrameView::Payload(d@),
        ],
        (FwdStateView::Open { .. }, FwdEvent::Local(LocalMsg::Closed)) => seq![FrameView::End],
        _ => seq![],
    }
}

/// All that the landing sent while its connection was open.
pub open spec fn uplink(
    target: Seq<char>,
    dump: bool,
    state: FwdStateView,
    events: Seq<FwdEvent>,
) -> Seq<FrameView>
    decreases events.len(),
{
    if events.len() == 0 {
        seq![]
    } else {
        uplink(target, dump, state, events.drop_last()) + sent_up(
            fwd_run(target, dump, state, events.drop_last()).state,
            events.last(),
        )
    }
}

/// What one event brings for the landing, given where the forwarder stands.
pub open spec fn sent_down(state: FwdStateView, event: FwdEvent) -> Seq<u8> {
    match (state, event) {
        (FwdStateView::Dialing(first), FwdEvent::Dialed(Ok(_))) => first,
        (FwdStateView::Open { .. }, FwdEvent::Frame(FrameMsg::Payload(p))) => p@,
        _ => seq![],
    }
}

/// All that the server sent for connections whose landing answered.
pub open spec fn downlink(
    target: Seq<char>,
    dump: bool,
    state: FwdStateView,
    events: Seq<FwdEvent>,
) -> Seq<u8>
    decreases events.len(),
{
    if events.len() == 0 {
        seq![]
    } else {
        downlink(target, dump, state, events.drop_last()) + sent_down(
            fwd_run(target, dump, state, events.drop_last()).state,
            events.last(),
        )
    }
}

proof fn lemma_channel_append(a: Seq<FwdActionView>, b: Seq<FwdActionView>)
    ensures
        channel_bytes(a + b) == channel_bytes(a) + channel_bytes(b),
    decreases b.len(),
{
    if b.len() == 0 {
        assert(a + b =~= a);
        assert(channel_bytes(a) + channel_bytes(b) =~= channel_bytes(a));
    } else {
        assert((a + b).drop_last() =~= a + b.drop_last());
        lemma_channel_append(a, b.drop_last());
        assert(channel_bytes(a + b) =~= channel_bytes(a) + channel_bytes(b));
    }
}

proof fn lemma_local_append(a: Seq<FwdActionView>, b: Seq<FwdActionView>)
    ensures
        local_bytes(a + b) == local_bytes(a) + local_bytes(b),
    decreases b.len(),
{
    if b.len() == 0 {
        assert(a + b =~= a);
        assert(local_bytes(a) + local_bytes(b) =~= local_bytes(a));
    } else {
        assert((a + b).drop_last() =~= a + b.drop_last());
        lemma_local_append(a, b.drop_last());
        assert(local_bytes(a + b) =~= local_bytes(a) + local_bytes(b));
    }
}

proof fn lemma_units_append(a: Seq<FrameView>, b: Seq<FrameView>)
    ensures
        frame_laws::units_bytes(a + b) == frame_laws::units_bytes(a) + frame_laws::units_bytes(b),
    decreases a.len(),
{
    if a.len() == 0 {
        assert(a + b =~= b);
        assert(frame_laws::units_bytes(a) + frame_laws::units_bytes(b)
            =~= frame_laws::units_bytes(b));
    } else {
        assert((a + b).drop_first() =~= a.drop_first() + b);
        lemma_units_append(a.drop_first(), b);
        assert(frame_laws::units_bytes(a + b) =~= frame_laws::units_bytes(a)
            + frame_laws::units_bytes(b));
    }
}

proof fn lemma_one_up(target: Seq<char>, dump: bool, state: FwdStateView, event: FwdEvent)
    ensures
        channel_bytes(python_bridge::fwd_next(target, dump, state, event).actions)
            == frame_laws::units_bytes(sent_up(state, event)),
{
    let actions = python_bridge::fwd_next(target, dump, state, event).actions;
    let up = sent_up(state, event);
    reveal_with_fuel(channel_bytes, 5);
    reveal_with_fuel(frame_laws::units_bytes, 2);
    if up.len() > 0 {
        assert(up.drop_first() =~= seq![]);
        assert(channel_bytes(actions) =~= frame_laws::unit_bytes(up[0]));
        assert(frame_laws::units_bytes(up) =~= frame_laws::unit_bytes(up[0]));
    } else {
        assert(channel_bytes(actions) =~= seq![]);
    }
}

proof fn lemma_one_down(target: Seq<char>, dump: bool, state: FwdStateView, event: FwdEvent)
    ensures
        local_bytes(python_bridge::fwd_next(target, dump, state, event).actions) == sent_down(
            state,
            event,
        ),
{
    let actions = python_bridge::fwd_next(target, dump, state, event).actions;
    reveal_with_fuel(local_bytes, 5);
    assert(local_bytes(actions) =~= sent_down(state, event));
}

/// What the landing sends goes to the server complete, in order, each piece as one write
/// unit and the end of its connection as the end unit, whatever happens in between.
pub proof fn law_uplink_complete(
    target: Seq<char>,
    dump: bool,
    state: FwdStateView,
    events: Seq<FwdEvent>,
)
    ensures
        channel_bytes(fwd_run(target, dump, state, events).actions) == frame_laws::units_bytes(
            uplink(target, dump, state, events),
        ),
    decreases events.len(),
{
    if events.len() > 0 {
        let front = events.drop_last();
        let before = fwd_run(target, dump, state, front);
        law_uplink_complete(target, dump, state, front);
        lemma_one_up(target, dump, before.state, events.last());
        lemma_channel_append(
            before.actions,
            python_bridge::fwd_next(target, dump, before.state, events.last()).actions,
        );
        lemma_units_append(
            uplink(target, dump, state, front),
            sent_up(before.state, events.last()),
        );
    }
}

/// What the server sends goes to the landing complete, in order and unchanged, from the
/// first bytes of a connection on.
pub proof fn law_downlink_complete(
    target: Seq<char>,
    dump: bool,
    state: FwdStateView,
    events: Seq<FwdEvent>,
)
    ensures
        local_bytes(fwd_run(target, dump, state, events).actions) == downlink(
            target,
            dump,
            state,
            events,
        ),
    decreases events.len(),
{
    if events.len() > 0 {
        let front = events.drop_last();
        let before = fwd_run(target, dump, state, front);
        law_downlink_complete(target, dump, state, front);
        lemma_one_down(target, dump, before.state, events.last());
        lemma_local_append(
            before.actions,
            python_bridge::fwd_next(target, dump, before.state, events.last()).actions,
        );
    }
}

/// From end to end: what the forwarder writes to the channel, cut into any chunks, a parser
/// on the other side reads as exactly what the landing sent.
pub proof fn law_uplink_delivered(
    target: Seq<char>,
    dump: bool,
    state: FwdStateView,
    events: Seq<FwdEvent>,
    parser: ParserState,
    chunks: Seq<Seq<u8>>,
)
    requires
        frame_laws::idle(parser),
        frame_laws::all_clean(uplink(target, dump, state, events)),
        frame_laws::joined(chunks) == channel_bytes(fwd_run(target, dump, state, events).actions),
    ensures
        frame_laws::fed_all(parser, chunks).out == uplink(target, dump, state, events),
{
    law_uplink_complete(target, dump, state, events);
    frame_laws::law_units_round_trip(parser, uplink(target, dump, state, events), chunks);
}

// ---------------------------------------------------------------- one connection
/// What happens while a connection from the server is served and all goes well: the landing
/// is dialed for the first piece of data, and each piece is written before the next one.
pub open spec fn served(pieces: Seq<Vec<u8>>) -> Seq<FwdEvent>
    decreases pieces.len(),
{
    if pieces.len() == 0 {
        seq![]
    } else {
        let piece = FwdEvent::Frame(FrameMsg::Payload(pieces.last()));
        if pieces.len() == 1 {
            seq![piece, FwdEvent::Dialed(Ok(())), FwdEvent::Written(true)]
        } else {
            served(pieces.drop_last()) + seq![piece, FwdEvent::Written(true)]
        }
    }
}

/// The bytes of the pieces, one after the other.
pub open spec fn all_bytes(pieces: Seq<Vec<u8>>) -> Seq<u8>
    decreases pieces.len(),
{
    if pieces.len() == 0 {
        seq![]
    } else {
        all_bytes(pieces.drop_last()) + pieces.last()@
    }
}

/// One more event.
proof fn lemma_one_more(
    target: Seq<char>,
    dump: bool,
    state: FwdStateView,
    events: Seq<FwdEvent>,
    event: FwdEvent,
)
    ensures
        ({
            let before = fwd_run(target, dump, state, events);
            let last = python_bridge::fwd_next(target, dump, before.state, event);
            &&& fwd_run(target, dump, state, events.push(event)).state == last.state
            &&& downlink(target, dump, state, events.push(event)) == downlink(
                target,
                dump,
                state,
                events,
            ) + sent_down(before.state, event)
        }),
{
    assert(events.push(event).drop_last() =~= events);
}

/// The run over the events of `served`, as the law states it.
spec fn is_delivered(target: Seq<char>, dump: bool, pieces: Seq<Vec<u8>>) -> bool {
    &&& fwd_run(target, dump, FwdStateView::Idle, served(pieces)).state == (FwdStateView::Open {
        turn: pieces.len(),
    })
    &&& downlink(target, dump, FwdStateView::Idle, served(pieces)) == all_bytes(pieces)
}

proof fn lemma_dialing(target: Seq<char>, dump: bool, piece: Vec<u8>)
    ensures
        ({
            let events = seq![FwdEvent::Frame(FrameMsg::Payload(piece))];
            &&& fwd_run(target, dump, FwdStateView::Idle, events).state
                == FwdStateView::Dialing(piece@)
            &&& downlink(target, dump, FwdStateView::Idle, events) == Seq::<u8>::empty()
        }),
{
    let none = Seq::<FwdEvent>::empty();
    let event = FwdEvent::Frame(FrameMsg::Payload(piece));
    lemma_one_more(target, dump, FwdStateView::Idle, none, event);
    assert(none.push(event) =~= seq![event]);
    assert(sent_down(FwdStateView::Idle, event) == Seq::<u8>::empty());
    assert(downlink(target, dump, FwdStateView::Idle, none) == Seq::<u8>::empty());
    assert(Seq::<u8>::empty() + Seq::<u8>::empty() =~= Seq::<u8>::empty());
}

proof fn lemma_priming(target: Seq<char>, dump: bool, piece: Vec<u8>)
    ensures
        ({
            let events = seq![FwdEvent::Frame(FrameMsg::Payload(piece))].push(
                FwdEvent::Dialed(Ok(())),
            );
            &&& fwd_run(target, dump, FwdStateView::Idle, events).state is Priming
            &&& downlink(target, dump, FwdStateView::Idle, events) == piece@
        }),
{
    let first = seq![FwdEvent::Frame(FrameMsg::Payload(piece))];
    lemma_dialing(target, dump, piece);
    lemma_one_more(target, dump, FwdStateView::Idle, first, FwdEvent::Dialed(Ok(())));
    assert(Seq::<u8>::empty() + piece@ =~= piece@);
}

proof fn lemma_first_piece(target: Seq<char>, dump: bool, pieces: Seq<Vec<u8>>)
    requires
        pieces.len() == 1,
    ensures
        is_delivered(target, dump, pieces),
{
    let piece = pieces.last();
    let before = seq![FwdEvent::Frame(FrameMsg::Payload(piece))].push(FwdEvent::Dialed(Ok(())));
    lemma_priming(target, dump, piece);
    lemma_one_more(target, dump, FwdStateView::Idle, before, FwdEvent::Written(true));
    assert(served(pieces) =~= before.push(FwdEvent::Written(true)));
    assert(all_bytes(pieces) =~= piece@) by {
        assert(pieces.drop_last() =~= Seq::<Vec<u8>>::empty());
        reveal_with_fuel(all_bytes, 2);
    }
    assert(piece@ + Seq::<u8>::empty() =~= piece@);
}

proof fn lemma_next_piece(target: Seq<char>, dump: bool, pieces: Seq<Vec<u8>>)
    requires
        pieces.len() > 1,
        is_delivered(target, dump, pieces.drop_last()),
    ensures
        is_delivered(target, dump, pieces),
{
    let idle = FwdStateView::Idle;
    let e0 = served(pieces.drop_last());
    let e1 = e0.push(FwdEvent::Frame(FrameMsg::Payload(pieces.last())));
    lemma_one_more(target, dump, idle, e0, e1.last());
    assert(fwd_run(target, dump, idle, e1).state == (FwdStateView::ToLocal {
        turn: (pieces.len() - 1) as nat,
    }));
    lemma_one_more(target, dump, idle, e1, FwdEvent::Written(true));
    assert(served(pieces) =~= e1.push(FwdEvent::Written(true)));
    assert(downlink(target, dump, idle, served(pieces)) =~= all_bytes(pieces));
}

proof fn lemma_delivered(target: Seq<char>, dump: bool, pieces: Seq<Vec<u8>>)
    requires
        pieces.len() > 0,
    ensures
        is_delivered(target, dump, pieces),
    decreases pieces.len(),
{
    if pieces.len() == 1 {
        lemma_first_piece(target, dump, pieces);
    } else {
        lemma_delivered(target, dump, pieces.drop_last());
        lemma_next_piece(target, dump, pieces);
    }
}

/// A connection from the server that is served without a failure: the landing gets all of its
/// data, in order and nothing else; and the end of the connection leaves the forwarder ready
/// for the next one.
pub proof fn law_connection_delivered(target: Seq<char>, dump: bool, pieces: Seq<Vec<u8>>)
    requires
        pieces.len() > 0,
    ensures
        local_bytes(fwd_run(target, dump, FwdStateView::Idle, served(pieces)).actions)
            == all_bytes(pieces),
        fwd_run(
            target,
            dump,
            FwdStateView::Idle,
            served(pieces).push(FwdEvent::Frame(FrameMsg::End)),
        ).state is Idle,
{
    let idle = FwdStateView::Idle;
    lemma_delivered(target, dump, pieces);
    law_downlink_complete(target, dump, idle, served(pieces));
    lemma_one_more(target, dump, idle, served(pieces), FwdEvent::Frame(FrameMsg::End));
}

// ---------------------------------------------------------------- the helper's channel
/// The start of a helper after a run of events: where it stands, what was to be written to the
/// channel, and the port of a helper that serves.
pub struct SetupRun {
    pub state: SetupState,
    pub written: Seq<u8>,
    pub ready: Option<u16>,
}

/// The start of a helper for the port `requested`, on a connection with these channels.
pub open spec fn setup_run(requested: u32, channels: ChannelCount, events: Seq<SetupEvent>) -> SetupRun
    decreases events.len(),
{
    if events.len() == 0 {
        SetupRun {
            state: SetupState { phase: SetupPhase::Opening, channels },
            written: seq![],
            ready: None,
        }
    } else {
        let before = setup_run(requested, channels, events.drop_last());
        let (state, ask) = python_bridge::setup_next(requested, before.state, events.last());
        match ask {
            Some(SetupAsk::Write(b)) => SetupRun { state, written: before.written + b, ..before },
            Some(SetupAsk::Ready(p)) => SetupRun { state, ready: Some(p), ..before },
            _ => SetupRun { state, ..before },
        }
    }
}

/// However its steps come out, the start of a helper writes the marker once or not at all. A
/// helper that serves has written it, counts as one channel more, and serves on the requested
/// port, or on the one it reported where none was requested. One that does not serve leaves
/// the channels as they were.
pub proof fn law_helper_start(requested: u32, channels: ChannelCount, events: Seq<SetupEvent>)
    ensures
        ({
            let r = setup_run(requested, channels, events);
            &&& r.written == Seq::<u8>::empty() || r.written == frame::marker()
            &&& match r.ready {
                Some(p) => {
                    &&& r.state.phase is Ended
                    &&& r.state.channels == shared::one_more(channels)
                    &&& r.written == frame::marker()
                    &&& if requested != 0 {
                        p == requested as u16
                    } else {
                        events.contains(SetupEvent::Line(Some(p)))
                    }
                },
                None => r.state.channels == channels,
            }
        }),
{
    lemma_helper_start(requested, channels, events);
}

proof fn lemma_helper_start(requested: u32, channels: ChannelCount, events: Seq<SetupEvent>)
    ensures
        ({
            let r = setup_run(requested, channels, events);
            let phase = r.state.phase;
            &&& phase is Opening || phase is Starting ==> r.written == Seq::<u8>::empty()
            &&& phase is Marking || phase is Listening || r.ready is Some ==> r.written
                == frame::marker()
            &&& r.written == Seq::<u8>::empty() || r.written == frame::marker()
            &&& phase is Listening ==> requested == 0
            &&& match r.ready {
                Some(p) => {
                    &&& phase is Ended
                    &&& r.state.channels == shared::one_more(channels)
                    &&& if requested != 0 {
                        p == requested as u16
                    } else {
                        events.contains(SetupEvent::Line(Some(p)))
                    }
                },
                None => r.state.channels == channels,
            }
        }),
    decreases events.len(),
{
    if events.len() > 0 {
        lemma_helper_start(requested, channels, events.drop_last());
        let before = setup_run(requested, channels, events.drop_last());
        let r = setup_run(requested, channels, events);
        assert(events[events.len() - 1] == events.last());
        assert(before.written + frame::marker() =~= frame::marker() || before.written.len() > 0);
        if before.ready is Some && requested == 0 {
            let e = SetupEvent::Line(Some(before.ready->0));
            let i = choose|i: int| 0 <= i < events.drop_last().len() && events.drop_last()[i] == e;
            assert(events[i] == e);
        }
    }
}

/// The tasks of a helper and the channels of its connection after these ends.
pub open spec fn tasks_run(channels: ChannelCount, ends: Seq<HelperTask>) -> (
    HelperTasks,
    ChannelCount,
)
    decreases ends.len(),
{
    if ends.len() == 0 {
        (HelperTasks { reading: true, forwarding: true }, channels)
    } else {
        let before = tasks_run(channels, ends.drop_last());
        (
            python_bridge::without(before.0, ends.last()),
            if python_bridge::gives_back(before.0, ends.last()) {
                shared::one_fewer(before.1)
            } else {
                before.1
            },
        )
    }
}

/// The channel of a helper counts until both of its tasks have ended, in whatever order, and is
/// then given back, once: the count is what it was before the helper was started.
pub proof fn law_helper_channel_balance(channels: ChannelCount, ends: Seq<HelperTask>)
    requires
        channels.open < usize::MAX,
    ensures
        tasks_run(shared::one_more(channels), ends).1 == if ends.contains(HelperTask::Reader)
            && ends.contains(HelperTask::Forwarder) {
            channels
        } else {
            shared::one_more(channels)
        },
{
    lemma_tasks_run(shared::one_more(channels), ends);
    shared::law_channel_balance(channels);
}

proof fn lemma_tasks_run(channels: ChannelCount, ends: Seq<HelperTask>)
    ensures
        tasks_run(channels, ends).0 == (HelperTasks {
            reading: !ends.contains(HelperTask::Reader),
            forwarding: !ends.contains(HelperTask::Forwarder),
        }),
        tasks_run(channels, ends).1 == if ends.contains(HelperTask::Reader) && ends.contains(
            HelperTask::Forwarder,
        ) {
            shared::one_fewer(channels)
        } else {
            channels
        },
    decreases ends.len(),
{
    if ends.len() > 0 {
        let before = ends.drop_last();
        lemma_tasks_run(channels, before);
        assert(ends =~= before.push(ends.last()));
        assert forall|t: HelperTask| #[trigger] ends.contains(t) == (before.contains(t)
            || ends.last() == t) by {
            if before.contains(t) {
                let i = choose|i: int| 0 <= i < before.len() && before[i] == t;
                assert(ends[i] == t);
            }
            if ends.last() == t {
                assert(ends[ends.len() - 1] == t);
            }
        }
    }
}

// ---------------------------------------------------------------- the helper's start
/// The port line of a helper: `PORT` and the numeral of a port that is not zero, with any white
/// space around it, is that port. Nothing is a port line that does not begin with `PORT`.
pub proof fn law_port_line_is_read(port: u16, before: Seq<char>, after: Seq<char>, line: Seq<char>)
    requires
        text::blank(before),
        text::blank(after),
    ensures
        port != 0 ==> python_bridge::reported_port(
            before + ("PORT "@ + text::decimal(port as nat)) + after,
        ) == Some(port),
        python_bridge::reported_port(before + "PORT 0"@ + after) is None,
        !text::found_at(text::trimmed(line), "PORT "@, 0) ==> python_bridge::reported_port(line)
            is None,
        python_bridge::reported_port(line) != Some(0u16),
{
    let n = text::decimal(port as nat);
    let t = "PORT "@ + n;
    reveal_strlit("PORT ");
    reveal_strlit("PORT 0");
    text::lemma_decimal_value(port as nat);
    text::law_white_space('P', t);
    text::law_white_space(n.last(), n);
    text::law_white_space(n.first(), n);
    assert(text::is_digit(n[n.len() - 1]) && text::is_digit(n[0]));
    assert(t.first() == 'P' && t.last() == n.last());
    text::law_trimming(before, t, after);
    assert(t.subrange(0, 5) =~= "PORT "@);
    assert(t.skip(5) =~= n);
    text::law_trimming(Seq::empty(), n, Seq::empty());
    text::lemma_port_round_trip(port);
    let z = "PORT 0"@;
    text::law_white_space('P', z);
    text::law_white_space('0', z);
    text::law_trimming(before, z, after);
    assert(z.skip(5) =~= seq!['0']);
    text::law_trimming(Seq::empty(), seq!['0'], Seq::empty());
    text::law_port_reading(seq!['0'], '0');
}

/// The helper is started for the port that is requested: its command ends in that port.
pub proof fn law_helper_is_started_for_the_port(port: u32, reason: Seq<char>, e: TunnelError)
    ensures
        python_bridge::HELPER_PY@.is_prefix_of(python_bridge::helper_command_of(port)),
        text::ends_in(python_bridge::helper_command_of(port), " "@ + text::decimal(port as nat)),
        text::ends_in(
            python_bridge::ready_line(0, port as u16),
            text::decimal(port as u16 as nat),
        ),
        port != 0 ==> text::occurs(
            python_bridge::ready_line(port, port as u16),
            text::decimal(port as nat),
        ),
        python_bridge::setup_failure(SetupPhase::Opening, reason, e) ==> e is ChannelOpen,
        python_bridge::setup_failure(SetupPhase::Starting, reason, e) ==> (
        e matches TunnelError::Protocol(m) && text::ends_in(m@, reason)),
        python_bridge::setup_failure(SetupPhase::Marking, reason, e) ==> (
        e matches TunnelError::Protocol(m) && text::ends_in(m@, reason)),
{
    let c = python_bridge::helper_command_of(port);
    let h = python_bridge::HELPER_PY@;
    let x = " "@ + text::decimal(port as nat);
    assert(c.take(h.len() as int) =~= h);
    assert(c.subrange(c.len() - x.len(), c.len() as int) =~= x);
    text::lemma_says(
        "转发助手已启动, 动态分配端口 "@,
        seq![],
        seq![],
        text::decimal(port as u16 as nat),
    );
    text::law_occurrence("转发助手已启动 (监听 127.0.0.1:"@, text::decimal(port as nat), ")"@);
    text::lemma_says("启动转发助手失败: "@, seq![], seq![], reason);
    text::lemma_says("写标记帧失败: "@, seq![], seq![], reason);
}

/// The steps of a start: the command on a channel that opened, the marker on a command that
/// started, and then the helper serves on the requested port, or its line is read where none was
/// requested. A step that fails, or a line that names no port, ends the start; nothing else does.
pub proof fn law_steps_of_a_start(requested: u32, channels: ChannelCount, p: u16)
    ensures
        ({
            let at = |phase: SetupPhase| SetupState { phase, channels };
            let next = |phase: SetupPhase, e: SetupEvent|
                python_bridge::setup_next(requested, at(phase), e);
            &&& next(SetupPhase::Opening, SetupEvent::Step(true)) == (
                at(SetupPhase::Starting),
                Some(SetupAsk::Exec(python_bridge::helper_command_of(requested))),
            )
            &&& next(SetupPhase::Starting, SetupEvent::Step(true)) == (
                at(SetupPhase::Marking),
                Some(SetupAsk::Write(frame::marker())),
            )
            &&& requested == 0 ==> next(SetupPhase::Marking, SetupEvent::Step(true)) == (
                at(SetupPhase::Listening),
                Some(SetupAsk::ReadPortLine),
            )
            &&& requested != 0 ==> {
                let (s, ask) = next(SetupPhase::Marking, SetupEvent::Step(true));
                s.phase is Ended && s.channels == shared::one_more(channels) && ask == Some(
                    SetupAsk::Ready(requested as u16),
                )
            }
            &&& {
                let (s, ask) = next(SetupPhase::Listening, SetupEvent::Line(Some(p)));
                s.phase is Ended && s.channels == shared::one_more(channels) && ask == Some(
                    SetupAsk::Ready(p),
                )
            }
            &&& next(SetupPhase::Opening, SetupEvent::Step(false)) == (
                at(SetupPhase::Ended),
                Some(SetupAsk::Fail),
            )
            &&& next(SetupPhase::Starting, SetupEvent::Step(false)) == (
                at(SetupPhase::Ended),
                Some(SetupAsk::Fail),
            )
            &&& next(SetupPhase::Marking, SetupEvent::Step(false)) == (
                at(SetupPhase::Ended),
                Some(SetupAsk::Fail),
            )
            &&& next(SetupPhase::Listening, SetupEvent::Line(None)) == (
                at(SetupPhase::Ended),
                Some(SetupAsk::Fail),
            )
        }),
{
}

/// A frame that stays incomplete is given up after more than five seconds, not before.
pub proof fn law_five_seconds_for_a_frame(since: nat, passed: nat)
    ensures
        python_bridge::overdue(since, since + passed) <==> passed > 5_000_000_000,
{
}

/// What is dumped of a read gives its size and its first bytes, twenty-four at most; nothing is
/// dumped unless it is asked for.
pub proof fn law_reads_are_dumped(data: Seq<u8>, k: int)
    requires
        0 <= k <= data.len(),
        k == 24 || k == data.len() && k < 24,
    ensures
        python_bridge::read_dump(false, data) is None,
        python_bridge::read_dump(true, data) matches Some(s) && text::occurs(
            s,
            text::decimal(data.len()),
        ) && text::ends_in(s, text::hex(data.take(k))),
{
    text::lemma_says(
        "READ n="@,
        text::decimal(data.len()),
        " head="@,
        text::hex(data.take(k)),
    );
}

// ---------------------------------------------------------------- one event of the forwarder
/// A connection begins with its first data: the landing is dialed, and once it answers, that data
/// is the first that it gets. A landing that does not answer ends the channel.
pub proof fn law_connection_begins(target: Seq<char>, dump: bool, p: Vec<u8>, e: String)
    ensures
        ({
            let begin = python_bridge::fwd_next(
                target,
                dump,
                FwdStateView::Idle,
                FwdEvent::Frame(FrameMsg::Payload(p)),
            );
            &&& begin.state == FwdStateView::Dialing(p@)
            &&& begin.actions == seq![FwdActionView::Dial(target)]
        }),
        ({
            let up = python_bridge::fwd_next(
                target,
                dump,
                FwdStateView::Dialing(p@),
                FwdEvent::Dialed(Ok(())),
            );
            &&& up.state is Priming
            &&& up.actions.last() == FwdActionView::WriteLocal(p@)
        }),
        ({
            let down = python_bridge::fwd_next(
                target,
                dump,
                FwdStateView::Dialing(p@),
                FwdEvent::Dialed(Err(e)),
            );
            &&& down.state is Ended
            &&& down.actions[0] matches FwdActionView::Log(s) && text::occurs(s, target)
                && text::ends_in(s, e@)
        }),
{
    text::lemma_says("连接本地代理 "@, target, " 失败: "@, e@);
}

/// While a connection is open: data of the channel goes to the landing as it is, data of the
/// landing goes to the channel in one write unit, and the end of the landing goes to the channel
/// as an end unit.
pub proof fn law_open_connection_carries_data(
    target: Seq<char>,
    dump: bool,
    turn: nat,
    d: Vec<u8>,
)
    ensures
        ({
            let down = python_bridge::fwd_next(
                target,
                dump,
                FwdStateView::Open { turn },
                FwdEvent::Frame(FrameMsg::Payload(d)),
            );
            &&& down.state == (FwdStateView::ToLocal { turn })
            &&& down.actions.last() == FwdActionView::WriteLocal(d@)
            &&& !dump ==> down.actions.len() == 1
        }),
        ({
            let up = python_bridge::fwd_next(
                target,
                dump,
                FwdStateView::Open { turn },
                FwdEvent::Local(LocalMsg::Data(d)),
            );
            &&& up.state == (FwdStateView::ToChannel { turn, len: d@.len() })
            &&& up.actions.last() == FwdActionView::WriteChannel(
                frame_laws::unit_bytes(FrameView::Payload(d@)),
            )
            &&& !dump ==> up.actions.len() == 1
        }),
        ({
            let over = python_bridge::fwd_next(
                target,
                dump,
                FwdStateView::Open { turn },
                FwdEvent::Local(LocalMsg::Closed),
            );
            &&& over.state is Closing
            &&& over.actions.last() == FwdActionView::WriteChannel(
                frame_laws::unit_bytes(FrameView::End),
            )
        }),
{
}

/// Whether the forwarder holds a connection to the landing.
pub open spec fn holds_local(s: FwdStateView) -> bool {
    s is Priming || s is Open || s is ToLocal || s is ToChannel || s is Closing
}

/// The connection to the landing is dropped exactly where the forwarder has one and leaves it:
/// between connections and after the end none is left behind, and none is dropped in between.
pub proof fn law_local_connection_is_dropped_once(
    target: Seq<char>,
    dump: bool,
    state: FwdStateView,
    event: FwdEvent,
)
    ensures
        ({
            let step = python_bridge::fwd_next(target, dump, state, event);
            step.actions.contains(FwdActionView::DropLocal) <==> holds_local(state)
                && !holds_local(step.state)
        }),
{
    let step = python_bridge::fwd_next(target, dump, state, event);
    let acts = step.actions;
    if holds_local(state) && !holds_local(step.state) {
        let n = acts.len() as int;
        assert(acts[0] is DropLocal || acts[n - 1] is DropLocal);
    } else {
        assert forall|i: int| 0 <= i < acts.len() implies !(#[trigger] acts[i] is DropLocal) by {}
    }
}

/// A connection goes on, turn after turn, as long as what is to be written can be written. The
/// server's end of it, or a landing that takes no more, ends the connection and not the channel;
/// a channel that is closed, or takes no more, ends both.
pub proof fn law_connection_goes_on(
    target: Seq<char>,
    dump: bool,
    turn: nat,
    len: nat,
    ok: bool,
)
    ensures
        ({
            let next = |s: FwdStateView, e: FwdEvent|
                python_bridge::fwd_next(target, dump, s, e).state;
            let written = FwdEvent::Written(ok);
            &&& next(FwdStateView::Priming, written) == if ok {
                FwdStateView::Open { turn: 1 }
            } else {
                FwdStateView::Idle
            }
            &&& next(FwdStateView::ToLocal { turn }, written) == if ok {
                FwdStateView::Open { turn: turn + 1 }
            } else {
                FwdStateView::Idle
            }
            &&& next(FwdStateView::ToChannel { turn, len }, written) == if ok {
                FwdStateView::Open { turn: turn + 1 }
            } else {
                FwdStateView::Ended
            }
            &&& next(FwdStateView::Closing, written) == if ok {
                FwdStateView::Idle
            } else {
                FwdStateView::Ended
            }
            &&& next(FwdStateView::Open { turn }, FwdEvent::Frame(FrameMsg::End)) is Idle
            &&& next(FwdStateView::Open { turn }, FwdEvent::Frame(FrameMsg::ChannelClosed))
                is Ended
            &&& next(FwdStateView::Idle, FwdEvent::Frame(FrameMsg::ChannelClosed)) is Ended
            &&& next(FwdStateView::Idle, FwdEvent::Frame(FrameMsg::End)) is Idle
        }),
{
}

/// A helper that serves is announced with its port, and a warning follows exactly where the
/// channels of its connection are used up. Its start names the port that is requested.
pub proof fn law_serving_helper_is_announced(requested: u32, bound: u16, channels: ChannelCount)
    ensures
        ({
            let lines = python_bridge::serving_lines(requested, bound, channels);
            &&& lines[0] == python_bridge::ready_line(requested, bound)
            &&& channels.open < channels.budget ==> lines.len() == 1
            &&& channels.open >= channels.budget ==> lines.len() == 2 && lines[1]
                == shared::exhausted_note(channels.open as nat, channels.budget as nat)
        }),
        text::occurs(python_bridge::start_line(requested), text::decimal(requested as nat)),
{
    text::law_occurrence(
        "兼容模式: 在服务器上启动 stdio 转发助手 (请求端口 "@,
        text::decimal(requested as nat),
        ")"@,
    );
}

/// What the forwarder asks for is carried out as it is: the landing is dialed, bytes go to the
/// side that is named. A turn is traced, where tracing is on, with its number, what it carries
/// and how much, in this order.
pub proof fn law_forwarder_action_is_carried_out_as_it_is(
    t: String,
    d: Vec<u8>,
    turn: nat,
    what: Seq<char>,
    len: nat,
)
    ensures
        FwdAction::Dial(t)@ == FwdActionView::Dial(t@),
        FwdAction::WriteLocal(d)@ == FwdActionView::WriteLocal(d@),
        FwdAction::WriteChannel(d)@ == FwdActionView::WriteChannel(d@),
        FwdAction::DropLocal@ is DropLocal,
        FwdAction::Log(t)@ == FwdActionView::Log(t@),
        python_bridge::trace(true, turn, what, len) == seq![
            FwdActionView::Log("FWD#"@ + text::decimal(turn) + what + text::decimal(len)),
        ],
        python_bridge::trace(false, turn, what, len).len() == 0,
{
}

/// Every end is logged: the last thing that is asked for when the channel ends is a line that
/// says so, an open connection that ends leaves its line, and so does data that was written to
/// the channel, with its length. Once the channel has ended nothing is asked for any more.
pub proof fn law_every_end_is_logged(
    target: Seq<char>,
    dump: bool,
    state: FwdStateView,
    event: FwdEvent,
)
    ensures
        ({
            let step = python_bridge::fwd_next(target, dump, state, event);
            let over = FwdActionView::Log("连接转发结束"@);
            &&& !(state is Ended) && step.state is Ended ==> step.actions.len() > 0
                && step.actions.last() == FwdActionView::Log("隧道会话通道已结束"@)
            &&& (state is Open || state is ToLocal || state is Closing) && step.state is Idle
                ==> step.actions.contains(over)
            &&& state is ToChannel && step.state is Open ==> step.actions == seq![
                FwdActionView::Log("回写帧 "@ + text::decimal(state->len) + " 字节"@),
            ]
            &&& state is Ended ==> step.state is Ended && step.actions.len() == 0
        }),
{
    let step = python_bridge::fwd_next(target, dump, state, event);
    let over = FwdActionView::Log("连接转发结束"@);
    if state is Open && step.state is Idle {
        assert(step.actions[1] == over);
    }
    if (state is ToLocal || state is Closing) && step.state is Idle {
        assert(step.actions[0] == over);
    }
}

} // verus!
