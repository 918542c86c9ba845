//! What holds of every session, stated over the mathematical model and proved.

use vstd::prelude::*;
use crate::downlink::decode_text;
use crate::session::{InboundView, PolledView, SessionView};
use crate::uplink::{handshake_text, pcm16_le, sample_bits, stop_text};
use crate::wire::{FrameView, ServerMsgView, SessionError, StartCfgView};

verus! {

/// A freshly opened session satisfies the session invariant.
pub proof fn invariant_holds_initially(url: Seq<char>, cfg: StartCfgView)
    ensures
        SessionView::opening(url, cfg).inv(),
{
}

/// Asking for the next message touches nothing but the buffered events.
pub proof fn next_msg_keeps_the_rest(s: SessionView)
    ensures
        s.next_msg().0.state == s.state,
        s.next_msg().0.outbound == s.outbound,
        s.next_msg().0.url == s.url,
        s.next_msg().0.cfg == s.cfg,
    decreases s.inbox.len(),
{
    if s.inbox.len() > 0 && s.inbox[0] is Other {
        next_msg_keeps_the_rest(SessionView { inbox: s.inbox.drop_first(), ..s });
    }
}

/// Asking for the next message preserves the session invariant.
pub proof fn next_msg_preserves_invariant(s: SessionView)
    requires
        s.inv(),
    ensures
        s.next_msg().0.inv(),
    decreases s.inbox.len(),
{
    if s.inbox.len() > 0 {
        let rest = SessionView { inbox: s.inbox.drop_first(), ..s };
        assert forall|i: int| 0 <= i < rest.inbox.len() implies rest.inbox[i] == s.inbox[i + 1] by {}
        assert(rest.inv());
        if s.inbox[0] is Other {
            next_msg_preserves_invariant(rest);
        }
    }
}

/// Every operation preserves the session invariant.
pub proof fn invariant_is_preserved(s: SessionView, samples: Seq<i16>, event: InboundView)
    requires
        s.inv(),
    ensures
        s.established().inv(),
        s.handshake_sent().inv(),
        s.transport_failed().inv(),
        s.send_pcm16(samples).inv(),
        s.stop().inv(),
        s.receive(event).inv(),
        s.next_msg().0.inv(),
{
    next_msg_preserves_invariant(s);
}

/// The handshake is the first frame handed out, and the only frame that is
/// not audio before any audio frame: where frame `i` of a session is an audio
/// frame, frame 0 is the handshake of the session's configuration and every
/// frame between them is an audio frame.
pub proof fn handshake_is_first_and_only(s: SessionView, i: int)
    requires
        s.inv(),
        0 <= i < s.outbound.len(),
        s.outbound[i] is Binary,
    ensures
        i >= 1,
        s.outbound[0] is Text,
        handshake_text(s.cfg) == Some(s.outbound[0]->Text_0),
        forall|j: int| 1 <= j < i ==> (#[trigger] s.outbound[j]) is Binary,
{
}

/// Audio is handed out in `Streaming` only: in every other state a submitted
/// chunk leaves the session as it was.
pub proof fn audio_needs_streaming(s: SessionView, samples: Seq<i16>)
    requires
        !(s.state is Streaming),
    ensures
        s.send_pcm16(samples) == s,
        s.send_pcm16_result(samples) == Err::<FrameView, SessionError>(SessionError::State),
{
}

/// `Closed` is terminal: no operation leaves it, and none hands out a frame in
/// it.
pub proof fn closed_is_terminal(s: SessionView, samples: Seq<i16>, event: InboundView)
    requires
        s.state is Closed,
    ensures
        s.established().state is Closed,
        s.handshake_sent().state is Closed,
        s.transport_failed().state is Closed,
        s.send_pcm16(samples).state is Closed,
        s.stop().state is Closed,
        s.receive(event).state is Closed,
        s.next_msg().0.state is Closed,
        s.established_result() is Err,
        s.send_pcm16_result(samples) is Err,
        s.stop_result() is Err,
        s.established().outbound == s.outbound,
        s.send_pcm16(samples).outbound == s.outbound,
        s.stop().outbound == s.outbound,
{
    next_msg_keeps_the_rest(s);
}

/// The handshake is handed out once: it is handed out in `Connecting` only,
/// and no operation leads back to `Connecting`.
pub proof fn handshake_is_handed_out_once(s: SessionView, samples: Seq<i16>, event: InboundView)
    ensures
        s.established_result() is Ok ==> s.state is Connecting && !(s.established().state
            is Connecting),
        !(s.state is Connecting) ==> !(s.established().state is Connecting) && !(
        s.handshake_sent().state is Connecting) && !(s.transport_failed().state is Connecting)
            && !(s.send_pcm16(samples).state is Connecting) && !(s.stop().state is Connecting)
            && !(s.receive(event).state is Connecting) && !(s.next_msg().0.state is Connecting),
{
    next_msg_keeps_the_rest(s);
}

/// The session after a sequence of audio chunks was submitted, one call each.
pub open spec fn send_all(s: SessionView, chunks: Seq<Seq<i16>>) -> SessionView
    decreases chunks.len(),
{
    if chunks.len() == 0 {
        s
    } else {
        send_all(s, chunks.drop_last()).send_pcm16(chunks.last())
    }
}

/// Audio frames keep the caller's order and boundaries: submitting a sequence
/// of chunks to a streaming session appends exactly one binary frame per
/// chunk to the outbound log, frame `k` holding the bytes of chunk `k`, and
/// changes nothing else.
pub proof fn audio_frames_keep_order(s: SessionView, chunks: Seq<Seq<i16>>)
    requires
        s.state is Streaming,
    ensures
        send_all(s, chunks) == (SessionView {
            outbound: s.outbound + chunks.map_values(
                |c: Seq<i16>| FrameView::Binary(pcm16_le(c)),
            ),
            ..s
        }),
    decreases chunks.len(),
{
    let frames = chunks.map_values(|c: Seq<i16>| FrameView::Binary(pcm16_le(c)));
    if chunks.len() == 0 {
        assert(s.outbound + frames =~= s.outbound);
    } else {
        audio_frames_keep_order(s, chunks.drop_last());
        let before = chunks.drop_last().map_values(|c: Seq<i16>| FrameView::Binary(pcm16_le(c)));
        assert(s.outbound + frames =~= (s.outbound + before).push(
            FrameView::Binary(pcm16_le(chunks.last())),
        ));
    }
}

/// The bytes of a chunk determine its samples: two chunks with the same
/// bytes are the same chunk.
pub proof fn pcm16_le_is_injective(a: Seq<i16>, b: Seq<i16>)
    requires
        pcm16_le(a) == pcm16_le(b),
    ensures
        a == b,
{
    assert(pcm16_le(a).len() == 2 * a.len());
    assert(pcm16_le(b).len() == 2 * b.len());
    assert forall|k: int| 0 <= k < a.len() implies a[k] == b[k] by {
        assert(pcm16_le(a)[2 * k] == pcm16_le(b)[2 * k]);
        assert(pcm16_le(a)[2 * k + 1] == pcm16_le(b)[2 * k + 1]);
        assert((2 * k) / 2 == k && (2 * k) % 2 == 0);
        assert((2 * k + 1) / 2 == k && (2 * k + 1) % 2 == 1);
        let x = sample_bits(a[k]);
        let y = sample_bits(b[k]);
        assert(0 <= x < 65536 && 0 <= y < 65536);
        assert(pcm16_le(a)[2 * k] == (x % 256) as u8);
        assert(pcm16_le(b)[2 * k] == (y % 256) as u8);
        assert(pcm16_le(a)[2 * k + 1] == (x / 256) as u8);
        assert(pcm16_le(b)[2 * k + 1] == (y / 256) as u8);
        assert(x % 256 == y % 256);
        assert(x / 256 == y / 256);
    }
    assert(a =~= b);
}

/// A malformed text payload costs one parse error and nothing else: the
/// payload is consumed, the state and the outbound log stay as they are, and
/// what was buffered behind it is still there. In particular a valid message
/// that follows is the next one delivered.
pub proof fn parse_error_keeps_session(s: SessionView, bad: Seq<char>)
    requires
        s.inbox.len() > 0,
        s.inbox[0] == InboundView::Text(bad),
        decode_text(bad) is Err,
    ensures
        s.next_msg().1 == PolledView::Ready(Some(Err(SessionError::Parse))),
        s.next_msg().0 == (SessionView { inbox: s.inbox.drop_first(), ..s }),
        forall|good: Seq<char>|
            s.inbox.len() > 1 && s.inbox[1] == InboundView::Text(good) ==> s.next_msg().0.next_msg().1
                == PolledView::Ready(Some(#[trigger] decode_text(good))),
{
}

/// What successive requests for the next message deliver while events are
/// buffered: nothing for a frame that is not text, and one result for every
/// other event, in the order of the events.
pub open spec fn outcomes(inbox: Seq<InboundView>) -> Seq<
    Option<Result<ServerMsgView, SessionError>>,
>
    decreases inbox.len(),
{
    if inbox.len() == 0 {
        Seq::empty()
    } else {
        let rest = outcomes(inbox.drop_first());
        match inbox[0] {
            InboundView::Other => rest,
            InboundView::Text(text) => seq![Some(decode_text(text))] + rest,
            InboundView::Failed => seq![Some(Err(SessionError::Transport))] + rest,
            InboundView::End => seq![None] + rest,
        }
    }
}

/// Requests for the next message deliver [`outcomes`] one by one: while an
/// outcome is left the request delivers the first and leaves the others; when
/// none is left it empties the buffer and says `Pending` on an open session
/// and end of stream on a closed one.
pub proof fn next_msg_follows_outcomes(s: SessionView)
    ensures
        outcomes(s.inbox).len() > 0 ==> s.next_msg().1 == PolledView::Ready(outcomes(s.inbox)[0])
            && outcomes(s.next_msg().0.inbox) == outcomes(s.inbox).drop_first(),
        outcomes(s.inbox).len() == 0 ==> s.next_msg().0.inbox.len() == 0 && s.next_msg().1 == (
        if s.state is Closed {
            PolledView::Ready(None)
        } else {
            PolledView::Pending
        }),
    decreases s.inbox.len(),
{
    if s.inbox.len() > 0 {
        let rest = SessionView { inbox: s.inbox.drop_first(), ..s };
        let tail = outcomes(s.inbox.drop_first());
        match s.inbox[0] {
            InboundView::Other => {
                next_msg_follows_outcomes(rest);
            },
            InboundView::Text(text) => {
                assert((seq![Some(decode_text(text))] + tail).drop_first() =~= tail);
            },
            InboundView::Failed => {
                assert((seq![Some(Err::<ServerMsgView, SessionError>(SessionError::Transport))]
                    + tail).drop_first() =~= tail);
            },
            InboundView::End => {
                assert((seq![None::<Result<ServerMsgView, SessionError>>] + tail).drop_first()
                    =~= tail);
            },
        }
    }
}

/// The outcomes of two runs of events, one after the other, are the outcomes
/// of the first followed by those of the second.
pub proof fn outcomes_of_concatenation(a: Seq<InboundView>, b: Seq<InboundView>)
    ensures
        outcomes(a + b) == outcomes(a) + outcomes(b),
    decreases a.len(),
{
    if a.len() == 0 {
        assert(a + b =~= b);
        assert(outcomes(a) + outcomes(b) =~= outcomes(b));
    } else {
        outcomes_of_concatenation(a.drop_first(), b);
        assert((a + b).drop_first() =~= a.drop_first() + b);
        assert((a + b)[0] == a[0]);
        let tail = outcomes(a.drop_first());
        match a[0] {
            InboundView::Other => {},
            InboundView::Text(text) => {
                assert((seq![Some(decode_text(text))] + tail) + outcomes(b) =~= seq![
                    Some(decode_text(text)),
                ] + (tail + outcomes(b)));
            },
            InboundView::Failed => {
                let head = seq![Some(Err::<ServerMsgView, SessionError>(SessionError::Transport))];
                assert((head + tail) + outcomes(b) =~= head + (tail + outcomes(b)));
            },
            InboundView::End => {
                let head = seq![None::<Result<ServerMsgView, SessionError>>];
                assert((head + tail) + outcomes(b) =~= head + (tail + outcomes(b)));
            },
        }
    }
}

/// Whether an outcome is what a text frame gives: a decoded message or a
/// parse error.
pub open spec fn from_text_frame(outcome: Option<Result<ServerMsgView, SessionError>>) -> bool {
    match outcome {
        Some(Ok(_)) => true,
        Some(Err(e)) => e == SessionError::Parse,
        None => false,
    }
}

/// Frames read from an open connection never surface as a transport error
/// and never as the end of the stream: every outcome of events that are text
/// or other frames is a decoded message or a parse error.
pub proof fn frames_give_messages(events: Seq<InboundView>)
    requires
        forall|i: int| 0 <= i < events.len() ==> !(#[trigger] events[i]).is_terminal(),
    ensures
        outcomes(events).len() <= events.len(),
        forall|k: int|
            0 <= k < outcomes(events).len() ==> from_text_frame(#[trigger] outcomes(events)[k]),
    decreases events.len(),
{
    if events.len() > 0 {
        let rest = events.drop_first();
        assert forall|i: int| 0 <= i < rest.len() implies !(#[trigger] rest[i]).is_terminal() by {
            assert(rest[i] == events[i + 1]);
        }
        frames_give_messages(rest);
        assert(!events[0].is_terminal());
    }
}

/// The outcomes of a run of frames followed by a clean close are the outcomes
/// of the frames followed by the end of the stream.
pub proof fn outcomes_of_clean_close(events: Seq<InboundView>)
    ensures
        outcomes(events.push(InboundView::End)) == outcomes(events).push(None),
{
    outcomes_of_concatenation(events, seq![InboundView::End]);
    assert(events.push(InboundView::End) =~= events + seq![InboundView::End]);
    assert(outcomes(seq![InboundView::End]) =~= seq![None]) by {
        reveal_with_fuel(outcomes, 2);
    }
    assert(outcomes(events) + seq![None::<Result<ServerMsgView, SessionError>>] =~= outcomes(
        events,
    ).push(None));
}

/// The end of the stream is only ever reported on a closed session.
pub proof fn end_of_stream_means_closed(s: SessionView)
    requires
        s.inv(),
        s.next_msg().1 == PolledView::Ready(None),
    ensures
        s.next_msg().0.state is Closed,
        s.next_msg().0.next_msg().1 == PolledView::Ready(None) || s.next_msg().0.inbox.len() > 0,
    decreases s.inbox.len(),
{
    if s.inbox.len() > 0 {
        let rest = SessionView { inbox: s.inbox.drop_first(), ..s };
        assert forall|i: int| 0 <= i < rest.inbox.len() implies rest.inbox[i] == s.inbox[i + 1] by {}
        match s.inbox[0] {
            InboundView::Other => {
                assert(rest.inv());
                end_of_stream_means_closed(rest);
            },
            InboundView::End => {
                assert(s.inbox[0].is_terminal());
            },
            _ => {},
        }
    }
}

/// The session after the transport reported a sequence of events, one call
/// each.
pub open spec fn receive_all(s: SessionView, events: Seq<InboundView>) -> SessionView
    decreases events.len(),
{
    if events.len() == 0 {
        s
    } else {
        receive_all(s, events.drop_last()).receive(events.last())
    }
}

/// Frames taken in on an open connection are buffered in their order and
/// change nothing else.
pub proof fn frames_are_buffered_in_order(s: SessionView, events: Seq<InboundView>)
    requires
        s.accepts_inbound(),
        forall|i: int| 0 <= i < events.len() ==> !(#[trigger] events[i]).is_terminal(),
    ensures
        receive_all(s, events) == (SessionView { inbox: s.inbox + events, ..s }),
    decreases events.len(),
{
    if events.len() == 0 {
        assert(s.inbox + events =~= s.inbox);
    } else {
        let before = events.drop_last();
        assert forall|i: int| 0 <= i < before.len() implies !(#[trigger] before[i]).is_terminal() by {
            assert(before[i] == events[i]);
        }
        frames_are_buffered_in_order(s, before);
        assert(!events.last().is_terminal());
        assert((s.inbox + before).push(events.last()) =~= s.inbox + events);
    }
}

/// A clean close by the peer ends the stream and is no error: where an open
/// session takes in any run of frames and then the peer's close, the session
/// is closed, and the requests for the next message deliver what was buffered
/// and what the frames hold, none of it a transport error, and then the end
/// of the stream.
pub proof fn clean_close_ends_stream(s: SessionView, events: Seq<InboundView>)
    requires
        s.inv(),
        s.accepts_inbound(),
        forall|i: int| 0 <= i < events.len() ==> !(#[trigger] events[i]).is_terminal(),
    ensures
        receive_all(s, events.push(InboundView::End)).state is Closed,
        receive_all(s, events.push(InboundView::End)).outbound == s.outbound,
        receive_all(s, events.push(InboundView::End)).inbox == (s.inbox + events).push(
            InboundView::End,
        ),
        outcomes(receive_all(s, events.push(InboundView::End)).inbox) == outcomes(
            s.inbox + events,
        ).push(None),
        forall|k: int|
            0 <= k < outcomes(s.inbox + events).len() ==> from_text_frame(
                #[trigger] outcomes(s.inbox + events)[k],
            ),
{
    let all = events.push(InboundView::End);
    assert(all.drop_last() =~= events);
    frames_are_buffered_in_order(s, events);
    assert(receive_all(s, all) == receive_all(s, events).receive(InboundView::End));
    assert forall|i: int| 0 <= i < (s.inbox + events).len() implies !(#[trigger] (s.inbox
        + events)[i]).is_terminal() by {
        if i < s.inbox.len() {
            assert((s.inbox + events)[i] == s.inbox[i]);
        } else {
            assert((s.inbox + events)[i] == events[i - s.inbox.len()]);
        }
    }
    frames_give_messages(s.inbox + events);
    outcomes_of_clean_close(s.inbox + events);
}

/// A stop followed by draining ends cleanly: where a streaming session asks
/// the service to finish, and the service answers with any run of frames and
/// then closes, the stop message is the last frame handed out, the session
/// ends up closed and not open, and the requests for the next message deliver
/// the messages the frames hold and then the end of the stream.
pub proof fn stop_then_drain_terminates(s: SessionView, events: Seq<InboundView>)
    requires
        s.inv(),
        s.state is Streaming,
        forall|i: int| 0 <= i < events.len() ==> !(#[trigger] events[i]).is_terminal(),
    ensures
        s.stop_result() == Ok::<FrameView, SessionError>(FrameView::Text(stop_text())),
        s.stop().state is Stopping,
        s.stop().outbound == s.outbound.push(FrameView::Text(stop_text())),
        receive_all(s.stop(), events.push(InboundView::End)).state is Closed,
        receive_all(s.stop(), events.push(InboundView::End)).outbound == s.stop().outbound,
        outcomes(receive_all(s.stop(), events.push(InboundView::End)).inbox) == outcomes(
            s.inbox + events,
        ).push(None),
        forall|k: int|
            0 <= k < outcomes(s.inbox + events).len() ==> from_text_frame(
                #[trigger] outcomes(s.inbox + events)[k],
            ),
{
    clean_close_ends_stream(s.stop(), events);
}

} // verus!
