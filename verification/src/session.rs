//! The session controller: an explicit state machine over the duplex channel.
//!
//! The controller performs no I/O. Each operation that sends hands back the
//! frame to put on the wire, and the embedding code reports what the transport
//! did: that it was established, that the handshake was written, that it
//! failed, and every inbound frame it read.

use std::collections::VecDeque;
use vstd::prelude::*;
use crate::downlink::{decode_text, decoded_view, parse_server_msg};
use crate::guarantees::end_of_stream_means_closed;
use crate::uplink::{
    encode_handshake,
    encode_stop,
    handshake_text,
    pcm16_le,
    pcm16_le_bytes,
    stop_text,
};
use crate::wire::{
    Frame,
    FrameView,
    ServerMsg,
    ServerMsgView,
    SessionError,
    StartCfg,
    StartCfgView,
};

verus! {

/// Where a session stands.
#[derive(Debug, Clone, Copy, PartialEq, Eq, Structural)]
pub enum SessionState {
    /// The transport is being established.
    Connecting,
    /// The transport is up and the handshake is on its way.
    Handshaking,
    /// The handshake was written; audio may be sent.
    Streaming,
    /// The stop message was handed out; the service is finishing.
    Stopping,
    /// The connection is gone. Terminal.
    Closed,
}

/// What the transport's read half reported.
#[derive(Debug, Clone, PartialEq, Eq)]
pub enum Inbound {
    /// A text frame with its payload.
    Text(String),
    /// A frame of any other kind (binary, ping, pong, close).
    Other,
    /// The read failed.
    Failed,
    /// The peer closed the connection cleanly.
    End,
}

/// An inbound event as mathematical data.
pub enum InboundView {
    Text(Seq<char>),
    Other,
    Failed,
    End,
}

impl InboundView {
    /// Whether nothing can follow this event.
    pub open spec fn is_terminal(self) -> bool {
        self is Failed || self is End
    }
}

impl View for Inbound {
    type V = InboundView;

    open spec fn view(&self) -> InboundView {
        match self {
            Inbound::Text(t) => InboundView::Text(t@),
            Inbound::Other => InboundView::Other,
            Inbound::Failed => InboundView::Failed,
            Inbound::End => InboundView::End,
        }
    }
}

/// What asking for the next message gave.
#[derive(Debug, Clone, PartialEq, Eq)]
pub enum Polled {
    /// Nothing is buffered and the connection is still open: read a frame,
    /// hand it in, and ask again.
    Pending,
    /// A message, an error, or `None` for the end of the stream.
    Ready(Option<Result<ServerMsg, SessionError>>),
}

/// A poll result as mathematical data.
pub enum PolledView {
    Pending,
    Ready(Option<Result<ServerMsgView, SessionError>>),
}

impl View for Polled {
    type V = PolledView;

    open spec fn view(&self) -> PolledView {
        match self {
            Polled::Pending => PolledView::Pending,
            Polled::Ready(None) => PolledView::Ready(None),
            Polled::Ready(Some(r)) => PolledView::Ready(Some(decoded_view(*r))),
        }
    }
}

/// The mathematical view of a frame or the error given in its place.
pub open spec fn sent_view(r: Result<Frame, SessionError>) -> Result<FrameView, SessionError> {
    match r {
        Ok(frame) => Ok(frame@),
        Err(e) => Err(e),
    }
}

/// A session as mathematical data: its state, the address of the service, its
/// configuration, every frame handed out for transmission so far, and the
/// inbound events not yet consumed.
#[verifier::ext_equal]
pub struct SessionView {
    pub state: SessionState,
    pub url: Seq<char>,
    pub cfg: StartCfgView,
    pub outbound: Seq<FrameView>,
    pub inbox: Seq<InboundView>,
}

impl SessionView {
    /// A session whose transport is being established.
    pub open spec fn opening(url: Seq<char>, cfg: StartCfgView) -> SessionView {
        SessionView {
            state: SessionState::Connecting,
            url,
            cfg,
            outbound: Seq::empty(),
            inbox: Seq::empty(),
        }
    }

    /// The outbound log has the shape the protocol allows: the handshake
    /// first, then audio frames only, then at most one stop message.
    pub open spec fn outbound_in_order(self) -> bool {
        &&& self.outbound.len() > 0 ==> handshake_text(self.cfg) == Some(self.outbound[0]->Text_0)
            && self.outbound[0] is Text
        &&& forall|i: int|
            1 <= i < self.outbound.len() ==> (#[trigger] self.outbound[i]) is Binary || (i
                == self.outbound.len() - 1 && self.outbound[i] == FrameView::Text(stop_text()))
    }

    /// The outbound log fits the state.
    pub open spec fn outbound_fits_state(self) -> bool {
        match self.state {
            SessionState::Connecting => self.outbound.len() == 0,
            SessionState::Handshaking => self.outbound.len() == 1,
            SessionState::Streaming => self.outbound.len() >= 1 && forall|i: int|
                1 <= i < self.outbound.len() ==> (#[trigger] self.outbound[i]) is Binary,
            SessionState::Stopping => self.outbound.len() >= 2 && self.outbound.last()
                == FrameView::Text(stop_text()),
            SessionState::Closed => true,
        }
    }

    /// Nothing is buffered before the transport is up, and an event after
    /// which nothing can follow is the last one and has closed the session.
    pub open spec fn inbox_in_order(self) -> bool {
        &&& self.state is Connecting ==> self.inbox.len() == 0
        &&& forall|i: int|
            0 <= i < self.inbox.len() && (#[trigger] self.inbox[i]).is_terminal() ==> i
                == self.inbox.len() - 1 && self.state is Closed
    }

    /// The invariant of every session.
    pub open spec fn inv(self) -> bool {
        &&& self.outbound_in_order()
        &&& self.outbound_fits_state()
        &&& self.inbox_in_order()
    }

    /// The session after the transport reported that it is up.
    pub open spec fn established(self) -> SessionView {
        if self.state is Connecting {
            match handshake_text(self.cfg) {
                Some(text) => SessionView {
                    state: SessionState::Handshaking,
                    outbound: seq![FrameView::Text(text)],
                    ..self
                },
                None => SessionView { state: SessionState::Closed, ..self },
            }
        } else {
            self
        }
    }

    /// What `established` hands back: the handshake frame, or why there is
    /// none.
    pub open spec fn established_result(self) -> Result<FrameView, SessionError> {
        if self.state is Connecting {
            match handshake_text(self.cfg) {
                Some(text) => Ok(FrameView::Text(text)),
                None => Err(SessionError::Serialization),
            }
        } else {
            Err(SessionError::State)
        }
    }

    /// The session after the transport reported that the handshake was
    /// written.
    pub open spec fn handshake_sent(self) -> SessionView {
        if self.state is Handshaking {
            SessionView { state: SessionState::Streaming, ..self }
        } else {
            self
        }
    }

    /// The session after the transport failed.
    pub open spec fn transport_failed(self) -> SessionView {
        SessionView { state: SessionState::Closed, ..self }
    }

    /// The error that a failure of the transport amounts to in this state.
    pub open spec fn failure(self) -> SessionError {
        if self.state is Connecting {
            SessionError::Connection
        } else {
            SessionError::Transport
        }
    }

    /// The session after one audio chunk was submitted.
    pub open spec fn send_pcm16(self, samples: Seq<i16>) -> SessionView {
        if self.state is Streaming {
            SessionView {
                outbound: self.outbound.push(FrameView::Binary(pcm16_le(samples))),
                ..self
            }
        } else {
            self
        }
    }

    /// What submitting one audio chunk hands back.
    pub open spec fn send_pcm16_result(self, samples: Seq<i16>) -> Result<FrameView, SessionError> {
        if self.state is Streaming {
            Ok(FrameView::Binary(pcm16_le(samples)))
        } else {
            Err(SessionError::State)
        }
    }

    /// The session after a stop was requested.
    pub open spec fn stop(self) -> SessionView {
        if self.state is Streaming {
            SessionView {
                state: SessionState::Stopping,
                outbound: self.outbound.push(FrameView::Text(stop_text())),
                ..self
            }
        } else {
            self
        }
    }

    /// What requesting a stop hands back.
    pub open spec fn stop_result(self) -> Result<FrameView, SessionError> {
        match self.state {
            SessionState::Streaming => Ok(FrameView::Text(stop_text())),
            SessionState::Closed => Err(SessionError::Transport),
            _ => Err(SessionError::State),
        }
    }

    /// Whether an inbound event is taken in this state: the transport is up
    /// and has not ended.
    pub open spec fn accepts_inbound(self) -> bool {
        !(self.state is Connecting) && !(self.state is Closed)
    }

    /// The session after the transport's read half reported `event`.
    pub open spec fn receive(self, event: InboundView) -> SessionView {
        if self.accepts_inbound() {
            SessionView {
                state: if event.is_terminal() {
                    SessionState::Closed
                } else {
                    self.state
                },
                inbox: self.inbox.push(event),
                ..self
            }
        } else {
            self
        }
    }

    /// The session after the next message was asked for, and what the asking
    /// gave: frames that are not text are passed over; the first other event
    /// is consumed and decides.
    pub open spec fn next_msg(self) -> (SessionView, PolledView)
        decreases self.inbox.len(),
    {
        if self.inbox.len() == 0 {
            (
                self,
                if self.state is Closed {
                    PolledView::Ready(None)
                } else {
                    PolledView::Pending
                },
            )
        } else {
            let rest = SessionView { inbox: self.inbox.drop_first(), ..self };
            match self.inbox[0] {
                InboundView::Other => rest.next_msg(),
                InboundView::Text(text) => (rest, PolledView::Ready(Some(decode_text(text)))),
                InboundView::Failed => (
                    rest,
                    PolledView::Ready(Some(Err(SessionError::Transport))),
                ),
                InboundView::End => (rest, PolledView::Ready(None)),
            }
        }
    }
}

/// The views of buffered inbound events.
pub open spec fn inbound_views(events: Seq<Inbound>) -> Seq<InboundView> {
    events.map_values(|e: Inbound| e@)
}

/// Takes the oldest buffered event, if there is one.
fn take_first(inbox: &mut VecDeque<Inbound>) -> (event: Option<Inbound>)
    ensures
        match event {
            Some(e) => old(inbox).len() > 0 && e@ == inbound_views(old(inbox)@)[0]
                && inbound_views(final(inbox)@) == inbound_views(old(inbox)@).drop_first(),
            None => old(inbox).len() == 0 && final(inbox)@ == old(inbox)@,
        },
{
    let event = inbox.pop_front();
    assert(event is Some ==> inbound_views(inbox@) =~= inbound_views(old(inbox)@).drop_first());
    event
}

/// Buffers an event behind the others.
fn put_last(inbox: &mut VecDeque<Inbound>, event: Inbound)
    ensures
        inbound_views(final(inbox)@) == inbound_views(old(inbox)@).push(event@),
{
    inbox.push_back(event);
    assert(inbound_views(inbox@) =~= inbound_views(old(inbox)@).push(event@));
}

/// The client side of one realtime transcription session.
pub struct RealtimeClient {
    link: Link,
    url: String,
    cfg: StartCfg,
    inbox: VecDeque<Inbound>,
}

/// The state together with the log of what was handed out in it.
struct Link {
    state: SessionState,
    outbound: Ghost<Seq<FrameView>>,
}

impl View for RealtimeClient {
    type V = SessionView;

    closed spec fn view(&self) -> SessionView {
        SessionView {
            state: self.link.state,
            url: self.url@,
            cfg: self.cfg@,
            outbound: self.link.outbound@,
            inbox: inbound_views(self.inbox@),
        }
    }
}

impl RealtimeClient {
    #[verifier::type_invariant]
    spec fn well_formed(self) -> bool {
        self@.inv()
    }

    /// Opens a session with the service at `url` for `cfg`. The transport is
    /// yet to be established: the session starts in `Connecting` with nothing
    /// sent.
    pub fn connect(url: &str, cfg: StartCfg) -> (client: RealtimeClient)
        ensures
            client@ == SessionView::opening(url@, cfg@),
            client@.inv(),
    {
        let client = RealtimeClient {
            link: Link { state: SessionState::Connecting, outbound: Ghost(Seq::empty()) },
            url: String::from_str(url),
            cfg,
            inbox: VecDeque::new(),
        };
        assert(client@.inbox =~= Seq::empty());
        client
    }

    /// The address of the service, as given when the session was opened.
    pub fn url(&self) -> (url: &str)
        ensures
            url@ == self@.url,
    {
        self.url.as_str()
    }

    /// The state the session is in.
    pub fn state(&self) -> (s: SessionState)
        ensures
            s == self@.state,
            self@.inv(),
    {
        proof {
            use_type_invariant(self);
        }
        self.link.state
    }

    /// The transport is up: hands out the handshake frame, which must be the
    /// first frame written.
    ///
    /// In `Connecting` the session moves to `Handshaking`, or to `Closed`
    /// with `SessionError::Serialization` where the configuration cannot be
    /// encoded. In any other state nothing changes and the result is
    /// `SessionError::State`.
    pub fn established(&mut self) -> (r: Result<Frame, SessionError>)
        ensures
            final(self)@ == old(self)@.established(),
            sent_view(r) == old(self)@.established_result(),
            final(self)@.inv(),
    {
        proof {
            use_type_invariant(&*self);
        }
        if self.link.state != SessionState::Connecting {
            return Err(SessionError::State);
        }
        match encode_handshake(&self.cfg) {
            Ok(text) => {
                let ghost log = seq![FrameView::Text(text@)];
                self.link = Link { state: SessionState::Handshaking, outbound: Ghost(log) };
                assert(self@ =~= old(self)@.established());
                Ok(Frame::Text(text))
            },
            Err(e) => {
                self.link = Link { state: SessionState::Closed, outbound: Ghost(Seq::empty()) };
                assert(self@ =~= old(self)@.established());
                Err(e)
            },
        }
    }
    /// The transport reported that the handshake was written: `Handshaking`
    /// becomes `Streaming`. In any other state nothing changes and the result
    /// is `SessionError::State`.
    pub fn handshake_sent(&mut self) -> (r: Result<(), SessionError>)
        ensures
            final(self)@ == old(self)@.handshake_sent(),
            r is Ok <==> old(self)@.state is Handshaking,
            r matches Err(e) ==> e == SessionError::State,
            final(self)@.inv(),
    {
        proof {
            use_type_invariant(&*self);
        }
        if self.link.state != SessionState::Handshaking {
            return Err(SessionError::State);
        }
        self.link = Link { state: SessionState::Streaming, outbound: Ghost(self.link.outbound@) };
        assert(self@ =~= old(self)@.handshake_sent());
        Ok(())
    }

    /// The transport failed while connecting, writing or closing: the session
    /// is `Closed` from here on, whatever state it was in. Events already
    /// buffered stay retrievable.
    ///
    /// Returns the error to surface: `Connection` where the transport was
    /// never established, `Transport` otherwise.
    pub fn transport_failed(&mut self) -> (e: SessionError)
        ensures
            final(self)@ == old(self)@.transport_failed(),
            e == old(self)@.failure(),
            final(self)@.inv(),
    {
        proof {
            use_type_invariant(&*self);
        }
        let e = if self.link.state == SessionState::Connecting {
            SessionError::Connection
        } else {
            SessionError::Transport
        };
        self.link = Link { state: SessionState::Closed, outbound: Ghost(self.link.outbound@) };
        assert(self@ =~= old(self)@.transport_failed());
        e
    }

    /// Submits one audio chunk: hands out exactly one binary frame, which
    /// holds the samples as little-endian bytes in their order.
    ///
    /// Valid in `Streaming` only. In any other state nothing is handed out,
    /// nothing changes, and the result is `SessionError::State`.
    pub fn send_pcm16(&mut self, pcm16: &[i16]) -> (r: Result<Frame, SessionError>)
        ensures
            final(self)@ == old(self)@.send_pcm16(pcm16@),
            sent_view(r) == old(self)@.send_pcm16_result(pcm16@),
            final(self)@.inv(),
    {
        proof {
            use_type_invariant(&*self);
        }
        if self.link.state != SessionState::Streaming {
            return Err(SessionError::State);
        }
        let bytes = pcm16_le_bytes(pcm16);
        let ghost log = self.link.outbound@.push(FrameView::Binary(bytes@));
        self.link = Link { state: SessionState::Streaming, outbound: Ghost(log) };
        assert(self@ =~= old(self)@.send_pcm16(pcm16@));
        Ok(Frame::Binary(bytes))
    }

    /// Asks the service to finish: hands out the stop message and moves
    /// `Streaming` to `Stopping`. The caller goes on asking for messages
    /// until the stream ends.
    ///
    /// On a closed session the result is `SessionError::Transport`; in
    /// `Connecting`, `Handshaking` and `Stopping` it is `SessionError::State`.
    /// In both cases nothing changes.
    pub fn stop(&mut self) -> (r: Result<Frame, SessionError>)
        ensures
            final(self)@ == old(self)@.stop(),
            sent_view(r) == old(self)@.stop_result(),
            final(self)@.inv(),
    {
        proof {
            use_type_invariant(&*self);
        }
        match self.link.state {
            SessionState::Streaming => {
                let text = encode_stop();
                let ghost log = self.link.outbound@.push(FrameView::Text(text@));
                self.link = Link { state: SessionState::Stopping, outbound: Ghost(log) };
                assert(self@ =~= old(self)@.stop());
                Ok(Frame::Text(text))
            },
            SessionState::Closed => Err(SessionError::Transport),
            _ => Err(SessionError::State),
        }
    }

    /// Takes in what the transport's read half reported.
    ///
    /// The event is buffered for `next_msg`. A failed read or a clean close
    /// moves the session to `Closed` at once. Before the transport is up and
    /// after it has ended the event is dropped, and the result is `false`.
    pub fn receive(&mut self, event: Inbound) -> (accepted: bool)
        ensures
            final(self)@ == old(self)@.receive(event@),
            accepted == old(self)@.accepts_inbound(),
            final(self)@.inv(),
    {
        proof {
            use_type_invariant(&*self);
        }
        match self.link.state {
            SessionState::Connecting | SessionState::Closed => {
                return false;
            },
            _ => {},
        }
        let terminal = match event {
            Inbound::Failed | Inbound::End => true,
            _ => false,
        };
        if terminal {
            self.link = Link { state: SessionState::Closed, outbound: Ghost(self.link.outbound@) };
        }
        // The buffer is taken out while it changes, so that the session is
        // well formed at every step.
        let mut inbox: VecDeque<Inbound> = VecDeque::new();
        std::mem::swap(&mut self.inbox, &mut inbox);
        put_last(&mut inbox, event);
        std::mem::swap(&mut self.inbox, &mut inbox);
        assert(self@ =~= old(self)@.receive(event@));
        true
    }

    /// Gives the next message, if the buffered events hold one.
    ///
    /// Frames that are not text are passed over. A text frame gives the
    /// decoded message, or `SessionError::Parse` where it is not one; either
    /// way the session goes on. A failed read gives
    /// `SessionError::Transport`, after which the stream is over. `None` is
    /// the end of the stream. `Pending` says that nothing is buffered while
    /// the connection is open.
    pub fn next_msg(&mut self) -> (r: Polled)
        ensures
            final(self)@ == old(self)@.next_msg().0,
            r@ == old(self)@.next_msg().1,
            r@ == PolledView::Ready(None) ==> final(self)@.state is Closed,
            final(self)@.inv(),
    {
        let ghost start = self@;
        proof {
            use_type_invariant(&*self);
            if start.next_msg().1 == PolledView::Ready(None) {
                end_of_stream_means_closed(start);
            }
        }
        loop
            invariant
                start == old(self)@,
                start.next_msg().1 == PolledView::Ready(None) ==> start.next_msg().0.state is Closed,
                self@.next_msg() == start.next_msg(),
            decreases self@.inbox.len(),
        {
            proof {
                use_type_invariant(&*self);
            }
            let ghost before = self@;
            assert(before.inbox.len() > 0 ==> forall|i: int|
                0 <= i < before.inbox.drop_first().len() ==> before.inbox.drop_first()[i]
                    == before.inbox[i + 1]);
            let mut inbox: VecDeque<Inbound> = VecDeque::new();
            std::mem::swap(&mut self.inbox, &mut inbox);
            let first = take_first(&mut inbox);
            std::mem::swap(&mut self.inbox, &mut inbox);
            let event = match first {
                Some(event) => event,
                None => {
                    assert(self@ =~= before);
                    if self.link.state == SessionState::Closed {
                        return Polled::Ready(None);
                    } else {
                        return Polled::Pending;
                    }
                },
            };
            assert(self@ == SessionView { inbox: before.inbox.drop_first(), ..before });
            match event {
                Inbound::Text(text) => {
                    return Polled::Ready(Some(parse_server_msg(text.as_str())));
                },
                Inbound::Other => {},
                Inbound::Failed => {
                    return Polled::Ready(Some(Err(SessionError::Transport)));
                },
                Inbound::End => {
                    return Polled::Ready(None);
                },
            }
        }
    }
}

} // verus!
