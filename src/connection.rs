use vstd::prelude::*;

use crate::error::{NetworkError, ProtocolError, RuleError};
use crate::message::{
    frame_bytes, is_known_type, lemma_frame_then, validate_packet_length, MAX_PAYLOAD,
};
use crate::message_from_client::{client_decode, ClientMessageView, MessageFromClient};
use crate::util::be16;
use crate::validator::validate_spec;

verus! {

/// What handling one whole frame of the receive buffer gives.
#[derive(Debug)]
pub enum FrameEvent {
    /// The frame decoded to a message for the handler.
    Message(MessageFromClient),
    /// The frame did not decode; it has been consumed and the connection goes
    /// on with the next one.
    Malformed(NetworkError),
    /// The frame's type is unknown; the connection must close.
    Fatal(RuleError),
}

/// The value of a [`FrameEvent`].
pub enum EventView {
    Message(ClientMessageView),
    Malformed(NetworkError),
    Fatal(RuleError),
}

impl View for FrameEvent {
    type V = EventView;

    open spec fn view(&self) -> EventView {
        match self {
            FrameEvent::Message(m) => EventView::Message(m@),
            FrameEvent::Malformed(e) => EventView::Malformed(*e),
            FrameEvent::Fatal(e) => EventView::Fatal(*e),
        }
    }
}

/// The event that the outcome of decoding a frame gives.
pub open spec fn event_of(r: Result<ClientMessageView, ProtocolError>) -> EventView {
    match r {
        Ok(m) => EventView::Message(m),
        Err(ProtocolError::Network(e)) => EventView::Malformed(e),
        Err(ProtocolError::Rule(e)) => EventView::Fatal(e),
    }
}

/// The length of the whole frame at the front of `b`, length prefix
/// included, if all of it is there.
pub open spec fn frame_end(b: Seq<u8>) -> Option<int> {
    if b.len() >= 2 && b.len() - 2 >= be16(b[0], b[1]) {
        Some(2 + be16(b[0], b[1]))
    } else {
        None
    }
}

/// The event of the whole frame that ends at `end`.
pub open spec fn frame_event(b: Seq<u8>, end: int) -> EventView {
    event_of(client_decode(b.subrange(2, end)))
}

/// What draining a receive buffer gives: the events of its whole frames in
/// order, up to and including the first fatal one; the bytes left; and
/// whether a fatal event closed the connection.
pub struct Drained {
    pub events: Seq<EventView>,
    pub rest: Seq<u8>,
    pub closed: bool,
}

/// Drains every whole frame at the front of `b`, stopping after a fatal one.
pub open spec fn drain_events(b: Seq<u8>) -> Drained
    decreases b.len(),
{
    match frame_end(b) {
        None => Drained { events: seq![], rest: b, closed: false },
        Some(end) => {
            let ev = frame_event(b, end);
            if ev is Fatal {
                Drained { events: seq![ev], rest: b.skip(end), closed: true }
            } else {
                let d = drain_events(b.skip(end));
                Drained { events: seq![ev] + d.events, rest: d.rest, closed: d.closed }
            }
        },
    }
}

/// The state of a connection: the bytes received and not yet framed, and
/// whether a fatal frame has closed it.
pub struct ConnectionView {
    pub buffer: Seq<u8>,
    pub closed: bool,
}

/// What one step of the reassembly loop does: `None` when the connection is
/// closed or no whole frame is buffered; otherwise the event of the first
/// frame and the state after it has been drained.
pub open spec fn step_spec(c: ConnectionView) -> Option<(EventView, ConnectionView)> {
    if c.closed {
        None
    } else {
        match frame_end(c.buffer) {
            None => None,
            Some(end) => {
                let ev = frame_event(c.buffer, end);
                Some((ev, ConnectionView { buffer: c.buffer.skip(end), closed: ev is Fatal }))
            },
        }
    }
}

/// What receiving `chunk` does: a closed connection ignores it; an open one
/// appends it to its buffer and drains every whole frame.
pub open spec fn receive_spec(c: ConnectionView, chunk: Seq<u8>) -> (Seq<EventView>, ConnectionView) {
    if c.closed {
        (seq![], c)
    } else {
        let d = drain_events(c.buffer + chunk);
        (d.events, ConnectionView { buffer: d.rest, closed: d.closed })
    }
}

/// The events of a vector of them.
pub open spec fn events_view(v: Seq<FrameEvent>) -> Seq<EventView> {
    v.map_values(|e: FrameEvent| e@)
}

/// Where the validator finds a whole frame, it leaves the bytes after it.
proof fn lemma_validate_frame_end(b: Seq<u8>)
    requires
        b.len() <= usize::MAX,
    ensures
        validate_spec(b) is Ok <==> frame_end(b) is Some,
        validate_spec(b) matches Ok(rest) ==> frame_end(b) == Some(b.len() - rest),
{
}

/// A whole frame at the front of `x` stays whole, and the same, whatever
/// follows it.
proof fn lemma_frame_end_extends(x: Seq<u8>, y: Seq<u8>)
    requires
        frame_end(x) is Some,
    ensures
        frame_end(x + y) == frame_end(x),
        frame_event(x + y, frame_end(x)->0) == frame_event(x, frame_end(x)->0),
        (x + y).skip(frame_end(x)->0) == x.skip(frame_end(x)->0) + y,
{
    let end = frame_end(x)->0;
    assert((x + y)[0] == x[0] && (x + y)[1] == x[1]);
    assert((x + y).subrange(2, end) =~= x.subrange(2, end));
    assert((x + y).skip(end) =~= x.skip(end) + y);
}

/// Draining `x` and then what is left of it followed by `y` gives what
/// draining `x + y` at once gives; once a fatal frame closes the connection,
/// nothing after it is drained.
pub proof fn lemma_drain_concat(x: Seq<u8>, y: Seq<u8>)
    ensures
        drain_events(x).closed ==> drain_events(x + y) == (Drained {
            events: drain_events(x).events,
            rest: drain_events(x).rest + y,
            closed: true,
        }),
        !drain_events(x).closed ==> drain_events(x + y) == (Drained {
            events: drain_events(x).events + drain_events(drain_events(x).rest + y).events,
            rest: drain_events(drain_events(x).rest + y).rest,
            closed: drain_events(drain_events(x).rest + y).closed,
        }),
    decreases x.len(),
{
    match frame_end(x) {
        None => {
            assert(drain_events(x).events + drain_events(x + y).events =~= drain_events(
                x + y,
            ).events);
        },
        Some(end) => {
            lemma_frame_end_extends(x, y);
            let ev = frame_event(x, end);
            if ev is Fatal {
            } else {
                lemma_drain_concat(x.skip(end), y);
                let d = drain_events(x.skip(end));
                if !d.closed {
                    assert(seq![ev] + (d.events + drain_events(d.rest + y).events) =~= (seq![ev]
                        + d.events) + drain_events(d.rest + y).events);
                }
            }
        },
    }
}

/// Receiving bytes in two pieces gives the same events, in the same order,
/// as receiving them at once, and leaves the connection in the same state,
/// but for the bytes that a closed connection ignores.
pub proof fn lemma_receive_split(c: ConnectionView, x: Seq<u8>, y: Seq<u8>)
    ensures
        ({
            let (e1, c1) = receive_spec(c, x);
            let (e2, c2) = receive_spec(c1, y);
            let (e, c3) = receive_spec(c, x + y);
            &&& e1 + e2 == e
            &&& c2.closed == c3.closed
            &&& !c3.closed ==> c2 == c3
        }),
{
    if !c.closed {
        lemma_drain_concat(c.buffer + x, y);
        assert(c.buffer + (x + y) =~= c.buffer + x + y);
        let d = drain_events(c.buffer + x);
        if d.closed {
            assert(d.events + seq![] =~= d.events);
        }
    } else {
        assert(seq![] + seq![] =~= Seq::<EventView>::empty());
    }
}

/// No whole frame is buffered while only part of one has arrived.
proof fn lemma_partial_frame_waits(f: Seq<u8>, i: int)
    requires
        frame_end(f) == Some(f.len() as int),
        0 <= i < f.len(),
    ensures
        drain_events(f.take(i)) == (Drained { events: seq![], rest: f.take(i), closed: false }),
{
    let a = f.take(i);
    if a.len() >= 2 {
        assert(a[0] == f[0] && a[1] == f[1]);
    }
}

/// A frame that arrives in up to three pieces, split anywhere, gives exactly
/// one event, the same as when it arrives whole, and leaves the connection
/// in the same state.
pub proof fn lemma_fragmentation(f: Seq<u8>, i: int, j: int)
    requires
        frame_end(f) == Some(f.len() as int),
        0 <= i <= j <= f.len(),
    ensures
        ({
            let start = ConnectionView { buffer: seq![], closed: false };
            let (e1, c1) = receive_spec(start, f.take(i));
            let (e2, c2) = receive_spec(c1, f.subrange(i, j));
            let (e3, c3) = receive_spec(c2, f.skip(j));
            let (e, c) = receive_spec(start, f);
            &&& e.len() == 1
            &&& e1 + e2 + e3 == e
            &&& c3 == c
        }),
{
    let start = ConnectionView { buffer: seq![], closed: false };
    let x = f.take(i);
    let y = f.subrange(i, j);
    let z = f.skip(j);
    assert(f =~= x + y + z);
    assert(start.buffer + f =~= f);
    let end = f.len() as int;
    assert(f.skip(end) =~= Seq::<u8>::empty());
    assert(drain_events(Seq::<u8>::empty()).events =~= Seq::<EventView>::empty());
    let (e, c) = receive_spec(start, f);
    assert(e.len() == 1);
    assert(c.buffer =~= Seq::<u8>::empty());
    lemma_receive_split(start, x + y, z);
    lemma_receive_split(start, x, y);
    let (e1, c1) = receive_spec(start, x);
    let (e2, c2) = receive_spec(c1, y);
    let (e12, c12) = receive_spec(start, x + y);
    let (e3, c3) = receive_spec(c12, z);
    if i < f.len() {
        assert(start.buffer + x =~= x);
        lemma_partial_frame_waits(f, i);
        if j < f.len() {
            assert(x + y =~= f.take(j));
            assert(start.buffer + (x + y) =~= f.take(j));
            lemma_partial_frame_waits(f, j);
        }
    }
}

/// A frame of unknown type closes the connection: the frames received
/// before it are handled first, it gives a fatal event, and nothing after it
/// is handled.
pub proof fn lemma_unknown_type_closes(
    c: ConnectionView,
    x: Seq<u8>,
    t: u8,
    payload: Seq<u8>,
    y: Seq<u8>,
)
    requires
        !c.closed,
        !is_known_type(t),
        payload.len() <= MAX_PAYLOAD,
        !drain_events(c.buffer + x).closed,
        drain_events(c.buffer + x).rest.len() == 0,
    ensures
        ({
            let (e, c2) = receive_spec(c, x + frame_bytes(t, payload) + y);
            &&& e == drain_events(c.buffer + x).events.push(
                EventView::Fatal(RuleError::InvalidPacketType(t as usize)),
            )
            &&& c2.closed
        }),
{
    let f = frame_bytes(t, payload);
    let d = drain_events(c.buffer + x);
    lemma_drain_concat(c.buffer + x, f + y);
    assert(c.buffer + (x + f + y) =~= (c.buffer + x) + (f + y));
    assert(d.rest + (f + y) =~= f + y);
    lemma_frame_then(t, payload, y);
    let end = payload.len() + 3 as int;
    assert(frame_end(f + y) == Some(end));
    assert((f + y).subrange(2, end) == seq![t] + payload);
    assert((seq![t] + payload)[0] == t);
    assert(drain_events(f + y).events =~= seq![
        EventView::Fatal(RuleError::InvalidPacketType(t as usize)),
    ]);
}

/// The receive buffer of one connection, and the decisions of its
/// reassembly loop: bytes are appended as they arrive, and whole frames are
/// drained from the front and decoded in arrival order.
pub struct Connection {
    buffer: Vec<u8>,
    closed: bool,
}

impl View for Connection {
    type V = ConnectionView;

    closed spec fn view(&self) -> ConnectionView {
        ConnectionView { buffer: self.buffer@, closed: self.closed }
    }
}

impl Connection {
    /// An open connection with nothing received.
    pub fn new() -> (r: Self)
        ensures
            r@ == (ConnectionView { buffer: seq![], closed: false }),
    {
        Connection { buffer: Vec::new(), closed: false }
    }

    /// Whether a fatal frame has closed the connection.
    pub fn is_closed(&self) -> (r: bool)
        ensures
            r == self@.closed,
    {
        self.closed
    }

    /// The bytes received and not yet drained as frames.
    pub fn buffered(&self) -> (r: &[u8])
        ensures
            r@ == self@.buffer,
    {
        self.buffer.as_slice()
    }

    /// Drains and decodes the first whole frame, if the connection is open
    /// and one is buffered.
    pub fn next_event(&mut self) -> (r: Option<FrameEvent>)
        ensures
            match r {
                None => step_spec(old(self)@) is None && final(self)@ == old(self)@,
                Some(e) => step_spec(old(self)@) == Some((e@, final(self)@)),
            },
    {
        if self.closed {
            return None;
        }
        let n = self.buffer.len();
        proof {
            lemma_validate_frame_end(self.buffer@);
        }
        let remaining = match validate_packet_length(self.buffer.as_slice()) {
            Ok(r) => r,
            Err(_) => return None,
        };
        let ghost old_buffer = self@.buffer;
        let end = n - remaining;
        let mut frame = self.buffer.split_off(0);
        let rest = frame.split_off(end);
        self.buffer = rest;
        let message_bytes = vstd::slice::slice_subrange(frame.as_slice(), 2, frame.len());
        assert(message_bytes@ =~= old_buffer.subrange(2, end as int));
        assert(self.buffer@ =~= old_buffer.skip(end as int));
        let event = match MessageFromClient::new(message_bytes) {
            Ok(m) => FrameEvent::Message(m),
            Err(ProtocolError::Network(e)) => FrameEvent::Malformed(e),
            Err(ProtocolError::Rule(e)) => {
                self.closed = true;
                FrameEvent::Fatal(e)
            },
        };
        assert(event@ == frame_event(old_buffer, end as int));
        Some(event)
    }

    /// Appends `chunk` to the buffer of an open connection and drains every
    /// whole frame, stopping after a fatal one; a closed connection ignores it.
    pub fn receive(&mut self, chunk: &[u8]) -> (r: Vec<FrameEvent>)
        ensures
            (events_view(r@), final(self)@) == receive_spec(old(self)@, chunk@),
    {
        let mut events: Vec<FrameEvent> = Vec::new();
        if self.closed {
            return events;
        }
        let mut more = vstd::slice::slice_to_vec(chunk);
        self.buffer.append(&mut more);
        let ghost whole = drain_events(self@.buffer);
        loop
            invariant
                !self@.closed ==> events_view(events@) + drain_events(self@.buffer).events
                    == whole.events && drain_events(self@.buffer).rest == whole.rest
                    && drain_events(self@.buffer).closed == whole.closed,
                self@.closed ==> events_view(events@) == whole.events && self@.buffer
                    == whole.rest && whole.closed,
            ensures
                events_view(events@) == whole.events,
                self@.buffer == whole.rest,
                self@.closed == whole.closed,
            decreases self@.buffer.len(),
        {
            let ghost before = self@;
            match self.next_event() {
                None => {
                    proof {
                        if !self@.closed {
                            assert(drain_events(self@.buffer).events =~= seq![]);
                            assert(events_view(events@) + seq![] =~= events_view(events@));
                        }
                    }
                    break;
                },
                Some(e) => {
                    let ghost prev = events@;
                    events.push(e);
                    proof {
                        assert(events_view(events@) =~= events_view(prev).push(e@));
                        let d = drain_events(before.buffer);
                        if e@ is Fatal {
                            assert(d.events =~= seq![e@]);
                            assert(events_view(prev) + seq![e@] =~= events_view(prev).push(
                                e@,
                            ));
                        } else {
                            assert(events_view(prev) + d.events =~= events_view(prev).push(e@)
                                + drain_events(self@.buffer).events);
                        }
                    }
                },
            }
        }
        events
    }
}

} // verus!
