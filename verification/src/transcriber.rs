//! The element: its settings, its state, and what it does with them.
use vstd::prelude::*;

use crate::control::{
    first_reception, opening_events, reception_of, sink_action, stream_event_views, ConnectError, Connection, Incoming,
    LatencyReply, PadAction, Query, QueryAction, Reception, Response, SinkAction, SinkEvent,
    StreamEvent, StreamEventView, MEDIA_TYPE, STREAM_ID, TEXT_FORMAT,
};
use crate::schedule::{output_views, Plan};
use crate::settings::{Settings, SettingsView, DEFAULT_SERVER_ADDRESS};
use crate::state::{State, StateView};
use crate::time::{DEFAULT_LATENCY, GRANULARITY, NONE};
use crate::vosk_client::{well_timed, word_views, Configuration, WordInfo};

verus! {

/// The transcription element.
pub struct Transcriber<G, Q, S, A> {
    pub settings: Settings,
    pub state: State<G, Q, S, A>,
}

/// The transcription element as a mathematical value.
#[verifier::ext_equal]
pub struct TranscriberView<G, Q, S, A> {
    pub settings: SettingsView,
    pub state: StateView<G, Q, S, A>,
}

impl<G, Q, S, A> View for Transcriber<G, Q, S, A> {
    type V = TranscriberView<G, Q, S, A>;

    open spec fn view(&self) -> TranscriberView<G, Q, S, A> {
        TranscriberView { settings: self.settings@, state: self.state@ }
    }
}

impl<G, Q, S, A> TranscriberView<G, Q, S, A> {
    /// The element in another state.
    pub open spec fn in_state(self, state: StateView<G, Q, S, A>) -> Self {
        TranscriberView { state, ..self }
    }
}

impl<G, Q, S, A> StateView<G, Q, S, A> {
    /// The events that are still to be sent to open the outgoing stream.
    pub open spec fn pending_events(self) -> Seq<StreamEventView<Q>> {
        if self.send_events {
            opening_events(self.out_position, self.seqnum)
        } else {
            Seq::empty()
        }
    }

    /// The state once the opening events have been sent.
    pub open spec fn opened(self) -> Self {
        StateView { send_events: false, ..self }
    }

    /// The state once a message has reached the streaming task.
    pub open spec fn responded(self, response: Response) -> Self {
        match response {
            Response::Text(Some(transcript)) => self.enqueued(word_views(transcript.result@)),
            _ => self,
        }
    }

    /// The state once an event has reached the sink pad.
    pub open spec fn told(self, event: SinkEvent<G, Q>) -> Self {
        match event {
            SinkEvent::Segment { segment: Some(in_segment), seqnum } => StateView {
                in_segment,
                seqnum,
                ..self
            },
            _ => self,
        }
    }

    /// The state once a connection has been made, from which the task with this
    /// handle receives.
    pub open spec fn connected_by(self, handle: A) -> Self {
        StateView { connected: true, recv_abort_handle: Some(handle), ..self }
    }

    /// The state while the task with this handle sends a buffer.
    pub open spec fn sending_by(self, handle: A) -> Self {
        StateView { send_abort_handle: Some(handle), ..self }
    }

    /// The state while the streaming task is reached over this channel, or not
    /// at all.
    pub open spec fn reached_by(self, sender: Option<S>) -> Self {
        StateView { sender, ..self }
    }

    /// The handles of the tasks that run, the receiving one first.
    pub open spec fn abort_handles(self) -> Seq<A> {
        (match self.recv_abort_handle {
            Some(handle) => seq![handle],
            None => Seq::empty(),
        }) + (match self.send_abort_handle {
            Some(handle) => seq![handle],
            None => Seq::empty(),
        })
    }
}

impl<G, Q: Copy, S, A> Transcriber<G, Q, S, A> {
    /// A new element with default settings, an initial segment and a new
    /// sequence number.
    pub fn new(in_segment: G, seqnum: Q) -> (element: Self)
        ensures
            element.state@ == StateView::<G, Q, S, A>::fresh(in_segment, seqnum),
            element.settings@ == (SettingsView {
                latency: DEFAULT_LATENCY as int,
                server_address: DEFAULT_SERVER_ADDRESS@,
            }),
    {
        Transcriber { settings: Settings::default(), state: State::new(in_segment, seqnum) }
    }

    /// Whether all the times of a round at the running time `now` can be
    /// represented.
    pub fn can_dequeue(&self, now: Option<u64>) -> (fits: bool)
        ensures
            fits == (now matches Some(now) ==> self@.state.round_fits(
                now as int,
                self@.settings.latency,
            )),
    {
        match now {
            Some(now) => self.state.can_dequeue(now, self.settings.latency),
            None => true,
        }
    }

    /// Takes the words that are due out of the queue, and plans what is pushed
    /// for them. Nothing is done while there is no running time.
    pub fn dequeue(&mut self, now: Option<u64>) -> (plan: Option<Plan<Q>>)
        requires
            now matches Some(now) ==> old(self)@.state.round_fits(
                now as int,
                old(self)@.settings.latency,
            ),
        ensures
            match now {
                Some(now) => {
                    let state = old(self)@.state;
                    let latency = old(self)@.settings.latency;
                    &&& final(self)@ == old(self)@.in_state(state.dequeued(now as int, latency))
                    &&& plan matches Some(plan) && {
                        &&& output_views(plan.outputs@) == state.round_outputs(now as int, latency)
                        &&& plan.position == state.round_position(now as int, latency)
                        &&& plan.seqnum == state.seqnum
                    }
                },
                None => plan is None && final(self)@ == old(self)@,
            },
    {
        match now {
            Some(now) => {
                let latency: u64 = self.settings.latency;
                Some(self.state.dequeue(now, latency))
            },
            None => None,
        }
    }

    /// Completes a round that reaches `position`: everything that was planned
    /// has been `pushed`, or something could not be. Returns whether the
    /// streaming task is to be paused.
    pub fn finish_dequeue(&mut self, position: u64, pushed: bool) -> (pause: bool)
        ensures
            pause == !pushed,
            final(self)@ == old(self)@.in_state(
                old(self)@.state.finished(position as int, pushed),
            ),
    {
        if pushed {
            self.state.set_position(position);
        }
        !pushed
    }

    /// Queues the words of a transcript.
    pub fn enqueue(&mut self, transcription: &Vec<WordInfo>)
        requires
            well_timed(word_views(transcription@)),
        ensures
            final(self)@ == old(self)@.in_state(
                old(self)@.state.enqueued(word_views(transcription@)),
            ),
    {
        self.state.enqueue(transcription);
    }

    /// The events that are still to be sent to open the outgoing stream. They
    /// are handed out only once.
    pub fn stream_events(&mut self) -> (events: Vec<StreamEvent<Q>>)
        ensures
            stream_event_views(events@) == old(self)@.state.pending_events(),
            final(self)@ == old(self)@.in_state(old(self)@.state.opened()),
    {
        let mut events: Vec<StreamEvent<Q>> = Vec::new();
        if self.state.send_events {
            let seqnum: Q = self.state.seqnum;
            events.push(StreamEvent::StreamStart { stream_id: STREAM_ID.to_owned(), seqnum });
            events.push(
                StreamEvent::Caps {
                    media_type: MEDIA_TYPE.to_owned(),
                    format: TEXT_FORMAT.to_owned(),
                    seqnum,
                },
            );
            events.push(StreamEvent::Segment { position: self.state.out_position, seqnum });
            self.state.send_events = false;
        }
        assert(stream_event_views(events@) =~= old(self)@.state.pending_events());
        events
    }

    /// Handles what the streaming task got from its channel. Returns whether
    /// the task is to be paused.
    pub fn handle_response(&mut self, response: Response) -> (pause: bool)
        requires
            response matches Response::Text(Some(transcript)) ==> well_timed(
                word_views(transcript.result@),
            ),
        ensures
            pause == (response is Closed),
            final(self)@ == old(self)@.in_state(old(self)@.state.responded(response)),
    {
        match response {
            Response::TimedOut => false,
            Response::Closed => true,
            Response::Text(Some(transcript)) => {
                self.enqueue(&transcript.result);
                false
            },
            Response::Text(None) => false,
            Response::Other => false,
        }
    }

    /// Connects the element to a new streaming task.
    pub fn start_task(&mut self, sender: S)
        ensures
            final(self)@ == old(self)@.in_state(old(self)@.state.reached_by(Some(sender))),
    {
        self.state.sender = Some(sender);
    }

    /// Activates or deactivates the source pad.
    pub fn src_activatemode(&mut self, active: bool) -> (action: PadAction)
        ensures
            active ==> action is StartTask && final(self)@ == old(self)@,
            !active ==> action is StopTask && final(self)@ == old(self)@.in_state(
                old(self)@.state.reached_by(None),
            ),
    {
        if active {
            PadAction::StartTask
        } else {
            self.state.sender = None;
            PadAction::StopTask
        }
    }

    /// What is done about a query on the source pad.
    pub fn src_query(&self, query: Query) -> (action: QueryAction)
        ensures
            action == (match query {
                Query::Latency => QueryAction::AskPeer,
                Query::Position { in_time: true } => if self.state.out_position == NONE {
                    QueryAction::Position(None)
                } else {
                    QueryAction::Position(Some(self.state.out_position))
                },
                Query::Position { in_time: false } => QueryAction::Refuse,
                Query::Other => QueryAction::Forward,
            }),
    {
        match query {
            Query::Latency => QueryAction::AskPeer,
            Query::Position { in_time } => if in_time {
                if self.state.out_position == NONE {
                    QueryAction::Position(None)
                } else {
                    QueryAction::Position(Some(self.state.out_position))
                }
            } else {
                QueryAction::Refuse
            },
            Query::Other => QueryAction::Forward,
        }
    }

    /// Answers a latency query by adding the latency of the element to the
    /// least latency `peer` of the upstream peer; without an answer of the peer
    /// there is none. Buffers are never dropped, so there is no greatest
    /// latency.
    pub fn latency_reply(&self, peer: Option<u64>) -> (reply: Option<LatencyReply>)
        requires
            peer matches Some(min) ==> self@.settings.latency + min <= u64::MAX,
        ensures
            match peer {
                Some(min) => reply matches Some(reply) && reply.live && reply.min
                    == self@.settings.latency + min && reply.max is None,
                None => reply is None,
            },
    {
        match peer {
            Some(min) => Some(
                LatencyReply { live: true, min: self.settings.latency + min, max: None },
            ),
            None => None,
        }
    }

    /// What is done about an event on the sink pad. A segment is remembered,
    /// with its sequence number.
    pub fn sink_event(&mut self, event: SinkEvent<G, Q>) -> (action: SinkAction)
        ensures
            action == sink_action(event),
            final(self)@ == old(self)@.in_state(old(self)@.state.told(event)),
    {
        match event {
            SinkEvent::Eos => SinkAction::SendEos,
            SinkEvent::FlushStart => SinkAction::Flush,
            SinkEvent::FlushStop => SinkAction::Restart,
            SinkEvent::Segment { segment, seqnum } => match segment {
                Some(in_segment) => {
                    self.state.in_segment = in_segment;
                    self.state.seqnum = seqnum;
                    SinkAction::Accept
                },
                None => SinkAction::RefuseFormat,
            },
            SinkEvent::Tag => SinkAction::Accept,
            SinkEvent::Caps => SinkAction::Accept,
            SinkEvent::StreamStart => SinkAction::Accept,
            SinkEvent::Other => SinkAction::Forward,
        }
    }

    /// Completes a flush: the event was forwarded or not, and the streaming
    /// task was stopped or not. Either way the element disconnects. Returns
    /// whether the event was handled, and the handles of the tasks to abort.
    pub fn flush_start(
        &mut self,
        forwarded: bool,
        stopped: bool,
        in_segment: G,
        seqnum: Q,
    ) -> (done: (bool, Vec<A>))
        ensures
            done.0 == (forwarded && stopped),
            done.1@ == old(self)@.state.abort_handles(),
            final(self)@ == old(self)@.in_state(
                StateView::<G, Q, S, A>::fresh(in_segment, seqnum),
            ),
    {
        let handles: Vec<A> = self.disconnect(in_segment, seqnum);
        if stopped {
            (forwarded, handles)
        } else {
            (false, handles)
        }
    }

    /// What has to be done before audio can be sent.
    pub fn ensure_connection(&self) -> (connection: Connection)
        ensures
            if self@.state.connected {
                connection is Ready
            } else if self@.settings.latency <= 2 * GRANULARITY {
                connection == Connection::Refused(ConnectError::LatencyTooLow)
            } else {
                connection matches Connection::Connect(address) && address@
                    == self@.settings.server_address
            },
    {
        if self.state.connected {
            return Connection::Ready;
        }
        if self.settings.latency <= 2 * GRANULARITY {
            return Connection::Refused(ConnectError::LatencyTooLow);
        }
        Connection::Connect(self.settings.server_address.clone())
    }

    /// Records that there is a connection, and the handle of the task that
    /// receives from it.
    pub fn connection_made(&mut self, handle: A)
        ensures
            final(self)@ == old(self)@.in_state(old(self)@.state.connected_by(handle)),
    {
        self.state.recv_abort_handle = Some(handle);
        self.state.connected = true;
    }

    /// Records the handle of the task that sends a buffer.
    pub fn begin_send(&mut self, handle: A)
        ensures
            final(self)@ == old(self)@.in_state(old(self)@.state.sending_by(handle)),
    {
        self.state.send_abort_handle = Some(handle);
    }

    /// What is done first once there is a connection: the server is configured
    /// for the sample rate of the incoming audio.
    pub fn begin_reception<M>(&self, sample_rate: i32) -> (step: Reception<M>)
        ensures
            step == first_reception::<M>(self@.state.sender is Some, sample_rate),
    {
        if self.state.sender.is_some() {
            Reception::ConfigureServer(Configuration::new(sample_rate))
        } else {
            Reception::Stop
        }
    }

    /// What the receiving task does about what it got from the server.
    pub fn receive<M>(&self, incoming: Incoming<M>) -> (step: Reception<M>)
        ensures
            step == reception_of(incoming, self@.state.sender is Some),
    {
        match incoming {
            Incoming::Message(message) => if self.state.sender.is_some() {
                Reception::Deliver(message)
            } else {
                Reception::Stop
            },
            Incoming::Nothing => Reception::Await,
            Incoming::Failed => Reception::Fail,
        }
    }

    /// Forgets the connection and everything that was streamed. Returns the
    /// handles of the tasks to abort, the receiving one first.
    pub fn disconnect(&mut self, in_segment: G, seqnum: Q) -> (handles: Vec<A>)
        ensures
            handles@ == old(self)@.state.abort_handles(),
            final(self)@ == old(self)@.in_state(
                StateView::<G, Q, S, A>::fresh(in_segment, seqnum),
            ),
    {
        let mut handles: Vec<A> = Vec::new();
        if let Some(handle) = self.state.recv_abort_handle.take() {
            handles.push(handle);
        }
        if let Some(handle) = self.state.send_abort_handle.take() {
            handles.push(handle);
        }
        self.state = State::new(in_segment, seqnum);
        assert(handles@ =~= old(self)@.state.abort_handles());
        handles
    }
}

} // verus!
