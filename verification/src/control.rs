//! What the element is asked and told, and what it does about it.
use vstd::prelude::*;

use crate::vosk_client::{Configuration, Transcript};

verus! {

/// The stream identifier of the outgoing stream.
pub const STREAM_ID: &'static str = "transcription";

/// The media type of the outgoing stream.
pub const MEDIA_TYPE: &'static str = "text/x-raw";

/// The text format of the outgoing stream.
pub const TEXT_FORMAT: &'static str = "utf8";

/// An event that opens the outgoing stream.
#[derive(Debug, PartialEq, Eq)]
pub enum StreamEvent<Q> {
    /// The stream starts, under an identifier.
    StreamStart { stream_id: String, seqnum: Q },
    /// What the stream holds.
    Caps { media_type: String, format: String, seqnum: Q },
    /// The segment of the stream, which is filled up to `position`.
    Segment { position: u64, seqnum: Q },
}

/// An event that opens the outgoing stream, as a mathematical value.
#[verifier::ext_equal]
pub enum StreamEventView<Q> {
    StreamStart { stream_id: Seq<char>, seqnum: Q },
    Caps { media_type: Seq<char>, format: Seq<char>, seqnum: Q },
    Segment { position: int, seqnum: Q },
}

impl<Q> View for StreamEvent<Q> {
    type V = StreamEventView<Q>;

    open spec fn view(&self) -> StreamEventView<Q> {
        match self {
            StreamEvent::StreamStart { stream_id, seqnum } => StreamEventView::StreamStart {
                stream_id: stream_id@,
                seqnum: *seqnum,
            },
            StreamEvent::Caps { media_type, format, seqnum } => StreamEventView::Caps {
                media_type: media_type@,
                format: format@,
                seqnum: *seqnum,
            },
            StreamEvent::Segment { position, seqnum } => StreamEventView::Segment {
                position: *position as int,
                seqnum: *seqnum,
            },
        }
    }
}

/// The events of a sequence, as mathematical values.
pub open spec fn stream_event_views<Q>(events: Seq<StreamEvent<Q>>) -> Seq<StreamEventView<Q>> {
    events.map_values(|e: StreamEvent<Q>| e@)
}

/// The events that open an outgoing stream, in the order in which they are
/// sent.
pub open spec fn opening_events<Q>(position: int, seqnum: Q) -> Seq<StreamEventView<Q>> {
    seq![
        StreamEventView::StreamStart { stream_id: STREAM_ID@, seqnum },
        StreamEventView::Caps { media_type: MEDIA_TYPE@, format: TEXT_FORMAT@, seqnum },
        StreamEventView::Segment { position, seqnum },
    ]
}

/// What the streaming task got from its channel.
#[derive(Debug, PartialEq, Eq)]
pub enum Response {
    /// Nothing within the time that it waits.
    TimedOut,
    /// The channel is closed.
    Closed,
    /// A text message, with the transcript that it holds where it is final.
    Text(Option<Transcript>),
    /// Any other message.
    Other,
}

/// What the source pad does when it is activated or deactivated.
#[derive(Debug, Clone, Copy, PartialEq, Eq)]
pub enum PadAction {
    StartTask,
    StopTask,
}

/// A query on the source pad.
#[derive(Debug, Clone, Copy, PartialEq, Eq)]
pub enum Query {
    Latency,
    /// The position, `in_time` or in some other unit.
    Position { in_time: bool },
    Other,
}

/// What is done about a query.
#[derive(Debug, Clone, Copy, PartialEq, Eq)]
pub enum QueryAction {
    /// Ask the upstream peer for its latency first.
    AskPeer,
    /// Answer with the stream time of a position, where there is one.
    Position(Option<u64>),
    /// Fail the query.
    Refuse,
    /// Leave it to the default handler.
    Forward,
}

/// The answer to a latency query.
#[derive(Debug, Clone, Copy, PartialEq, Eq)]
pub struct LatencyReply {
    pub live: bool,
    pub min: u64,
    pub max: Option<u64>,
}

/// An event on the sink pad.
pub enum SinkEvent<G, Q> {
    Eos,
    FlushStart,
    FlushStop,
    /// A new segment, where it counts in time, and its sequence number.
    Segment { segment: Option<G>, seqnum: Q },
    Tag,
    Caps,
    StreamStart,
    Other,
}

/// What is done about an event on the sink pad.
#[derive(Debug, Clone, Copy, PartialEq, Eq)]
pub enum SinkAction {
    /// Tell the server that the audio has ended.
    SendEos,
    /// Forward the event, stop the streaming task and disconnect.
    Flush,
    /// Forward the event and start the streaming task.
    Restart,
    /// The event is dealt with.
    Accept,
    /// Report that only segments in time are supported, and fail.
    RefuseFormat,
    /// Leave it to the default handler.
    Forward,
}

/// What is done about an event on the sink pad.
pub open spec fn sink_action<G, Q>(event: SinkEvent<G, Q>) -> SinkAction {
    match event {
        SinkEvent::Eos => SinkAction::SendEos,
        SinkEvent::FlushStart => SinkAction::Flush,
        SinkEvent::FlushStop => SinkAction::Restart,
        SinkEvent::Segment { segment: Some(_), .. } => SinkAction::Accept,
        SinkEvent::Segment { segment: None, .. } => SinkAction::RefuseFormat,
        SinkEvent::Tag => SinkAction::Accept,
        SinkEvent::Caps => SinkAction::Accept,
        SinkEvent::StreamStart => SinkAction::Accept,
        SinkEvent::Other => SinkAction::Forward,
    }
}

/// Whether a flush stop event was handled: it was forwarded and the streaming
/// task started, which is tried only where the event was forwarded.
pub fn flush_stop_result(forwarded: bool, started: bool) -> (handled: bool)
    ensures
        handled == (forwarded && started),
{
    if forwarded {
        started
    } else {
        false
    }
}

/// Why the server is not connected to.
#[derive(Debug, Clone, Copy, PartialEq, Eq)]
pub enum ConnectError {
    LatencyTooLow,
}

impl ConnectError {
    /// The error as a text.
    pub fn message(&self) -> (text: String)
        ensures
            text@ == "latency must be greater than 200 milliseconds"@,
    {
        "latency must be greater than 200 milliseconds".to_owned()
    }
}

/// What has to be done before audio can be sent.
#[derive(Debug, PartialEq, Eq)]
pub enum Connection {
    /// There is a connection.
    Ready,
    /// No connection is possible.
    Refused(ConnectError),
    /// Connect to the server at this address.
    Connect(String),
}

/// How the transmission of a buffer ended.
#[derive(Debug, Clone, Copy, PartialEq, Eq)]
pub enum SendOutcome {
    /// There is no connection, and none could be made.
    Disconnected,
    /// It was aborted before it was complete.
    Aborted,
    /// A message could not be sent.
    Failed,
    /// No message failed: every one was sent, or there is nowhere to send them.
    Sent,
}

/// Why a buffer was not accepted.
#[derive(Debug, Clone, Copy, PartialEq, Eq)]
pub enum FlowError {
    Flushing,
    Error,
}

/// What the sink pad returns for a buffer.
pub open spec fn flow_of(outcome: SendOutcome) -> Result<(), FlowError> {
    match outcome {
        SendOutcome::Disconnected => Err(FlowError::Error),
        SendOutcome::Aborted => Err(FlowError::Flushing),
        SendOutcome::Failed => Err(FlowError::Error),
        SendOutcome::Sent => Ok(()),
    }
}

/// What the sink pad returns for a buffer.
pub fn flow_result(outcome: SendOutcome) -> (flow: Result<(), FlowError>)
    ensures
        flow == flow_of(outcome),
{
    match outcome {
        SendOutcome::Disconnected => Err(FlowError::Error),
        SendOutcome::Aborted => Err(FlowError::Flushing),
        SendOutcome::Failed => Err(FlowError::Error),
        SendOutcome::Sent => Ok(()),
    }
}

/// What the receiving task got from the server.
pub enum Incoming<M> {
    /// A message.
    Message(M),
    /// Nothing.
    Nothing,
    /// The connection failed.
    Failed,
}

/// What the receiving task does next.
pub enum Reception<M> {
    /// Send this configuration to the server, as one binary message.
    ConfigureServer(Configuration),
    /// Wait for the next message of the server.
    Await,
    /// Send this message of the server to the streaming task, on the channel.
    Deliver(M),
    /// Report that streaming failed, and stop.
    Fail,
    /// Stop.
    Stop,
}

/// What is done first once there is a connection: the server is configured,
/// unless there is no channel to the streaming task.
pub open spec fn first_reception<M>(has_channel: bool, sample_rate: i32) -> Reception<M> {
    if has_channel {
        Reception::ConfigureServer(Configuration { sample_rate, words: true })
    } else {
        Reception::Stop
    }
}

/// What is done about what came from the server.
pub open spec fn reception_of<M>(incoming: Incoming<M>, has_channel: bool) -> Reception<M> {
    match incoming {
        Incoming::Message(message) => if has_channel {
            Reception::Deliver(message)
        } else {
            Reception::Stop
        },
        Incoming::Nothing => Reception::Await,
        Incoming::Failed => Reception::Fail,
    }
}

/// What is done once the configuration or a message could be sent or not.
pub open spec fn reception_after<M>(delivered: bool) -> Reception<M> {
    if delivered {
        Reception::Await
    } else {
        Reception::Stop
    }
}

/// What is done once the configuration or a message could be sent or not.
pub fn after_delivery<M>(delivered: bool) -> (step: Reception<M>)
    ensures
        step == reception_after::<M>(delivered),
{
    if delivered {
        Reception::Await
    } else {
        Reception::Stop
    }
}

/// A change of the state of the element.
#[derive(Debug, Clone, Copy, PartialEq, Eq)]
pub enum StateChange {
    NullToReady,
    ReadyToPaused,
    PausedToPlaying,
    PlayingToPaused,
    PausedToReady,
    ReadyToNull,
    /// A change from a state to itself.
    Unchanged,
}

/// How a change of state succeeded.
#[derive(Debug, Clone, Copy, PartialEq, Eq)]
pub enum StateChangeSuccess {
    Success,
    Async,
    /// The element is live and has no buffers before it plays.
    NoPreroll,
}

/// A change of state failed.
#[derive(Debug, Clone, Copy, PartialEq, Eq)]
pub struct StateChangeError;

/// What is done about a change of state, and what is reported.
#[derive(Debug, Clone, Copy, PartialEq, Eq)]
pub struct StateChangeOutcome {
    /// Whether the element disconnects from the server.
    pub disconnect: bool,
    pub success: StateChangeSuccess,
}

/// What is reported for a change of state that the base class has carried out
/// with `success`.
pub open spec fn reported_success(
    transition: StateChange,
    success: StateChangeSuccess,
) -> StateChangeSuccess {
    match transition {
        StateChange::ReadyToPaused => StateChangeSuccess::NoPreroll,
        StateChange::PlayingToPaused => StateChangeSuccess::NoPreroll,
        _ => success,
    }
}

/// Completes a change of state that the base class has carried out with the
/// result `parent`. The element is live, so it never prerolls.
pub fn change_state(
    transition: StateChange,
    parent: Result<StateChangeSuccess, StateChangeError>,
) -> (outcome: Result<StateChangeOutcome, StateChangeError>)
    ensures
        outcome == (match parent {
            Ok(success) => Ok::<StateChangeOutcome, StateChangeError>(
                StateChangeOutcome {
                    disconnect: transition is PausedToReady,
                    success: reported_success(transition, success),
                },
            ),
            Err(err) => Err(err),
        }),
{
    match parent {
        Err(err) => Err(err),
        Ok(success) => match transition {
            StateChange::PausedToReady => Ok(StateChangeOutcome { disconnect: true, success }),
            StateChange::ReadyToPaused => Ok(
                StateChangeOutcome { disconnect: false, success: StateChangeSuccess::NoPreroll },
            ),
            StateChange::PlayingToPaused => Ok(
                StateChangeOutcome { disconnect: false, success: StateChangeSuccess::NoPreroll },
            ),
            _ => Ok(StateChangeOutcome { disconnect: false, success }),
        },
    }
}

} // verus!
