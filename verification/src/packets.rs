//! How audio is sent to the server.
use std::collections::VecDeque;

use vstd::prelude::*;
use vstd::slice::{slice_subrange, slice_to_vec};

use crate::control::SendOutcome;
use crate::relay::{advance, items_left, next_step, Step};

verus! {

/// The largest number of bytes of audio that one message carries.
pub const CHUNK_SIZE: usize = 8000;

/// The text that ends a transcription session.
pub const END_OF_STREAM: &'static str = "{\"eof\": 1}";

/// A message to the server.
#[derive(Debug, PartialEq, Eq)]
pub enum Message {
    Text(String),
    Binary(Vec<u8>),
}

/// A message to the server, as a mathematical value.
#[verifier::ext_equal]
pub enum MessageView {
    Text(Seq<char>),
    Binary(Seq<u8>),
}

impl View for Message {
    type V = MessageView;

    open spec fn view(&self) -> MessageView {
        match self {
            Message::Text(text) => MessageView::Text(text@),
            Message::Binary(data) => MessageView::Binary(data@),
        }
    }
}

/// The messages of a sequence, as mathematical values.
pub open spec fn message_views(messages: Seq<Message>) -> Seq<MessageView> {
    messages.map_values(|m: Message| m@)
}

/// An incoming audio buffer.
pub struct AudioBuffer<'a> {
    /// The running time of the buffer, where it has one.
    pub running_time: Option<u64>,
    /// The samples.
    pub data: &'a [u8],
}

/// What is done with an audio buffer: wait for `delay`, where there is one, and
/// send the messages in order.
pub struct SendPlan {
    pub delay: Option<u64>,
    pub messages: VecDeque<Message>,
}

/// What comes next when the messages of a plan are sent.
#[derive(Debug, PartialEq, Eq)]
pub enum SendStep {
    /// Send this message.
    Send(Message),
    /// Send nothing more.
    Finished(SendOutcome),
}

/// The messages that are sent: none where there is no sink to send them to.
pub open spec fn sendable<T>(messages: Seq<T>, has_sink: bool) -> Seq<T> {
    if has_sink {
        messages
    } else {
        Seq::empty()
    }
}

/// How the transmission ends, where every message could be sent or not.
pub open spec fn outcome_of(complete: bool) -> SendOutcome {
    if complete {
        SendOutcome::Sent
    } else {
        SendOutcome::Failed
    }
}

/// What comes next in the transmission.
pub open spec fn send_step(step: Step<Message>) -> SendStep {
    match step {
        Step::Next(message) => SendStep::Send(message),
        Step::Failed => SendStep::Finished(outcome_of(false)),
        Step::Done => SendStep::Finished(outcome_of(true)),
    }
}

/// How many chunks `len` bytes are cut into.
pub open spec fn chunk_count(len: nat) -> nat {
    ((len + CHUNK_SIZE - 1) / CHUNK_SIZE as int) as nat
}

/// The chunk at `i`: what follows the `i` chunks of full size before it, up to
/// the full size.
pub open spec fn chunk(data: Seq<u8>, i: int) -> Seq<u8> {
    let from = i * CHUNK_SIZE;
    let to = if from + CHUNK_SIZE <= data.len() {
        from + CHUNK_SIZE
    } else {
        data.len() as int
    };
    data.subrange(from, to)
}

/// The bytes cut into chunks.
pub open spec fn chunks(data: Seq<u8>) -> Seq<Seq<u8>> {
    Seq::new(chunk_count(data.len()), |i: int| chunk(data, i))
}

/// The messages that carry a stretch of audio.
pub open spec fn audio_messages(data: Seq<u8>) -> Seq<MessageView> {
    chunks(data).map_values(|c: Seq<u8>| MessageView::Binary(c))
}

/// The messages that are sent for a buffer, or for the end of the stream where
/// there is none.
pub open spec fn messages_for(buffer: Option<AudioBuffer>) -> Seq<MessageView> {
    match buffer {
        Some(buffer) => audio_messages(buffer.data@),
        None => seq![MessageView::Text(END_OF_STREAM@)],
    }
}

/// How long to wait so that a buffer is not sent before its running time: not
/// at all where either time is unknown or `now` is past it.
pub open spec fn send_delay(running_time: Option<u64>, now: Option<u64>) -> Option<u64> {
    match (running_time, now) {
        (Some(time), Some(now)) => if now <= time {
            Some((time - now) as u64)
        } else {
            None
        },
        _ => None,
    }
}

/// Cuts audio into messages.
fn split_audio(data: &[u8]) -> (messages: VecDeque<Message>)
    ensures
        message_views(messages@) == audio_messages(data@),
{
    let mut messages: VecDeque<Message> = VecDeque::new();
    let mut from: usize = 0;
    let ghost mut count: int = 0;
    while from < data.len()
        invariant
            0 <= count,
            from <= data.len(),
            from == count * CHUNK_SIZE || (from == data.len() && from <= count * CHUNK_SIZE < from
                + CHUNK_SIZE),
            messages.len() == count,
            forall|i: int|
                0 <= i < count ==> (#[trigger] messages@[i])@ == MessageView::Binary(
                    chunk(data@, i),
                ),
        decreases data.len() - from,
    {
        let to: usize = if data.len() - from < CHUNK_SIZE {
            data.len()
        } else {
            from + CHUNK_SIZE
        };
        let part: Vec<u8> = slice_to_vec(slice_subrange(data, from, to));
        assert(part@ =~= chunk(data@, count));
        messages.push_back(Message::Binary(part));
        from = to;
        proof {
            count = count + 1;
        }
    }
    assert(count == chunk_count(data@.len()));
    assert(message_views(messages@) =~= audio_messages(data@));
    messages
}

/// Plans the transmission of an audio buffer, or of the end of the stream where
/// there is none, at the running time `now`.
pub fn sync_and_send(buffer: Option<AudioBuffer>, now: Option<u64>) -> (plan: SendPlan)
    ensures
        message_views(plan.messages@) == messages_for(buffer),
        plan.delay == (match buffer {
            Some(buffer) => send_delay(buffer.running_time, now),
            None => None,
        }),
{
    match buffer {
        Some(buffer) => {
            let delay: Option<u64> = match (buffer.running_time, now) {
                (Some(time), Some(now)) => time.checked_sub(now),
                _ => None,
            };
            SendPlan { delay, messages: split_audio(buffer.data) }
        },
        None => {
            let mut messages: VecDeque<Message> = VecDeque::new();
            messages.push_back(Message::Text(END_OF_STREAM.to_owned()));
            assert(message_views(messages@) =~= seq![MessageView::Text(END_OF_STREAM@)]);
            SendPlan { delay: None, messages }
        },
    }
}

/// Hands out the next message of a plan. `sent` says whether the message before
/// could be sent, or there was none: behind one that could not be, nothing more
/// is handed out. Where there is no sink nothing is sent, and nothing fails.
pub fn next_message(plan: &mut SendPlan, has_sink: bool, sent: bool) -> (step: SendStep)
    ensures
        step == send_step(next_step(sendable(old(plan).messages@, has_sink), sent)),
        final(plan).messages@ == items_left(sendable(old(plan).messages@, has_sink), sent),
        final(plan).delay == old(plan).delay,
{
    if !has_sink {
        plan.messages.clear();
    }
    match advance(&mut plan.messages, sent) {
        Step::Next(message) => SendStep::Send(message),
        Step::Failed => SendStep::Finished(SendOutcome::Failed),
        Step::Done => SendStep::Finished(SendOutcome::Sent),
    }
}

} // verus!
