//! What each operation owes its caller, in terms of what it is given and what
//! it gives back.
//!
//! A statement here about an operation starts from `call_ensures`: it holds of
//! whatever the operation gives back for the arguments named there.
use std::collections::VecDeque;

use vstd::math::max;
use vstd::prelude::*;
use vstd::utf8::encode_utf8;

use crate::control::{
    after_delivery, change_state, flow_result, flush_stop_result, stream_event_views, ConnectError,
    Connection, FlowError, Incoming, LatencyReply, PadAction, Query, QueryAction, Reception,
    Response, SendOutcome, SinkAction, SinkEvent, StateChange, StateChangeError,
    StateChangeOutcome, StateChangeSuccess, StreamEvent,
};
use crate::laws::{
    fills, law_end_of_stream_is_told, law_messages_join_to_the_audio,
    law_queued_words_are_in_time, law_round_in_full, law_rounds_that_fit, payloads, spaced,
    times_fit, words_of,
};
use crate::packets::{
    message_views, messages_for, next_message, sync_and_send, AudioBuffer, Message, MessageView,
    SendPlan, SendStep,
};
use crate::relay::{advance, Step};
use crate::schedule::{next_output, output_views, Output, OutputView, Plan};
use crate::settings::{Property, PropertyId, Settings};
use crate::state::{Buffer, State, StateView};
use crate::transcriber::{Transcriber, TranscriberView};
use crate::vosk_client::{is_well_timed, word_views, Configuration, WordInfo};

verus! {

/// What is stated of a value as a mathematical one is stated of every field of
/// it, as it is.
pub proof fn law_nothing_is_hidden<G, Q, S, A>(
    word: WordInfo,
    buffer: Buffer,
    output: Output,
    message: Message,
    settings: Settings,
    element: Transcriber<G, Q, S, A>,
)
    ensures
        word@.word == word.word@ && word@.start == word.start && word@.end == word.end,
        buffer@.data == buffer.data@ && buffer@.discont == buffer.discont && buffer@.pts
            == buffer.pts && buffer@.duration == buffer.duration,
        output matches Output::Gap { start, duration } ==> output@ == (OutputView::Gap {
            start: start as int,
            duration: duration as int,
        }),
        output matches Output::Buffer(buffer) ==> output@ == OutputView::Buffer(buffer@),
        message matches Message::Text(text) ==> message@ == MessageView::Text(text@),
        message matches Message::Binary(data) ==> message@ == MessageView::Binary(data@),
        settings@.latency == settings.latency && settings@.server_address
            == settings.server_address@,
        element@.settings == element.settings@ && element@.state == element.state@,
        ({
            let state = element.state;
            &&& state@.connected == state.connected
            &&& state@.buffers.len() == state.buffers@.len()
            &&& forall|i: int|
                0 <= i < state.buffers@.len() ==> state@.buffers[i] == (
                #[trigger] state.buffers@[i])@
            &&& state@.start_time is Some <==> state.start_time is Some
            &&& state.start_time is Some ==> state@.start_time->0 == state.start_time->0
            &&& state@.send_events == state.send_events
            &&& state@.send_discontinuity == state.send_discontinuity
            &&& state@.in_segment == state.in_segment
            &&& state@.seqnum == state.seqnum
            &&& state@.out_position == state.out_position
            &&& state@.sender == state.sender
            &&& state@.recv_abort_handle == state.recv_abort_handle
            &&& state@.send_abort_handle == state.send_abort_handle
        }),
{
}

/// A new element allows five seconds, and looks for the server on the same
/// machine.
pub proof fn law_default_settings(settings: Settings)
    requires
        call_ensures(<Settings as Default>::default, (), settings),
    ensures
        settings.latency == 5_000_000_000,
        settings.server_address@ == "ws://localhost:2700"@,
{
}

/// Setting the latency, in milliseconds, sets it to that many million
/// nanoseconds and leaves the address of the server alone.
pub proof fn law_latency_is_set(settings: &mut Settings, ms: u32)
    requires
        call_ensures(Settings::set_property, (settings, Property::Latency(ms)), ()),
    ensures
        final(settings).latency == ms * 1_000_000,
        final(settings).server_address@ == old(settings).server_address@,
{
}

/// Setting the address of the server sets it and leaves the latency alone.
pub proof fn law_server_address_is_set(settings: &mut Settings, address: String)
    requires
        call_ensures(Settings::set_property, (settings, Property::ServerAddress(address)), ()),
    ensures
        final(settings).server_address@ == address@,
        final(settings).latency == old(settings).latency,
{
}

/// The property that is asked for is the one that is read: the latency in whole
/// milliseconds, as far as 32 bits hold them, or the address of the server.
pub proof fn law_properties_are_read(settings: &Settings, id: PropertyId, property: Property)
    requires
        call_ensures(Settings::property, (settings, id), property),
    ensures
        match id {
            PropertyId::Latency => property matches Property::Latency(ms) && ms == (settings.latency
                as int / 1_000_000) % 0x1_0000_0000,
            PropertyId::ServerAddress => property matches Property::ServerAddress(address)
                && address@ == settings.server_address@,
        },
{
}

/// Whatever latency is set is read back, for every value that can be set.
pub proof fn law_set_latency_is_read_back(
    settings: &mut Settings,
    ms: u32,
    after: &Settings,
    property: Property,
)
    requires
        call_ensures(Settings::set_property, (settings, Property::Latency(ms)), ()),
        *after == *final(settings),
        call_ensures(Settings::property, (after, PropertyId::Latency), property),
    ensures
        property == Property::Latency(ms),
{
}

/// There are two properties, each under its own name; any other name stands for
/// none.
pub proof fn law_properties_have_names(name: &str, id: Option<PropertyId>)
    requires
        call_ensures(PropertyId::from_name, (name,), id),
    ensures
        id == Some(PropertyId::Latency) <==> name@ == "latency"@,
        id == Some(PropertyId::ServerAddress) <==> name@ == "server-address"@,
{
    reveal_strlit("latency");
    reveal_strlit("server-address");
    assert("latency"@.len() != "server-address"@.len());
}

/// The server is asked for the sample rate it is given, and for the times of
/// the words.
pub proof fn law_configuration_carries_the_rate(sample_rate: i32, config: Configuration)
    requires
        call_ensures(Configuration::new, (sample_rate,), config),
    ensures
        config.sample_rate == sample_rate,
        config.words,
{
}

/// Words are found to be well timed exactly if each one starts no later than it
/// ends.
pub proof fn law_ill_timed_words_are_found(words: &Vec<WordInfo>, ok: bool)
    requires
        call_ensures(is_well_timed, (words,), ok),
    ensures
        ok <==> (forall|i: int|
            0 <= i < words@.len() ==> (#[trigger] words@[i]).start <= words@[i].end),
{
    if ok {
        assert forall|i: int| 0 <= i < words@.len() implies (#[trigger] words@[i]).start
            <= words@[i].end by {
            assert(word_views(words@)[i] == words@[i]@);
        }
    } else {
        let i = choose|i: int|
            0 <= i < word_views(words@).len() && (#[trigger] word_views(words@)[i]).start
                > word_views(words@)[i].end;
        assert(word_views(words@)[i] == words@[i]@);
    }
}

/// The first item is handed out exactly if there is one and the item before was
/// accepted, and the others are left. A failure is reported exactly if the item
/// before was not accepted, and success exactly if it was and no item is left;
/// then none is left.
pub proof fn law_items_are_handed_out<T>(
    items: &mut VecDeque<T>,
    accepted: bool,
    step: Step<T>,
)
    requires
        call_ensures(advance::<T>, (items, accepted), step),
    ensures
        accepted && old(items)@.len() > 0 ==> {
            &&& step == Step::Next(old(items)@[0])
            &&& final(items)@ == old(items)@.subrange(1, old(items)@.len() as int)
        },
        step is Next <==> accepted && old(items)@.len() > 0,
        step is Failed <==> !accepted,
        step is Done <==> accepted && old(items)@.len() == 0,
        !(step is Next) ==> final(items)@.len() == 0,
{
}

/// The first output of a plan, whatever it is, is handed out exactly if there is
/// one and the output before could be pushed, and the others are left. A failure
/// is reported exactly if the output before could not be pushed, and success
/// exactly if it could and no output is left. The plan reaches where it did
/// before.
pub proof fn law_outputs_are_handed_out<Q>(plan: &mut Plan<Q>, pushed: bool, step: Step<Output>)
    requires
        call_ensures(next_output::<Q>, (plan, pushed), step),
    ensures
        pushed && old(plan).outputs@.len() > 0 ==> {
            &&& step == Step::Next(old(plan).outputs@[0])
            &&& final(plan).outputs@ == old(plan).outputs@.subrange(
                1,
                old(plan).outputs@.len() as int,
            )
        },
        step is Next <==> pushed && old(plan).outputs@.len() > 0,
        step is Failed <==> !pushed,
        step is Done <==> pushed && old(plan).outputs@.len() == 0,
        !(step is Next) ==> final(plan).outputs@.len() == 0,
        final(plan).position == old(plan).position,
        final(plan).seqnum == old(plan).seqnum,
{
}

/// The first message of a plan, whatever it is, is sent exactly if there is one,
/// a sink to send it to, and the message before was sent, and the others are
/// left. Success is reported exactly if the message before was sent and no
/// message can be sent any more, and a failure exactly if it was not sent.
pub proof fn law_messages_are_handed_out(
    plan: &mut SendPlan,
    has_sink: bool,
    sent: bool,
    step: SendStep,
)
    requires
        call_ensures(next_message, (plan, has_sink, sent), step),
    ensures
        sent && has_sink && old(plan).messages@.len() > 0 ==> {
            &&& step == SendStep::Send(old(plan).messages@[0])
            &&& final(plan).messages@ == old(plan).messages@.subrange(
                1,
                old(plan).messages@.len() as int,
            )
        },
        step is Send <==> sent && has_sink && old(plan).messages@.len() > 0,
        step == SendStep::Finished(SendOutcome::Failed) <==> !sent,
        step == SendStep::Finished(SendOutcome::Sent) <==> sent && (!has_sink || old(
            plan,
        ).messages@.len() == 0),
        !(step is Send) ==> final(plan).messages@.len() == 0,
        final(plan).delay == old(plan).delay,
{
}

/// The messages that are planned for a buffer carry exactly its data, one after
/// the other: all of them are binary, and each carries 8000 bytes, or what is
/// left for the last one. They wait until the running time of the buffer, where
/// it is known and not yet past.
pub proof fn law_buffers_are_sent_whole(buffer: AudioBuffer, now: Option<u64>, plan: SendPlan)
    requires
        call_ensures(sync_and_send, (Some(buffer), now), plan),
    ensures
        payloads(message_views(plan.messages@)).flatten() == buffer.data@,
        forall|i: int|
            0 <= i < plan.messages@.len() ==> {
                &&& (#[trigger] plan.messages@[i]) is Binary
                &&& 0 < plan.messages@[i]->Binary_0@.len() <= 8000
                &&& i + 1 < plan.messages@.len() ==> plan.messages@[i]->Binary_0@.len() == 8000
            },
        plan.delay is Some <==> buffer.running_time is Some && now is Some && now->0
            <= buffer.running_time->0,
        plan.delay is Some ==> now->0 + plan.delay->0 == buffer.running_time->0,
{
    law_messages_join_to_the_audio(buffer);
    assert forall|i: int| 0 <= i < plan.messages@.len() implies {
        &&& (#[trigger] plan.messages@[i]) is Binary
        &&& 0 < plan.messages@[i]->Binary_0@.len() <= 8000
        &&& i + 1 < plan.messages@.len() ==> plan.messages@[i]->Binary_0@.len() == 8000
    } by {
        assert(message_views(plan.messages@)[i] == plan.messages@[i]@);
    }
}

/// At the end of the stream one text is sent, at once, which ends the session.
pub proof fn law_session_is_ended(now: Option<u64>, plan: SendPlan)
    requires
        call_ensures(sync_and_send, (None::<AudioBuffer>, now), plan),
    ensures
        plan.messages@.len() == 1,
        plan.messages@[0] matches Message::Text(text) && text@ == "{\"eof\": 1}"@,
        plan.delay is None,
{
    law_end_of_stream_is_told();
    assert(message_views(plan.messages@) == messages_for(None));
    assert(message_views(plan.messages@).len() == plan.messages@.len());
    assert(message_views(plan.messages@)[0] == plan.messages@[0]@);
}

/// A flush stop event was handled exactly if it was forwarded and the streaming
/// task started.
pub proof fn law_restart_is_reported(forwarded: bool, started: bool, handled: bool)
    requires
        call_ensures(flush_stop_result, (forwarded, started), handled),
    ensures
        handled <==> forwarded && started,
{
}

/// The refusal of a latency names the least one.
pub proof fn law_refusal_is_explained(error: &ConnectError, text: String)
    requires
        call_ensures(ConnectError::message, (error,), text),
    ensures
        text@ == "latency must be greater than 200 milliseconds"@,
{
}

/// A buffer is accepted exactly if its transmission did not fail. It is refused
/// as flushing exactly if the transmission was aborted.
pub proof fn law_flow_follows_the_transmission(
    outcome: SendOutcome,
    flow: Result<(), FlowError>,
)
    requires
        call_ensures(flow_result, (outcome,), flow),
    ensures
        flow is Ok <==> outcome is Sent,
        flow == Err::<(), FlowError>(FlowError::Flushing) <==> outcome is Aborted,
        flow == Err::<(), FlowError>(FlowError::Error) <==> outcome is Disconnected || outcome
            is Failed,
{
}

/// The reception goes on exactly if the configuration or message got through,
/// and stops otherwise.
pub proof fn law_reception_goes_on<M>(delivered: bool, step: Reception<M>)
    requires
        call_ensures(after_delivery::<M>, (delivered,), step),
    ensures
        step is Await <==> delivered,
        step is Stop <==> !delivered,
{
}

/// A failure of the base class is handed on. Otherwise the change succeeds: the
/// element reports that it does not preroll on every way into the paused state,
/// whatever the base class reported, and on every other change what the base
/// class reported. It disconnects exactly on the way from paused to ready.
pub proof fn law_element_is_live(
    transition: StateChange,
    parent: Result<StateChangeSuccess, StateChangeError>,
    outcome: Result<StateChangeOutcome, StateChangeError>,
)
    requires
        call_ensures(change_state, (transition, parent), outcome),
    ensures
        outcome is Ok <==> parent is Ok,
        parent is Ok && (transition is ReadyToPaused || transition is PlayingToPaused) ==> (
        outcome->Ok_0.success is NoPreroll),
        parent is Ok && !(transition is ReadyToPaused) && !(transition is PlayingToPaused)
            ==> outcome->Ok_0.success == parent->Ok_0,
        parent is Ok ==> (outcome->Ok_0.disconnect <==> transition is PausedToReady),
{
}

/// Whether a state is that of an element that has not streamed anything yet.
pub open spec fn is_new<G, Q, S, A>(
    state: State<G, Q, S, A>,
    in_segment: G,
    seqnum: Q,
) -> bool {
    &&& !state.connected
    &&& state.buffers@.len() == 0
    &&& state.start_time is None
    &&& state.send_events
    &&& state.send_discontinuity
    &&& state.in_segment == in_segment
    &&& state.seqnum == seqnum
    &&& state.out_position == 0
    &&& state.sender is None
    &&& state.recv_abort_handle is None
    &&& state.send_abort_handle is None
}

/// A new state is that of an element that has not streamed anything yet.
pub proof fn law_new_state<G, Q, S, A>(in_segment: G, seqnum: Q, state: State<G, Q, S, A>)
    requires
        call_ensures(State::<G, Q, S, A>::new, (in_segment, seqnum), state),
    ensures
        is_new(state, in_segment, seqnum),
{
    assert(state@.buffers.len() == state.buffers@.len());
}

/// A new element has a new state and the default settings.
pub proof fn law_new_element<G, Q: Copy, S, A>(
    in_segment: G,
    seqnum: Q,
    element: Transcriber<G, Q, S, A>,
)
    requires
        call_ensures(Transcriber::<G, Q, S, A>::new, (in_segment, seqnum), element),
    ensures
        is_new(element.state, in_segment, seqnum),
        element.settings.latency == 5_000_000_000,
        element.settings.server_address@ == "ws://localhost:2700"@,
{
    assert(element.state@.buffers.len() == element.state.buffers@.len());
}

/// Whether the words have been queued, each as one buffer with its text in UTF-8
/// and its times, behind the buffers that were queued before. The first one is
/// marked as a discontinuity where the stream has had no word yet, and no other.
pub open spec fn are_queued<G, Q, S, A>(
    before: State<G, Q, S, A>,
    words: Seq<WordInfo>,
    after: State<G, Q, S, A>,
) -> bool {
    let n = before.buffers@.len() as int;
    &&& after.buffers@.len() == n + words.len()
    &&& forall|i: int| 0 <= i < n ==> (#[trigger] after.buffers@[i])@ == before.buffers@[i]@
    &&& forall|i: int|
        #![trigger words[i]]
        0 <= i < words.len() ==> {
            let buffer = after.buffers@[n + i];
            &&& buffer.data@ == encode_utf8(words[i].word@)
            &&& buffer.pts == words[i].start
            &&& buffer.pts + buffer.duration == words[i].end
            &&& buffer.discont <==> before.send_discontinuity && i == 0
        }
    &&& after.send_discontinuity <==> before.send_discontinuity && words.len() == 0
    &&& after@ == (StateView {
        buffers: after@.buffers,
        send_discontinuity: after.send_discontinuity,
        ..before@
    })
}

proof fn lemma_are_queued<G, Q, S, A>(
    before: State<G, Q, S, A>,
    words: Seq<WordInfo>,
    after: State<G, Q, S, A>,
)
    requires
        after@ == before@.enqueued(word_views(words)),
    ensures
        are_queued(before, words, after),
{
    let n = before.buffers@.len() as int;
    assert(before@.buffers.len() == n);
    assert(after@.buffers.len() == after.buffers@.len());
    assert forall|i: int| 0 <= i < n implies (#[trigger] after.buffers@[i])@
        == before.buffers@[i]@ by {
        assert(after@.buffers[i] == after.buffers@[i]@);
        assert(before@.buffers[i] == before.buffers@[i]@);
    }
    assert forall|i: int| #![trigger words[i]] 0 <= i < words.len() implies {
        let buffer = after.buffers@[n + i];
        &&& buffer.data@ == encode_utf8(words[i].word@)
        &&& buffer.pts == words[i].start
        &&& buffer.pts + buffer.duration == words[i].end
        &&& buffer.discont <==> before.send_discontinuity && i == 0
    } by {
        assert(after@.buffers[n + i] == after.buffers@[n + i]@);
        assert(word_views(words)[i] == words[i]@);
    }
}

/// Words that are well timed can be queued, and are.
pub proof fn law_words_are_queued<G, Q, S, A>(
    state: &mut State<G, Q, S, A>,
    words: &Vec<WordInfo>,
)
    requires
        forall|i: int| 0 <= i < words@.len() ==> (#[trigger] words@[i]).start <= words@[i].end,
    ensures
        call_requires(State::<G, Q, S, A>::enqueue, (state, words)),
        call_ensures(State::<G, Q, S, A>::enqueue, (state, words), ()) ==> are_queued(
            *old(state),
            words@,
            *final(state),
        ),
{
    if call_ensures(State::<G, Q, S, A>::enqueue, (state, words), ()) {
        lemma_are_queued(*old(state), words@, *final(state));
    }
}

/// Words that are well timed can be queued in the element, and are. The settings
/// stay as they are.
pub proof fn law_element_queues_words<G, Q: Copy, S, A>(
    element: &mut Transcriber<G, Q, S, A>,
    words: &Vec<WordInfo>,
)
    requires
        forall|i: int| 0 <= i < words@.len() ==> (#[trigger] words@[i]).start <= words@[i].end,
    ensures
        call_requires(Transcriber::<G, Q, S, A>::enqueue, (element, words)),
        call_ensures(Transcriber::<G, Q, S, A>::enqueue, (element, words), ()) ==> {
            &&& are_queued(old(element).state, words@, final(element).state)
            &&& final(element).settings@ == old(element).settings@
        },
{
    if call_ensures(Transcriber::<G, Q, S, A>::enqueue, (element, words), ()) {
        lemma_are_queued(old(element).state, words@, final(element).state);
    }
}

/// The streaming task is paused exactly if its channel is closed. The words of a
/// final transcript are queued, and nothing else changes anything.
pub proof fn law_responses_are_handled<G, Q: Copy, S, A>(
    element: &mut Transcriber<G, Q, S, A>,
    response: Response,
    pause: bool,
)
    requires
        response matches Response::Text(Some(transcript)) ==> forall|i: int|
            0 <= i < transcript.result@.len() ==> (#[trigger] transcript.result@[i]).start
                <= transcript.result@[i].end,
    ensures
        call_requires(Transcriber::<G, Q, S, A>::handle_response, (element, response)),
        call_ensures(Transcriber::<G, Q, S, A>::handle_response, (element, response), pause) ==> {
            &&& pause <==> response is Closed
            &&& final(element).settings@ == old(element).settings@
            &&& match response {
                Response::Text(Some(transcript)) => are_queued(
                    old(element).state,
                    transcript.result@,
                    final(element).state,
                ),
                _ => final(element)@ == old(element)@,
            }
        },
{
    if call_ensures(Transcriber::<G, Q, S, A>::handle_response, (element, response), pause) {
        if let Response::Text(Some(transcript)) = response {
            lemma_are_queued(old(element).state, transcript.result@, final(element).state);
        }
    }
}

/// Whether `plan` is what a round at `now` pushes, and `after` the state in which
/// it leaves the element.
///
/// The words at the front of the queue leave it whose presentation time lies
/// more than the latency, less 300 ms, in the past, and no word behind one that
/// does not. Each keeps its text and starts at its own time, or where the one
/// before it ends if that is later; it ends at its own time, or where it starts
/// if that is later. Gaps fill what lies between, and one comes last exactly if
/// the stream still lags behind `now` by more than the latency, less 100 ms, and
/// takes it to just that distance.
pub open spec fn is_round<G, Q, S, A>(
    before: State<G, Q, S, A>,
    now: u64,
    latency: u64,
    after: State<G, Q, S, A>,
    plan: Plan<Q>,
) -> bool {
    let start = if before.start_time is Some {
        before.start_time->0
    } else {
        now
    };
    let from = if before.start_time is Some {
        before.out_position
    } else {
        now
    };
    let wait = if latency >= 300_000_000 {
        latency - 300_000_000
    } else {
        0
    };
    let lag = if latency >= 100_000_000 {
        latency - 100_000_000
    } else {
        0
    };
    let queue = before.buffers@;
    let outputs = output_views(plan.outputs@);
    let words = words_of(outputs);
    let n = words.len() as int;
    let end = if n > 0 {
        words[n - 1].pts + words[n - 1].duration
    } else {
        from as int
    };
    &&& n <= queue.len()
    &&& forall|i: int| 0 <= i < n ==> now - start - (#[trigger] queue[i]).pts > wait
    &&& n < queue.len() ==> now - start - queue[n].pts <= wait
    &&& forall|i: int|
        0 <= i < n ==> {
            let reached = if i == 0 {
                from as int
            } else {
                words[i - 1].pts + words[i - 1].duration
            };
            &&& (#[trigger] words[i]).data == queue[i].data@
            &&& words[i].discont == queue[i].discont
            &&& words[i].pts == max(reached, start + queue[i].pts)
            &&& words[i].pts + words[i].duration == max(
                reached,
                start + queue[i].pts + queue[i].duration,
            )
        }
    &&& fills(outputs, from as int, plan.position as int)
    &&& spaced(outputs)
    &&& outputs.len() > 0 && outputs.last() is Gap <==> now - end > lag
    &&& now - end > lag ==> plan.position == now - lag
    &&& now - end <= lag ==> plan.position == end
    &&& plan.seqnum == before.seqnum
    &&& after.start_time == Some(start)
    &&& after.out_position == from
    &&& after.buffers@.len() == queue.len() - n
    &&& forall|i: int|
        0 <= i < after.buffers@.len() ==> (#[trigger] after.buffers@[i])@ == queue[n + i]@
    &&& after@ == (StateView {
        start_time: after@.start_time,
        out_position: after@.out_position,
        buffers: after@.buffers,
        ..before@
    })
}

proof fn lemma_is_round<G, Q, S, A>(
    before: State<G, Q, S, A>,
    now: u64,
    latency: u64,
    after: State<G, Q, S, A>,
    plan: Plan<Q>,
)
    requires
        after@ == before@.dequeued(now as int, latency as int),
        output_views(plan.outputs@) == before@.round_outputs(now as int, latency as int),
        plan.position == before@.round_position(now as int, latency as int),
        plan.seqnum == before.seqnum,
    ensures
        is_round(before, now, latency, after, plan),
{
    let queue = before.buffers@;
    let words = words_of(output_views(plan.outputs@));
    let n = words.len() as int;
    law_queued_words_are_in_time(before);
    law_round_in_full(before@, now as int, latency as int);
    assert(before@.buffers.len() == queue.len());
    assert forall|i: int| 0 <= i < queue.len() implies before@.buffers[i] == (
    #[trigger] queue[i])@ by {}
    assert(after@.buffers.len() == after.buffers@.len());
    assert forall|i: int| 0 <= i < after.buffers@.len() implies (#[trigger] after.buffers@[i])@
        == queue[n + i]@ by {
        assert(after@.buffers[i] == after.buffers@[i]@);
        assert(before@.buffers[n + i] == queue[n + i]@);
    }
    assert forall|i: int| 0 <= i < n implies (#[trigger] words[i]).data == queue[i].data@ by {
        assert(before@.buffers[i] == queue[i]@);
    }
}

/// A round can be made exactly if its sums fit.
pub proof fn law_fitting_rounds_are_found<G, Q: Copy, S, A>(
    state: &State<G, Q, S, A>,
    now: u64,
    latency: u64,
    fits: bool,
)
    requires
        call_ensures(State::<G, Q, S, A>::can_dequeue, (state, now, latency), fits),
    ensures
        fits <==> times_fit(state@, now as int, latency as int),
{
    law_rounds_that_fit(state@, now as int, latency as int);
}

/// A round whose sums fit can be made, and pushes the words that are due.
pub proof fn law_words_are_scheduled<G, Q: Copy, S, A>(
    state: &mut State<G, Q, S, A>,
    now: u64,
    latency: u64,
    plan: Plan<Q>,
)
    requires
        times_fit(old(state)@, now as int, latency as int),
    ensures
        call_requires(State::<G, Q, S, A>::dequeue, (state, now, latency)),
        call_ensures(State::<G, Q, S, A>::dequeue, (state, now, latency), plan) ==> is_round(
            *old(state),
            now,
            latency,
            *final(state),
            plan,
        ),
{
    law_rounds_that_fit(old(state)@, now as int, latency as int);
    if call_ensures(State::<G, Q, S, A>::dequeue, (state, now, latency), plan) {
        lemma_is_round(*old(state), now, latency, *final(state), plan);
    }
}

/// The element can make a round exactly if its sums fit, with the latency that
/// was set, or if there is no running time.
pub proof fn law_element_finds_fitting_rounds<G, Q: Copy, S, A>(
    element: &Transcriber<G, Q, S, A>,
    now: Option<u64>,
    fits: bool,
)
    requires
        call_ensures(Transcriber::<G, Q, S, A>::can_dequeue, (element, now), fits),
    ensures
        fits <==> (now is None || times_fit(
            element.state@,
            now->0 as int,
            element.settings.latency as int,
        )),
{
    if now is Some {
        law_rounds_that_fit(element.state@, now->0 as int, element.settings.latency as int);
    }
}

/// The element makes a round with the latency that was set, and keeps its
/// settings.
pub proof fn law_element_schedules_words<G, Q: Copy, S, A>(
    element: &mut Transcriber<G, Q, S, A>,
    now: u64,
    plan: Option<Plan<Q>>,
)
    requires
        times_fit(old(element).state@, now as int, old(element).settings.latency as int),
    ensures
        call_requires(Transcriber::<G, Q, S, A>::dequeue, (element, Some(now))),
        call_ensures(Transcriber::<G, Q, S, A>::dequeue, (element, Some(now)), plan) ==> {
            &&& plan is Some
            &&& is_round(
                old(element).state,
                now,
                old(element).settings.latency,
                final(element).state,
                plan->0,
            )
            &&& final(element).settings@ == old(element).settings@
        },
{
    law_rounds_that_fit(
        old(element).state@,
        now as int,
        old(element).settings.latency as int,
    );
    if call_ensures(Transcriber::<G, Q, S, A>::dequeue, (element, Some(now)), plan) {
        lemma_is_round(
            old(element).state,
            now,
            old(element).settings.latency,
            final(element).state,
            plan->0,
        );
    }
}

/// Without a running time no round is made, and nothing changes.
pub proof fn law_no_round_without_a_running_time<G, Q: Copy, S, A>(
    element: &mut Transcriber<G, Q, S, A>,
    plan: Option<Plan<Q>>,
)
    ensures
        call_requires(Transcriber::<G, Q, S, A>::dequeue, (element, None::<u64>)),
        call_ensures(Transcriber::<G, Q, S, A>::dequeue, (element, None::<u64>), plan) ==> plan
            is None && final(element)@ == old(element)@,
{
}

/// The position of the stream is what it is set to, and nothing else changes.
pub proof fn law_position_is_set<G, Q, S, A>(state: &mut State<G, Q, S, A>, position: u64)
    requires
        call_ensures(State::<G, Q, S, A>::set_position, (state, position), ()),
    ensures
        final(state)@ == (StateView { out_position: position as int, ..old(state)@ }),
{
}

/// The streaming task is paused exactly if something could not be pushed. The
/// position of the stream moves exactly if everything could be, and nothing else
/// changes.
pub proof fn law_rounds_are_completed<G, Q: Copy, S, A>(
    element: &mut Transcriber<G, Q, S, A>,
    position: u64,
    pushed: bool,
    pause: bool,
)
    requires
        call_ensures(
            Transcriber::<G, Q, S, A>::finish_dequeue,
            (element, position, pushed),
            pause,
        ),
    ensures
        pause <==> !pushed,
        !pushed ==> final(element)@ == old(element)@,
        pushed ==> final(element)@ == (TranscriberView {
            state: StateView { out_position: position as int, ..old(element)@.state },
            ..old(element)@
        }),
{
}

/// The stream is opened with its start, what it holds and its segment, in this
/// order and under the sequence number of the element, exactly if that has not
/// been done yet. After that it has been done, and nothing else changes.
pub proof fn law_stream_is_opened<G, Q: Copy, S, A>(
    element: &mut Transcriber<G, Q, S, A>,
    events: Vec<StreamEvent<Q>>,
)
    requires
        call_ensures(Transcriber::<G, Q, S, A>::stream_events, (element,), events),
    ensures
        ({
            let state = old(element).state;
            &&& !state.send_events ==> events@.len() == 0
            &&& state.send_events ==> {
                &&& events@.len() == 3
                &&& events@[0] matches StreamEvent::StreamStart { stream_id, seqnum } && stream_id@
                    == "transcription"@ && seqnum == state.seqnum
                &&& events@[1] matches StreamEvent::Caps { media_type, format, seqnum }
                    && media_type@ == "text/x-raw"@ && format@ == "utf8"@ && seqnum == state.seqnum
                &&& events@[2] matches StreamEvent::Segment { position, seqnum } && position
                    == state.out_position && seqnum == state.seqnum
            }
        }),
        final(element)@ == (TranscriberView {
            state: StateView { send_events: false, ..old(element)@.state },
            ..old(element)@
        }),
{
    let views = stream_event_views(events@);
    assert(views == old(element)@.state.pending_events());
    assert(views.len() == events@.len());
    if old(element).state.send_events {
        assert(views[0] == events@[0]@);
        assert(views[1] == events@[1]@);
        assert(views[2] == events@[2]@);
    }
}

/// The streaming task is reached over the channel that it was started with, and
/// nothing else changes.
pub proof fn law_task_is_reached<G, Q: Copy, S, A>(
    element: &mut Transcriber<G, Q, S, A>,
    sender: S,
)
    requires
        call_ensures(Transcriber::<G, Q, S, A>::start_task, (element, sender), ()),
    ensures
        final(element)@ == (TranscriberView {
            state: StateView { sender: Some(sender), ..old(element)@.state },
            ..old(element)@
        }),
{
}

/// The streaming task is started with the source pad and stopped with it; then
/// it is not reached any more. Nothing else changes.
pub proof fn law_task_follows_the_pad<G, Q: Copy, S, A>(
    element: &mut Transcriber<G, Q, S, A>,
    active: bool,
    action: PadAction,
)
    requires
        call_ensures(Transcriber::<G, Q, S, A>::src_activatemode, (element, active), action),
    ensures
        action is StartTask <==> active,
        action is StopTask <==> !active,
        active ==> final(element)@ == old(element)@,
        !active ==> final(element)@ == (TranscriberView {
            state: StateView { sender: None, ..old(element)@.state },
            ..old(element)@
        }),
{
}

/// The peer is asked exactly about the latency. A position in time is answered
/// with the position of the outgoing stream, where it has one; in other units it
/// is refused. Every other query is forwarded.
pub proof fn law_queries_are_answered<G, Q: Copy, S, A>(
    element: &Transcriber<G, Q, S, A>,
    query: Query,
    action: QueryAction,
)
    requires
        call_ensures(Transcriber::<G, Q, S, A>::src_query, (element, query), action),
    ensures
        action is AskPeer <==> query is Latency,
        action is Position <==> query == (Query::Position { in_time: true }),
        action is Position ==> action->Position_0 == (if element.state.out_position
            != 0xffff_ffff_ffff_ffff {
            Some(element.state.out_position)
        } else {
            None
        }),
        action is Refuse <==> query == (Query::Position { in_time: false }),
        action is Forward <==> query is Other,
{
}

/// The latency of the element comes on top of that of its peer, which has to
/// have one. The element is live and never drops a buffer.
pub proof fn law_latencies_add_up<G, Q: Copy, S, A>(
    element: &Transcriber<G, Q, S, A>,
    peer: Option<u64>,
    reply: Option<LatencyReply>,
)
    requires
        peer is Some ==> element.settings.latency + peer->0 <= 0xffff_ffff_ffff_ffff,
    ensures
        call_requires(Transcriber::<G, Q, S, A>::latency_reply, (element, peer)),
        call_ensures(Transcriber::<G, Q, S, A>::latency_reply, (element, peer), reply) ==> {
            &&& reply is Some <==> peer is Some
            &&& reply is Some ==> {
                &&& reply->0.live
                &&& reply->0.min - peer->0 == element.settings.latency
                &&& reply->0.max is None
            }
        },
{
}

/// The end of the stream is told to the server, a flush is followed by a
/// restart, a segment is accepted if it is in time and refused if not, tags,
/// caps and the start of the stream are accepted, and everything else is
/// forwarded. A segment in time is remembered with its sequence number, and
/// nothing else changes anything.
pub proof fn law_events_are_handled<G, Q: Copy, S, A>(
    element: &mut Transcriber<G, Q, S, A>,
    event: SinkEvent<G, Q>,
    action: SinkAction,
)
    requires
        call_ensures(Transcriber::<G, Q, S, A>::sink_event, (element, event), action),
    ensures
        action is SendEos <==> event is Eos,
        action is Flush <==> event is FlushStart,
        action is Restart <==> event is FlushStop,
        action is RefuseFormat <==> event is Segment && event->segment is None,
        action is Accept <==> (event is Segment && event->segment is Some) || event is Tag || event
            is Caps || event is StreamStart,
        action is Forward <==> event is Other,
        event is Segment && event->segment is Some ==> final(element)@ == (TranscriberView {
            state: StateView {
                in_segment: event->segment->0,
                seqnum: event->seqnum,
                ..old(element)@.state
            },
            ..old(element)@
        }),
        !(event is Segment && event->segment is Some) ==> final(element)@ == old(element)@,
{
}

/// Whether the handles are those of the tasks that run in a state, the receiving
/// one first.
pub open spec fn are_running<G, Q, S, A>(state: State<G, Q, S, A>, handles: Seq<A>) -> bool {
    match (state.recv_abort_handle, state.send_abort_handle) {
        (Some(receiving), Some(sending)) => handles =~= seq![receiving, sending],
        (Some(receiving), None) => handles =~= seq![receiving],
        (None, Some(sending)) => handles =~= seq![sending],
        (None, None) => handles.len() == 0,
    }
}

/// A disconnection stops every task that runs, and leaves a new state. The
/// settings stay.
pub proof fn law_disconnection<G, Q: Copy, S, A>(
    element: &mut Transcriber<G, Q, S, A>,
    in_segment: G,
    seqnum: Q,
    handles: Vec<A>,
)
    requires
        call_ensures(
            Transcriber::<G, Q, S, A>::disconnect,
            (element, in_segment, seqnum),
            handles,
        ),
    ensures
        are_running(old(element).state, handles@),
        is_new(final(element).state, in_segment, seqnum),
        final(element).settings@ == old(element).settings@,
{
    assert(final(element).state@.buffers.len() == final(element).state.buffers@.len());
}

/// A flush disconnects, whether or not it can be forwarded and the streaming task
/// stopped, and is handled exactly if both could be done.
pub proof fn law_flush_disconnects<G, Q: Copy, S, A>(
    element: &mut Transcriber<G, Q, S, A>,
    forwarded: bool,
    stopped: bool,
    in_segment: G,
    seqnum: Q,
    done: (bool, Vec<A>),
)
    requires
        call_ensures(
            Transcriber::<G, Q, S, A>::flush_start,
            (element, forwarded, stopped, in_segment, seqnum),
            done,
        ),
    ensures
        done.0 <==> forwarded && stopped,
        are_running(old(element).state, done.1@),
        is_new(final(element).state, in_segment, seqnum),
        final(element).settings@ == old(element).settings@,
{
    assert(final(element).state@.buffers.len() == final(element).state.buffers@.len());
}

/// A connection is made exactly if there is none and the latency is over 200 ms,
/// and to the server that was set. A latency that is too low is refused.
pub proof fn law_connection_is_ensured<G, Q: Copy, S, A>(
    element: &Transcriber<G, Q, S, A>,
    connection: Connection,
)
    requires
        call_ensures(Transcriber::<G, Q, S, A>::ensure_connection, (element,), connection),
    ensures
        connection is Ready <==> element.state.connected,
        connection == Connection::Refused(ConnectError::LatencyTooLow) <==> !element.state.connected
            && element.settings.latency <= 200_000_000,
        connection is Connect <==> !element.state.connected && element.settings.latency
            > 200_000_000,
        connection matches Connection::Connect(address) ==> address@
            == element.settings.server_address@,
{
}

/// Once a connection has been made the element is connected, and holds the handle
/// of the task that receives from it. Nothing else changes.
pub proof fn law_connection_is_recorded<G, Q: Copy, S, A>(
    element: &mut Transcriber<G, Q, S, A>,
    handle: A,
)
    requires
        call_ensures(Transcriber::<G, Q, S, A>::connection_made, (element, handle), ()),
    ensures
        final(element)@ == (TranscriberView {
            state: StateView {
                connected: true,
                recv_abort_handle: Some(handle),
                ..old(element)@.state
            },
            ..old(element)@
        }),
{
}

/// While a buffer is sent the element holds the handle of the task that sends
/// it. Nothing else changes.
pub proof fn law_transmission_is_recorded<G, Q: Copy, S, A>(
    element: &mut Transcriber<G, Q, S, A>,
    handle: A,
)
    requires
        call_ensures(Transcriber::<G, Q, S, A>::begin_send, (element, handle), ()),
    ensures
        final(element)@ == (TranscriberView {
            state: StateView { send_abort_handle: Some(handle), ..old(element)@.state },
            ..old(element)@
        }),
{
}

/// Whenever there is a channel to the streaming task, the server is configured
/// first, for every sample rate and with the times of the words. The reception
/// stops at once exactly if there is no channel.
pub proof fn law_server_is_configured<G, Q: Copy, S, A, M>(
    element: &Transcriber<G, Q, S, A>,
    sample_rate: i32,
    step: Reception<M>,
)
    requires
        call_ensures(
            Transcriber::<G, Q, S, A>::begin_reception::<M>,
            (element, sample_rate),
            step,
        ),
    ensures
        element.state.sender is Some ==> (step matches Reception::ConfigureServer(config)
            && config.sample_rate == sample_rate && config.words),
        step is Stop <==> element.state.sender is None,
{
}

/// Whenever there is a channel to the streaming task, every message is delivered
/// on it as it came; without one the reception stops. Where nothing came it goes
/// on, and where the connection failed it fails.
pub proof fn law_messages_are_delivered<G, Q: Copy, S, A, M>(
    element: &Transcriber<G, Q, S, A>,
    incoming: Incoming<M>,
    step: Reception<M>,
)
    requires
        call_ensures(Transcriber::<G, Q, S, A>::receive::<M>, (element, incoming), step),
    ensures
        incoming matches Incoming::Message(message) ==> {
            &&& element.state.sender is Some ==> step == Reception::Deliver(message)
            &&& element.state.sender is None ==> step is Stop
        },
        step is Await <==> incoming is Nothing,
        step is Fail <==> incoming is Failed,
{
}

/// What is sent to open the stream is not sent a second time.
pub proof fn law_second_opening_is_empty<G, Q: Copy, S, A>(
    first: &mut Transcriber<G, Q, S, A>,
    events: Vec<StreamEvent<Q>>,
    second: &mut Transcriber<G, Q, S, A>,
    more: Vec<StreamEvent<Q>>,
)
    requires
        call_ensures(Transcriber::<G, Q, S, A>::stream_events, (first,), events),
        *old(second) == *final(first),
        call_ensures(Transcriber::<G, Q, S, A>::stream_events, (second,), more),
    ensures
        more@.len() == 0,
        final(second)@ == final(first)@,
{
    law_stream_is_opened(first, events);
    law_stream_is_opened(second, more);
}

/// Where a connection has been made none is asked for; after a disconnection one
/// is asked for again, if the latency allows it.
pub proof fn law_connection_is_asked_for_again<G, Q: Copy, S, A>(
    first: &mut Transcriber<G, Q, S, A>,
    handle: A,
    second: &mut Transcriber<G, Q, S, A>,
    in_segment: G,
    seqnum: Q,
    handles: Vec<A>,
    connected: &Transcriber<G, Q, S, A>,
    disconnected: &Transcriber<G, Q, S, A>,
    before: Connection,
    after: Connection,
)
    requires
        call_ensures(Transcriber::<G, Q, S, A>::connection_made, (first, handle), ()),
        *connected == *final(first),
        call_ensures(Transcriber::<G, Q, S, A>::ensure_connection, (connected,), before),
        *old(second) == *final(first),
        call_ensures(
            Transcriber::<G, Q, S, A>::disconnect,
            (second, in_segment, seqnum),
            handles,
        ),
        *disconnected == *final(second),
        call_ensures(Transcriber::<G, Q, S, A>::ensure_connection, (disconnected,), after),
    ensures
        before is Ready,
        !(after is Ready),
        after is Connect <==> old(first).settings.latency > 200_000_000,
        handles@.len() > 0 && handles@[0] == handle,
{
    law_connection_is_recorded(first, handle);
    law_disconnection(second, in_segment, seqnum, handles);
}

} // verus!
