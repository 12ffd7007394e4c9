use gstvosk::control::{
    after_delivery, change_state, flow_result, flush_stop_result, ConnectError, Connection,
    FlowError, Incoming, LatencyReply, PadAction, Query, QueryAction, Reception, SendOutcome,
    SinkAction, SinkEvent, StateChange, StateChangeError, StateChangeOutcome, StateChangeSuccess,
};
use gstvosk::packets::{next_message, sync_and_send, AudioBuffer, Message, SendStep};
use gstvosk::settings::{Property, PropertyId, Settings};
use gstvosk::time::{MSECOND, NONE, SECOND};
use gstvosk::transcriber::Transcriber;

type Element = Transcriber<u8, u32, char, char>;

fn element() -> Element {
    Transcriber::new(1, 7)
}

#[test]
fn default_settings() {
    let settings = Settings::default();
    assert_eq!(settings.latency, 5 * SECOND);
    assert_eq!(settings.server_address, "ws://localhost:2700");
    assert_eq!(element().settings, settings);
}

#[test]
fn properties_are_found_by_name() {
    assert_eq!(PropertyId::from_name("latency"), Some(PropertyId::Latency));
    assert_eq!(PropertyId::from_name("server-address"), Some(PropertyId::ServerAddress));
    assert_eq!(PropertyId::from_name("server_address"), None);
    assert_eq!(PropertyId::from_name(""), None);
}

#[test]
fn properties_read_back() {
    let mut settings = Settings::default();
    assert_eq!(settings.property(PropertyId::Latency), Property::Latency(5000));
    for latency in [0, 1, 200, 8000, u32::MAX] {
        settings.set_property(Property::Latency(latency));
        assert_eq!(settings.latency, latency as u64 * MSECOND);
        assert_eq!(settings.property(PropertyId::Latency), Property::Latency(latency));
    }
    let address = Property::ServerAddress("ws://example.org:1".to_string());
    settings.set_property(address.clone());
    assert_eq!(settings.property(PropertyId::ServerAddress), address);
    assert_eq!(settings.property(PropertyId::Latency), Property::Latency(u32::MAX));
}

#[test]
fn a_latency_beyond_the_property_is_cut() {
    let settings = Settings {
        latency: (u32::MAX as u64 + 6) * MSECOND + 999_999,
        server_address: String::new(),
    };
    assert_eq!(settings.property(PropertyId::Latency), Property::Latency(5));
}

#[test]
fn a_connection_is_asked_for_once() {
    let mut element = element();
    assert_eq!(
        element.ensure_connection(),
        Connection::Connect("ws://localhost:2700".to_string())
    );
    element.connection_made('r');
    assert_eq!(element.ensure_connection(), Connection::Ready);
    element.settings.latency = 0;
    assert_eq!(element.ensure_connection(), Connection::Ready);
}

#[test]
fn a_low_latency_is_refused() {
    let mut element = element();
    element.settings.set_property(Property::Latency(200));
    assert_eq!(
        element.ensure_connection(),
        Connection::Refused(ConnectError::LatencyTooLow)
    );
    assert_eq!(
        ConnectError::LatencyTooLow.message(),
        "latency must be greater than 200 milliseconds"
    );
    element.settings.set_property(Property::Latency(201));
    assert!(matches!(element.ensure_connection(), Connection::Connect(_)));
}

#[test]
fn disconnecting_hands_out_the_handles_and_resets() {
    let mut element = element();
    element.start_task('s');
    element.connection_made('r');
    element.begin_send('t');
    assert_eq!(element.state.recv_abort_handle, Some('r'));
    assert_eq!(element.disconnect(5, 6), vec!['r', 't']);
    assert!(!element.state.connected);
    assert_eq!(element.state.in_segment, 5);
    assert_eq!(element.state.seqnum, 6);
    assert_eq!(element.state.sender, None);
    assert!(element.disconnect(5, 6).is_empty());
    element.begin_send('u');
    assert_eq!(element.disconnect(5, 6), vec!['u']);
}

#[test]
fn flushing_disconnects_whatever_happens() {
    for (forwarded, stopped, handled) in
        [(true, true, true), (true, false, false), (false, true, false), (false, false, false)]
    {
        let mut element = element();
        element.connection_made('r');
        assert_eq!(element.flush_start(forwarded, stopped, 2, 8), (handled, vec!['r']));
        assert!(!element.state.connected);
        assert_eq!(element.state.seqnum, 8);
    }
    assert!(flush_stop_result(true, true));
    assert!(!flush_stop_result(true, false));
    assert!(!flush_stop_result(false, true));
}

#[test]
fn the_task_channel_follows_the_pad() {
    let mut element = element();
    assert_eq!(element.src_activatemode(true), PadAction::StartTask);
    element.start_task('s');
    assert_eq!(element.state.sender, Some('s'));
    assert_eq!(element.src_activatemode(false), PadAction::StopTask);
    assert_eq!(element.state.sender, None);
}

#[test]
fn sink_events() {
    let mut element = element();
    assert_eq!(element.sink_event(SinkEvent::Eos), SinkAction::SendEos);
    assert_eq!(element.sink_event(SinkEvent::FlushStart), SinkAction::Flush);
    assert_eq!(element.sink_event(SinkEvent::FlushStop), SinkAction::Restart);
    assert_eq!(element.sink_event(SinkEvent::Tag), SinkAction::Accept);
    assert_eq!(element.sink_event(SinkEvent::Caps), SinkAction::Accept);
    assert_eq!(element.sink_event(SinkEvent::StreamStart), SinkAction::Accept);
    assert_eq!(element.sink_event(SinkEvent::Other), SinkAction::Forward);
    assert_eq!((element.state.in_segment, element.state.seqnum), (1, 7));
    assert_eq!(
        element.sink_event(SinkEvent::Segment { segment: None, seqnum: 9 }),
        SinkAction::RefuseFormat
    );
    assert_eq!((element.state.in_segment, element.state.seqnum), (1, 7));
    assert_eq!(
        element.sink_event(SinkEvent::Segment { segment: Some(4), seqnum: 9 }),
        SinkAction::Accept
    );
    assert_eq!((element.state.in_segment, element.state.seqnum), (4, 9));
}

#[test]
fn queries() {
    let mut element = element();
    assert_eq!(element.src_query(Query::Latency), QueryAction::AskPeer);
    assert_eq!(element.src_query(Query::Other), QueryAction::Forward);
    assert_eq!(element.src_query(Query::Position { in_time: false }), QueryAction::Refuse);
    assert_eq!(
        element.src_query(Query::Position { in_time: true }),
        QueryAction::Position(Some(0))
    );
    element.state.out_position = NONE;
    assert_eq!(element.src_query(Query::Position { in_time: true }), QueryAction::Position(None));
}

#[test]
fn the_latency_adds_up() {
    let element = element();
    assert_eq!(
        element.latency_reply(Some(20 * MSECOND)),
        Some(LatencyReply { live: true, min: 5020 * MSECOND, max: None })
    );
    assert_eq!(element.latency_reply(None), None);
}

#[test]
fn reception_steps() {
    let mut element = element();
    assert!(matches!(element.begin_reception::<u8>(16000), Reception::Stop));
    assert!(matches!(element.receive(Incoming::Message(5)), Reception::Stop));
    element.start_task('s');
    match element.begin_reception::<u8>(16000) {
        Reception::ConfigureServer(config) => {
            assert_eq!(config.sample_rate, 16000);
            assert!(config.words);
        }
        _ => panic!("no configuration"),
    }
    assert!(matches!(element.receive(Incoming::Message(5)), Reception::Deliver(5)));
    assert!(matches!(element.receive::<u8>(Incoming::Nothing), Reception::Await));
    assert!(matches!(element.receive::<u8>(Incoming::Failed), Reception::Fail));
    assert!(matches!(after_delivery::<u8>(true), Reception::Await));
    assert!(matches!(after_delivery::<u8>(false), Reception::Stop));
}

#[test]
fn flow_results() {
    assert_eq!(flow_result(SendOutcome::Sent), Ok(()));
    assert_eq!(flow_result(SendOutcome::Failed), Err(FlowError::Error));
    assert_eq!(flow_result(SendOutcome::Disconnected), Err(FlowError::Error));
    assert_eq!(flow_result(SendOutcome::Aborted), Err(FlowError::Flushing));
}

#[test]
fn state_changes() {
    let parent = Ok(StateChangeSuccess::Async);
    let outcome = |disconnect, success| Ok(StateChangeOutcome { disconnect, success });
    for transition in [StateChange::ReadyToPaused, StateChange::PlayingToPaused] {
        assert_eq!(
            change_state(transition, parent),
            outcome(false, StateChangeSuccess::NoPreroll)
        );
    }
    assert_eq!(
        change_state(StateChange::PausedToReady, parent),
        outcome(true, StateChangeSuccess::Async)
    );
    for transition in [
        StateChange::NullToReady,
        StateChange::PausedToPlaying,
        StateChange::ReadyToNull,
        StateChange::Unchanged,
    ] {
        assert_eq!(change_state(transition, parent), outcome(false, StateChangeSuccess::Async));
    }
    assert_eq!(
        change_state(StateChange::PausedToReady, Err(StateChangeError)),
        Err(StateChangeError)
    );
}

#[test]
fn audio_is_cut_into_chunks() {
    for (len, sizes) in [
        (0, vec![]),
        (1, vec![1]),
        (7999, vec![7999]),
        (8000, vec![8000]),
        (8001, vec![8000, 1]),
        (20000, vec![8000, 8000, 4000]),
    ] {
        let data: Vec<u8> = (0..len).map(|i| (i % 251) as u8).collect();
        let plan = sync_and_send(Some(AudioBuffer { running_time: None, data: &data }), Some(0));
        assert_eq!(plan.delay, None);
        let mut joined = vec![];
        let mut found = vec![];
        for message in plan.messages {
            match message {
                Message::Binary(chunk) => {
                    found.push(chunk.len());
                    joined.extend(chunk);
                }
                Message::Text(_) => panic!("no text expected"),
            }
        }
        assert_eq!(found, sizes);
        assert_eq!(joined, data);
    }
}

#[test]
fn the_end_of_the_stream_is_a_text() {
    let plan = sync_and_send(None, Some(SECOND));
    assert_eq!(plan.messages, vec![Message::Text("{\"eof\": 1}".to_string())]);
    assert_eq!(plan.delay, None);
}

#[test]
fn audio_waits_for_its_running_time() {
    let delay = |running_time, now| {
        sync_and_send(Some(AudioBuffer { running_time, data: &[1, 2] }), now).delay
    };
    assert_eq!(delay(Some(5), Some(3)), Some(2));
    assert_eq!(delay(Some(5), Some(5)), Some(0));
    assert_eq!(delay(Some(5), Some(6)), None);
    assert_eq!(delay(None, Some(6)), None);
    assert_eq!(delay(Some(5), None), None);
}

#[test]
fn nothing_is_sent_behind_a_failed_send() {
    let data = vec![3u8; 20000];
    let mut plan = sync_and_send(Some(AudioBuffer { running_time: None, data: &data }), None);
    let full = SendStep::Send(Message::Binary(vec![3; 8000]));
    assert_eq!(next_message(&mut plan, true, true), full);
    assert_eq!(next_message(&mut plan, true, true), full);
    assert_eq!(
        next_message(&mut plan, true, false),
        SendStep::Finished(SendOutcome::Failed)
    );
    assert!(plan.messages.is_empty());
    assert_eq!(flow_result(SendOutcome::Failed), Err(FlowError::Error));
}

#[test]
fn a_complete_transmission_succeeds() {
    let mut plan = sync_and_send(Some(AudioBuffer { running_time: None, data: &[1, 2] }), None);
    assert_eq!(
        next_message(&mut plan, true, true),
        SendStep::Send(Message::Binary(vec![1, 2]))
    );
    assert_eq!(next_message(&mut plan, true, true), SendStep::Finished(SendOutcome::Sent));
}

#[test]
fn without_a_sink_nothing_is_sent() {
    let mut plan = sync_and_send(Some(AudioBuffer { running_time: None, data: &[1, 2] }), None);
    assert_eq!(next_message(&mut plan, false, true), SendStep::Finished(SendOutcome::Sent));
    let mut plan = sync_and_send(None, None);
    assert_eq!(next_message(&mut plan, false, true), SendStep::Finished(SendOutcome::Sent));
    assert_eq!(flow_result(SendOutcome::Sent), Ok(()));
}
