use gstvosk::control::{Response, StreamEvent};
use gstvosk::relay::Step;
use gstvosk::schedule::{next_output, Output, Plan};
use gstvosk::state::{Buffer, State};
use gstvosk::time::{MSECOND, NONE, SECOND};
use gstvosk::transcriber::Transcriber;
use gstvosk::vosk_client::{is_well_timed, Transcript, WordInfo};

type Element = Transcriber<u8, u32, u8, u8>;

fn word(text: &str, start: u64, end: u64) -> WordInfo {
    WordInfo { word: text.to_string(), start, end }
}

fn buffer(text: &str, discont: bool, pts: u64, end: u64) -> Output {
    Output::Buffer(Buffer { data: text.as_bytes().to_vec(), discont, pts, duration: end - pts })
}

fn gap(start: u64, end: u64) -> Output {
    Output::Gap { start, duration: end - start }
}

fn ms(n: u64) -> u64 {
    n * MSECOND
}

fn round(element: &mut Element, now: u64) -> Plan<u32> {
    assert!(element.can_dequeue(Some(now)));
    let plan = element.dequeue(Some(now)).unwrap();
    assert!(!element.finish_dequeue(plan.position, true));
    plan
}

/// An element whose stream started at ten seconds.
fn started() -> Element {
    let mut element: Element = Transcriber::new(1, 7);
    let plan = round(&mut element, 10 * SECOND);
    assert!(plan.outputs.is_empty());
    assert_eq!(plan.position, 10 * SECOND);
    element
}

#[test]
fn a_new_state_is_empty() {
    let state: State<u8, u32, u8, u8> = State::new(3, 4);
    assert!(!state.connected);
    assert!(state.buffers.is_empty());
    assert_eq!(state.start_time, None);
    assert!(state.send_events);
    assert!(state.send_discontinuity);
    assert_eq!(state.in_segment, 3);
    assert_eq!(state.seqnum, 4);
    assert_eq!(state.out_position, 0);
    assert_eq!(state.sender, None);
    assert_eq!(state.recv_abort_handle, None);
    assert_eq!(state.send_abort_handle, None);
}

#[test]
fn no_running_time_does_nothing() {
    let mut element: Element = Transcriber::new(1, 7);
    assert!(element.can_dequeue(None));
    assert!(element.dequeue(None).is_none());
    assert_eq!(element.state.start_time, None);
}

#[test]
fn the_first_round_starts_the_stream() {
    let element = started();
    assert_eq!(element.state.start_time, Some(10 * SECOND));
    assert_eq!(element.state.out_position, 10 * SECOND);
}

#[test]
fn a_due_word_is_pushed_behind_a_gap() {
    let mut element = started();
    element.enqueue(&vec![word("hello", SECOND, ms(1500))]);
    let plan = round(&mut element, ms(15_800));
    assert_eq!(
        plan.outputs,
        vec![gap(10 * SECOND, 11 * SECOND), buffer("hello", true, 11 * SECOND, ms(11_500))]
    );
    assert_eq!(plan.position, ms(11_500));
    assert_eq!(plan.seqnum, 7);
    assert!(element.state.buffers.is_empty());
    assert_eq!(element.state.out_position, ms(11_500));
}

#[test]
fn a_word_is_due_only_past_the_margin() {
    let mut element = started();
    element.enqueue(&vec![word("hello", SECOND, ms(1500))]);
    let plan = round(&mut element, ms(15_700));
    assert_eq!(plan.outputs, vec![gap(10 * SECOND, ms(10_800))]);
    assert_eq!(element.state.buffers.len(), 1);
    let plan = round(&mut element, ms(15_700) + 1);
    assert_eq!(
        plan.outputs,
        vec![gap(ms(10_800), 11 * SECOND), buffer("hello", true, 11 * SECOND, ms(11_500))]
    );
}

#[test]
fn words_that_are_not_due_stay_queued_in_order() {
    let mut element = started();
    element.enqueue(&vec![
        word("one", 0, ms(200)),
        word("two", 4 * SECOND, ms(4200)),
        word("three", ms(100), ms(300)),
    ]);
    let plan = round(&mut element, ms(14_900));
    assert_eq!(plan.outputs, vec![buffer("one", true, 10 * SECOND, ms(10_200))]);
    assert_eq!(element.state.buffers.len(), 2);
    assert_eq!(element.state.buffers[0].data, b"two");
    assert_eq!(element.state.buffers[1].data, b"three");
}

#[test]
fn a_late_word_keeps_its_end() {
    let mut element = started();
    let plan = round(&mut element, 16 * SECOND);
    assert_eq!(plan.outputs, vec![gap(10 * SECOND, ms(11_100))]);
    element.enqueue(&vec![word("late", SECOND, ms(1500))]);
    let plan = round(&mut element, 16 * SECOND);
    assert_eq!(plan.outputs, vec![buffer("late", true, ms(11_100), ms(11_500))]);
    assert_eq!(plan.position, ms(11_500));
}

#[test]
fn a_word_that_is_over_is_pushed_without_duration() {
    let mut element = started();
    round(&mut element, 20 * SECOND);
    assert_eq!(element.state.out_position, ms(15_100));
    element.enqueue(&vec![word("gone", SECOND, ms(1500))]);
    let plan = round(&mut element, 20 * SECOND);
    assert_eq!(plan.outputs, vec![buffer("gone", true, ms(15_100), ms(15_100))]);
    assert_eq!(plan.position, ms(15_100));
}

#[test]
fn adjacent_and_overlapping_words_leave_no_gap() {
    let mut element = started();
    element.enqueue(&vec![
        word("a", 0, ms(400)),
        word("b", ms(400), ms(700)),
        word("c", ms(600), ms(900)),
    ]);
    let plan = round(&mut element, ms(15_500));
    assert_eq!(
        plan.outputs,
        vec![
            buffer("a", true, 10 * SECOND, ms(10_400)),
            buffer("b", false, ms(10_400), ms(10_700)),
            buffer("c", false, ms(10_700), ms(10_900)),
        ]
    );
}

#[test]
fn a_lagging_stream_is_filled_with_a_gap() {
    let mut element = started();
    assert!(round(&mut element, ms(14_900)).outputs.is_empty());
    let plan = round(&mut element, ms(14_901));
    assert_eq!(plan.outputs, vec![gap(10 * SECOND, ms(10_001))]);
    assert_eq!(plan.position, ms(10_001));
}

#[test]
fn a_second_round_at_the_same_time_pushes_nothing() {
    let mut element = started();
    element.enqueue(&vec![word("a", 0, ms(400)), word("b", 9 * SECOND, 10 * SECOND)]);
    assert_eq!(round(&mut element, 17 * SECOND).outputs.len(), 2);
    let position = element.state.out_position;
    let plan = round(&mut element, 17 * SECOND);
    assert!(plan.outputs.is_empty());
    assert_eq!(plan.position, position);
    assert_eq!(element.state.buffers.len(), 1);
}

#[test]
fn the_stream_has_no_holes_over_several_rounds() {
    let mut element = started();
    element.enqueue(&vec![word("a", ms(300), ms(700)), word("b", SECOND, ms(1300))]);
    let mut outputs = round(&mut element, ms(15_100)).outputs;
    element.enqueue(&vec![word("c", ms(1200), ms(1400)), word("d", 8 * SECOND, 9 * SECOND)]);
    outputs.extend(round(&mut element, ms(16_400)).outputs);
    outputs.extend(round(&mut element, ms(22_800)).outputs);
    let mut position = 10 * SECOND;
    let mut words = 0;
    for output in &outputs {
        let (start, duration) = match output {
            Output::Gap { start, duration } => (*start, *duration),
            Output::Buffer(buffer) => {
                words += 1;
                (buffer.pts, buffer.duration)
            }
        };
        assert_eq!(start, position);
        position = start + duration;
    }
    assert_eq!(words, 4);
    assert_eq!(position, element.state.out_position);
}

#[test]
fn a_timely_word_is_shown_whole_and_within_the_latency() {
    let mut element = started();
    element.enqueue(&vec![word("soon", 2 * SECOND, ms(2500))]);
    let mut now = 11 * SECOND;
    loop {
        let outputs = round(&mut element, now).outputs;
        if let Some(Output::Buffer(b)) = outputs.back() {
            assert_eq!((b.pts, b.duration), (12 * SECOND, ms(500)));
            break;
        }
        now += ms(100);
        assert!(now <= 17 * SECOND);
    }
    assert_eq!(now, ms(16_800));
}

#[test]
fn a_failed_push_pauses_and_keeps_the_position() {
    let mut element = started();
    element.enqueue(&vec![word("a", 0, ms(400))]);
    let plan = element.dequeue(Some(15 * SECOND)).unwrap();
    assert!(element.finish_dequeue(plan.position, false));
    assert_eq!(element.state.out_position, 10 * SECOND);
}

#[test]
fn a_low_latency_makes_words_due_at_once() {
    let mut element = started();
    element.settings.latency = ms(250);
    element.enqueue(&vec![word("a", 0, ms(100))]);
    assert_eq!(round(&mut element, 10 * SECOND).outputs, vec![]);
    assert_eq!(
        round(&mut element, 10 * SECOND + 1).outputs,
        vec![buffer("a", true, 10 * SECOND, ms(10_100))]
    );
}

#[test]
fn times_that_cannot_be_represented_are_found() {
    let mut element = started();
    element.enqueue(&vec![word("a", NONE, NONE)]);
    assert!(!element.can_dequeue(Some(20 * SECOND)));

    let mut element = started();
    element.enqueue(&vec![word("a", 0, NONE)]);
    assert!(!element.can_dequeue(Some(20 * SECOND)));
    assert!(element.can_dequeue(Some(11 * SECOND)));

    let mut element = started();
    element.enqueue(&vec![word("a", 0, NONE - 1)]);
    assert!(!element.can_dequeue(Some(20 * SECOND)));

    let mut element = started();
    element.enqueue(&vec![word("a", NONE - 1, NONE - 1)]);
    assert!(!element.can_dequeue(Some(20 * SECOND)));

    let mut element = started();
    assert!(element.can_dequeue(Some(SECOND)));
    element.enqueue(&vec![word("a", 0, 0)]);
    assert!(!element.can_dequeue(Some(SECOND)));

    let element: Element = Transcriber::new(1, 7);
    assert!(!element.can_dequeue(Some(NONE)));
    assert!(!element.can_dequeue(Some(NONE - 1)));
    assert!(element.can_dequeue(Some(NONE - ms(4900))));

    let mut element = started();
    element.state.out_position = NONE;
    assert!(!element.can_dequeue(Some(20 * SECOND)));
}

#[test]
fn words_are_queued_in_utf8_with_their_times() {
    let mut element = started();
    element.enqueue(&vec![word("año", ms(30), ms(270)), word("日本", ms(300), ms(450))]);
    assert_eq!(
        element.state.buffers[0],
        Buffer { data: "año".as_bytes().to_vec(), discont: true, pts: ms(30), duration: ms(240) }
    );
    assert_eq!(
        element.state.buffers[1],
        Buffer { data: "日本".as_bytes().to_vec(), discont: false, pts: ms(300), duration: ms(150) }
    );
}

#[test]
fn only_the_first_word_of_a_stream_is_discontinuous() {
    let mut element = started();
    element.enqueue(&vec![]);
    assert!(element.state.send_discontinuity);
    element.enqueue(&vec![word("a", 0, 1), word("b", 1, 2)]);
    assert!(!element.state.send_discontinuity);
    element.enqueue(&vec![word("c", 2, 3)]);
    let marks: Vec<bool> = element.state.buffers.iter().map(|b| b.discont).collect();
    assert_eq!(marks, vec![true, false, false]);
}

#[test]
fn two_transcripts_queue_like_one() {
    let mut one = started();
    one.enqueue(&vec![word("a", 0, 1), word("b", 1, 2), word("c", 2, 3)]);
    let mut two = started();
    two.enqueue(&vec![word("a", 0, 1)]);
    two.enqueue(&vec![word("b", 1, 2), word("c", 2, 3)]);
    assert_eq!(one.state.buffers, two.state.buffers);
}

#[test]
fn words_that_end_before_they_start_are_found() {
    assert!(is_well_timed(&vec![]));
    assert!(is_well_timed(&vec![word("a", 1, 1), word("b", 1, 2)]));
    assert!(!is_well_timed(&vec![word("a", 1, 1), word("b", 3, 2)]));
}

#[test]
fn the_stream_is_opened_once() {
    let mut element = started();
    let events = element.stream_events();
    assert_eq!(
        events,
        vec![
            StreamEvent::StreamStart { stream_id: "transcription".to_string(), seqnum: 7 },
            StreamEvent::Caps {
                media_type: "text/x-raw".to_string(),
                format: "utf8".to_string(),
                seqnum: 7
            },
            StreamEvent::Segment { position: 10 * SECOND, seqnum: 7 },
        ]
    );
    assert!(element.stream_events().is_empty());
    element.enqueue(&vec![word("a", 0, 1)]);
    round(&mut element, 20 * SECOND);
    assert!(element.stream_events().is_empty());
    element.disconnect(1, 8);
    assert_eq!(element.stream_events().len(), 3);
}

#[test]
fn a_final_transcript_is_queued() {
    let mut element = started();
    let transcript = Transcript { result: vec![word("a", 0, 1)], text: "a".to_string() };
    assert!(!element.handle_response(Response::Text(Some(transcript))));
    assert_eq!(element.state.buffers.len(), 1);
}

#[test]
fn other_responses_queue_nothing() {
    let mut element = started();
    assert!(!element.handle_response(Response::Text(None)));
    assert!(!element.handle_response(Response::Other));
    assert!(!element.handle_response(Response::TimedOut));
    assert!(element.handle_response(Response::Closed));
    assert!(element.state.buffers.is_empty());
}

#[test]
fn nothing_is_pushed_behind_a_failed_push() {
    let mut element = started();
    element.enqueue(&vec![word("a", ms(100), ms(400)), word("b", ms(500), ms(700))]);
    let mut plan = element.dequeue(Some(16 * SECOND)).unwrap();
    assert_eq!(plan.outputs.len(), 5);
    assert_eq!(next_output(&mut plan, true), Step::Next(gap(10 * SECOND, ms(10_100))));
    assert_eq!(
        next_output(&mut plan, true),
        Step::Next(buffer("a", true, ms(10_100), ms(10_400)))
    );
    assert_eq!(next_output(&mut plan, false), Step::Failed);
    assert!(plan.outputs.is_empty());
    assert!(element.finish_dequeue(plan.position, false));
    assert_eq!(element.state.out_position, 10 * SECOND);
}

#[test]
fn a_complete_round_ends_in_success() {
    let mut element = started();
    element.enqueue(&vec![word("a", 0, ms(400))]);
    let mut plan = element.dequeue(Some(15 * SECOND)).unwrap();
    assert_eq!(
        next_output(&mut plan, true),
        Step::Next(buffer("a", true, 10 * SECOND, ms(10_400)))
    );
    assert_eq!(next_output(&mut plan, true), Step::Done);
    assert_eq!((plan.position, plan.seqnum), (ms(10_400), 7));
}

/// One pass of the streaming task, in which the first `accepted` outputs can be
/// pushed. Returns what was tried, and whether the task was paused.
fn pass(
    element: &mut Element,
    response: Response,
    now: Option<u64>,
    accepted: usize,
) -> (Vec<Output>, bool) {
    element.stream_events();
    let closed = element.handle_response(response);
    assert!(element.can_dequeue(now));
    let mut tried = Vec::new();
    let failed = match element.dequeue(now) {
        None => false,
        Some(mut plan) => {
            let mut pushed = true;
            while let Step::Next(output) = next_output(&mut plan, pushed) {
                pushed = tried.len() < accepted;
                tried.push(output);
            }
            element.finish_dequeue(plan.position, pushed)
        }
    };
    (tried, closed || failed)
}

fn final_result(words: Vec<WordInfo>) -> Response {
    Response::Text(Some(Transcript { result: words, text: String::new() }))
}

#[test]
fn a_pass_pushes_the_words_that_it_received() {
    let mut element = started();
    let response = final_result(vec![word("a", ms(100), ms(400)), word("b", ms(900), ms(990))]);
    let (tried, paused) = pass(&mut element, response, Some(15 * SECOND), 9);
    assert_eq!(
        tried,
        vec![gap(10 * SECOND, ms(10_100)), buffer("a", true, ms(10_100), ms(10_400))]
    );
    assert!(!paused);
    assert_eq!(element.state.out_position, ms(10_400));
    assert_eq!(element.state.buffers.len(), 1);
    assert!(element.stream_events().is_empty());
}

#[test]
fn a_pass_makes_its_round_though_the_channel_is_closed() {
    let mut element = started();
    element.enqueue(&vec![word("a", ms(100), ms(400))]);
    let (tried, paused) = pass(&mut element, Response::Closed, Some(15 * SECOND), 9);
    assert_eq!(tried.len(), 2);
    assert!(paused);
    assert_eq!(element.state.out_position, ms(10_400));
}

#[test]
fn a_pass_pauses_at_the_first_failed_push() {
    let mut element = started();
    let response = final_result(vec![word("a", ms(100), ms(400))]);
    let (tried, paused) = pass(&mut element, response, Some(15 * SECOND), 0);
    assert_eq!(tried, vec![gap(10 * SECOND, ms(10_100))]);
    assert!(paused);
    assert_eq!(element.state.out_position, 10 * SECOND);
    assert!(element.state.buffers.is_empty());
}

#[test]
fn a_pass_without_a_running_time_only_queues() {
    let mut element = started();
    let response = final_result(vec![word("a", ms(100), ms(400))]);
    assert_eq!(pass(&mut element, response, None, 9), (vec![], false));
    assert_eq!(element.state.buffers.len(), 1);
    assert_eq!(pass(&mut element, Response::Closed, None, 9), (vec![], true));
    assert_eq!(element.state.out_position, 10 * SECOND);
}

#[test]
fn a_connection_serves_until_the_element_disconnects() {
    let mut element = started();
    element.connection_made(3);
    element.start_task(4);
    element.begin_send(5);
    let response = final_result(vec![word("a", ms(100), ms(400))]);
    assert!(!pass(&mut element, response, Some(15 * SECOND), 9).1);
    assert!(pass(&mut element, Response::Closed, Some(20 * SECOND), 0).1);
    assert!(element.state.connected);
    assert_eq!(element.state.recv_abort_handle, Some(3));
    element.disconnect(1, 8);
    assert!(!element.state.connected);
    assert_eq!(element.state.recv_abort_handle, None);
}
