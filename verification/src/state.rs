//! The state of the element while it streams.
use std::collections::VecDeque;

use vstd::prelude::*;

use vstd::utf8::encode_utf8;

use crate::vosk_client::{word_views, well_timed, WordInfo, WordView};

verus! {

/// A text buffer: one word, to be shown from `pts` on for `duration`.
#[derive(Debug, PartialEq, Eq)]
pub struct Buffer {
    /// The word in UTF-8.
    pub data: Vec<u8>,
    /// Whether the buffer does not continue the one before it.
    pub discont: bool,
    /// The presentation time.
    pub pts: u64,
    /// How long the word is shown.
    pub duration: u64,
}

/// A text buffer as a mathematical value.
#[verifier::ext_equal]
pub struct BufferView {
    pub data: Seq<u8>,
    pub discont: bool,
    pub pts: int,
    pub duration: int,
}

impl View for Buffer {
    type V = BufferView;

    open spec fn view(&self) -> BufferView {
        BufferView {
            data: self.data@,
            discont: self.discont,
            pts: self.pts as int,
            duration: self.duration as int,
        }
    }
}

impl BufferView {
    /// When the buffer stops being shown.
    pub open spec fn end(self) -> int {
        self.pts + self.duration
    }

    /// The same buffer, `offset` later.
    pub open spec fn shifted(self, offset: int) -> BufferView {
        BufferView { pts: offset + self.pts, ..self }
    }
}

/// The buffer that a word is queued as.
pub open spec fn word_buffer(word: WordView, discont: bool) -> BufferView {
    BufferView {
        data: encode_utf8(word.word),
        discont,
        pts: word.start,
        duration: word.end - word.start,
    }
}

/// The buffers that a run of words is queued as. At most the first one is
/// marked as a discontinuity.
pub open spec fn word_buffers(words: Seq<WordView>, discont: bool) -> Seq<BufferView> {
    Seq::new(words.len(), |i: int| word_buffer(words[i], discont && i == 0))
}

/// The buffers of a sequence, as mathematical values.
pub open spec fn buffer_views(buffers: Seq<Buffer>) -> Seq<BufferView> {
    buffers.map_values(|b: Buffer| b@)
}

/// The state of the element. It starts anew every time the element restarts.
///
/// The logic hands on, without looking into them, the segment `G` of the
/// incoming stream, its sequence number `Q`, the channel `S` to the streaming
/// task and the handles `A` of the tasks that can be aborted.
pub struct State<G, Q, S, A> {
    /// Whether there is a connection to the Vosk server.
    pub connected: bool,
    /// The buffers that wait to be pushed, oldest first. Their presentation
    /// times count from the start of the media, not from the start of the
    /// stream.
    pub buffers: VecDeque<Buffer>,
    /// The running time at which the first buffers were processed.
    pub start_time: Option<u64>,
    /// Whether the stream initialization events are still to be sent.
    pub send_events: bool,
    /// Whether the next buffer is to be marked as a discontinuity.
    pub send_discontinuity: bool,
    /// The segment of the incoming stream.
    pub in_segment: G,
    /// The sequence number of the segment of the incoming stream.
    pub seqnum: Q,
    /// Up to where the outgoing stream has been filled.
    pub out_position: u64,
    /// The channel on which messages reach the streaming task.
    pub sender: Option<S>,
    /// Stops the reception of messages from the server.
    pub recv_abort_handle: Option<A>,
    /// Stops the transmission of the current audio buffer.
    pub send_abort_handle: Option<A>,
}

/// The state of the element as a mathematical value.
#[verifier::ext_equal]
pub struct StateView<G, Q, S, A> {
    pub connected: bool,
    pub buffers: Seq<BufferView>,
    pub start_time: Option<int>,
    pub send_events: bool,
    pub send_discontinuity: bool,
    pub in_segment: G,
    pub seqnum: Q,
    pub out_position: int,
    pub sender: Option<S>,
    pub recv_abort_handle: Option<A>,
    pub send_abort_handle: Option<A>,
}

impl<G, Q, S, A> View for State<G, Q, S, A> {
    type V = StateView<G, Q, S, A>;

    open spec fn view(&self) -> StateView<G, Q, S, A> {
        StateView {
            connected: self.connected,
            buffers: buffer_views(self.buffers@),
            start_time: match self.start_time {
                Some(t) => Some(t as int),
                None => None,
            },
            send_events: self.send_events,
            send_discontinuity: self.send_discontinuity,
            in_segment: self.in_segment,
            seqnum: self.seqnum,
            out_position: self.out_position as int,
            sender: self.sender,
            recv_abort_handle: self.recv_abort_handle,
            send_abort_handle: self.send_abort_handle,
        }
    }
}

impl<G, Q, S, A> StateView<G, Q, S, A> {
    /// The state of an element that has not streamed anything yet.
    pub open spec fn fresh(in_segment: G, seqnum: Q) -> Self {
        StateView {
            connected: false,
            buffers: Seq::empty(),
            start_time: None,
            send_events: true,
            send_discontinuity: true,
            in_segment,
            seqnum,
            out_position: 0,
            sender: None,
            recv_abort_handle: None,
            send_abort_handle: None,
        }
    }

    /// The state once the words have been queued.
    pub open spec fn enqueued(self, words: Seq<WordView>) -> Self {
        StateView {
            buffers: self.buffers + word_buffers(words, self.send_discontinuity),
            send_discontinuity: self.send_discontinuity && words.len() == 0,
            ..self
        }
    }

    /// The state once the outgoing stream has been filled up to `position`.
    pub open spec fn positioned(self, position: int) -> Self {
        StateView { out_position: position, ..self }
    }

    /// The state after a round that reaches `position`, where everything could
    /// be `pushed` or not.
    pub open spec fn finished(self, position: int, pushed: bool) -> Self {
        if pushed {
            self.positioned(position)
        } else {
            self
        }
    }
}

impl<G, Q, S, A> State<G, Q, S, A> {
    /// The state of an element that has not streamed anything yet, with an
    /// initial segment and a new sequence number.
    pub fn new(in_segment: G, seqnum: Q) -> (state: Self)
        ensures
            state@ == StateView::<G, Q, S, A>::fresh(in_segment, seqnum),
    {
        State {
            connected: false,
            buffers: VecDeque::new(),
            start_time: None,
            send_events: true,
            send_discontinuity: true,
            in_segment,
            seqnum,
            out_position: 0,
            sender: None,
            recv_abort_handle: None,
            send_abort_handle: None,
        }
    }

    /// Queues the words of a transcript, one buffer for each. The first buffer
    /// of a stream is marked as a discontinuity.
    pub fn enqueue(&mut self, transcription: &Vec<WordInfo>)
        requires
            well_timed(word_views(transcription@)),
        ensures
            final(self)@ == old(self)@.enqueued(word_views(transcription@)),
    {
        let ghost before = self@;
        let ghost words = word_views(transcription@);
        let mut i: usize = 0;
        assert(words.take(0) =~= Seq::<WordView>::empty());
        assert(self@ == before.enqueued(words.take(0)));
        while i < transcription.len()
            invariant
                i <= transcription.len(),
                words == word_views(transcription@),
                well_timed(words),
                self@ == before.enqueued(words.take(i as int)),
            decreases transcription.len() - i,
        {
            let item: &WordInfo = &transcription[i];
            assert(words[i as int] == item@);
            let discont: bool = self.send_discontinuity;
            if discont {
                self.send_discontinuity = false;
            }
            let buffer = Buffer {
                data: item.word.as_str().as_bytes_vec(),
                discont,
                pts: item.start,
                duration: item.end - item.start,
            };
            let ghost queued = buffer@;
            let ghost queue = buffer_views(self.buffers@);
            self.buffers.push_back(buffer);
            i = i + 1;
            proof {
                assert(queued == word_buffer(words[i - 1], discont));
                assert(buffer_views(self.buffers@) =~= queue.push(queued));
                assert(self@.buffers =~= before.enqueued(words.take(i as int)).buffers);
                assert(self@ == before.enqueued(words.take(i as int)));
            }
        }
        assert(words.take(words.len() as int) =~= words);
    }

    /// Records that the outgoing stream has been filled up to `position`.
    pub fn set_position(&mut self, position: u64)
        ensures
            final(self)@ == old(self)@.positioned(position as int),
    {
        self.out_position = position;
    }
}

} // verus!
