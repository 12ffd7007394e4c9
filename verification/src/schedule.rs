//! When queued words are pushed, and how the outgoing stream is filled.
//!
//! The outgoing stream is a timeline without holes: each word is pushed as a
//! buffer, and the time between words as gaps.
use std::collections::VecDeque;

use vstd::prelude::*;

use crate::relay::{advance, items_left, next_step, Step};
use crate::state::{buffer_views, Buffer, BufferView, State, StateView};
use crate::time::{later, monus, GRANULARITY, NONE};

verus! {

/// Something that is pushed on the outgoing stream.
#[derive(Debug, PartialEq, Eq)]
pub enum Output {
    /// Nothing is said from `start` on for `duration`.
    Gap { start: u64, duration: u64 },
    /// A word.
    Buffer(Buffer),
}

/// Something that is pushed on the outgoing stream, as a mathematical value.
#[verifier::ext_equal]
pub enum OutputView {
    Gap { start: int, duration: int },
    Buffer(BufferView),
}

impl View for Output {
    type V = OutputView;

    open spec fn view(&self) -> OutputView {
        match self {
            Output::Gap { start, duration } => OutputView::Gap {
                start: *start as int,
                duration: *duration as int,
            },
            Output::Buffer(buffer) => OutputView::Buffer(buffer@),
        }
    }
}

impl OutputView {
    /// When the stretch of the timeline that is filled starts.
    pub open spec fn start(self) -> int {
        match self {
            OutputView::Gap { start, duration } => start,
            OutputView::Buffer(b) => b.pts,
        }
    }

    /// When the stretch of the timeline that is filled ends.
    pub open spec fn end(self) -> int {
        match self {
            OutputView::Gap { start, duration } => start + duration,
            OutputView::Buffer(b) => b.end(),
        }
    }
}

/// The outputs of a sequence, as mathematical values.
pub open spec fn output_views(outputs: Seq<Output>) -> Seq<OutputView> {
    outputs.map_values(|o: Output| o@)
}

/// What one round of dequeuing pushes: the outputs in order, all gaps under one
/// sequence number, and the position that the outgoing stream has reached once
/// everything has been pushed.
pub struct Plan<Q> {
    pub outputs: VecDeque<Output>,
    pub position: u64,
    pub seqnum: Q,
}

/// Hands out the next output of a plan. `pushed` says whether the output before
/// could be pushed, or there was none: behind one that could not be, nothing
/// more is handed out.
pub fn next_output<Q>(plan: &mut Plan<Q>, pushed: bool) -> (step: Step<Output>)
    ensures
        step == next_step(old(plan).outputs@, pushed),
        final(plan).outputs@ == items_left(old(plan).outputs@, pushed),
        final(plan).position == old(plan).position,
        final(plan).seqnum == old(plan).seqnum,
{
    advance(&mut plan.outputs, pushed)
}

/// How far the presentation time of a word has to lie in the past for the word
/// to be pushed.
pub open spec fn due_margin(latency: int) -> int {
    monus(latency, 3 * GRANULARITY)
}

/// How far the outgoing stream may lag behind the running time.
pub open spec fn lag_margin(latency: int) -> int {
    monus(latency, GRANULARITY as int)
}

/// Whether a queued buffer is to be pushed at `now`, in a stream that started
/// at `start`.
pub open spec fn is_due(buffer: BufferView, start: int, now: int, latency: int) -> bool {
    buffer.pts + due_margin(latency) < now - start
}

/// How many buffers at the front of the queue are to be pushed: those before
/// the first one that is not due.
pub open spec fn due_count(buffers: Seq<BufferView>, start: int, now: int, latency: int) -> nat
    decreases buffers.len(),
{
    if buffers.len() > 0 && is_due(buffers[0], start, now, latency) {
        1 + due_count(buffers.skip(1), start, now, latency)
    } else {
        0
    }
}

/// The buffers, with presentation times that count from the start of the
/// stream.
pub open spec fn shifted(buffers: Seq<BufferView>, start: int) -> Seq<BufferView> {
    buffers.map_values(|b: BufferView| b.shifted(start))
}

/// The buffer without the part of it that lies before `position`.
pub open spec fn placed(buffer: BufferView, position: int) -> BufferView {
    if buffer.pts < position {
        BufferView {
            pts: position,
            duration: monus(buffer.duration, position - buffer.pts),
            ..buffer
        }
    } else {
        buffer
    }
}

/// What is pushed for one buffer when the stream is filled up to `position`:
/// a gap up to the buffer where there is room for one, and what is left of the
/// buffer.
pub open spec fn outputs_for(buffer: BufferView, position: int) -> Seq<OutputView> {
    if position < buffer.pts {
        seq![
            OutputView::Gap { start: position, duration: buffer.pts - position },
            OutputView::Buffer(buffer),
        ]
    } else {
        seq![OutputView::Buffer(placed(buffer, position))]
    }
}

/// Up to where the stream is filled once the buffers have been pushed.
pub open spec fn position_after(buffers: Seq<BufferView>, position: int) -> int
    decreases buffers.len(),
{
    if buffers.len() == 0 {
        position
    } else {
        later(position_after(buffers.drop_last(), position), buffers.last().end())
    }
}

/// What is pushed for the buffers when the stream is filled up to `position`.
pub open spec fn timeline(buffers: Seq<BufferView>, position: int) -> Seq<OutputView>
    decreases buffers.len(),
{
    if buffers.len() == 0 {
        Seq::empty()
    } else {
        timeline(buffers.drop_last(), position) + outputs_for(
            buffers.last(),
            position_after(buffers.drop_last(), position),
        )
    }
}

/// What is pushed at the end of a round: a gap where the stream lags too far
/// behind.
pub open spec fn catch_up(position: int, now: int, latency: int) -> Seq<OutputView> {
    if now > position + lag_margin(latency) {
        seq![OutputView::Gap { start: position, duration: now - lag_margin(latency) - position }]
    } else {
        Seq::empty()
    }
}

impl<G, Q, S, A> StateView<G, Q, S, A> {
    /// The running time at which the stream started, in a round at `now`.
    pub open spec fn start_at(self, now: int) -> int {
        match self.start_time {
            Some(start) => start,
            None => now,
        }
    }

    /// Up to where the stream is filled at the beginning of a round at `now`.
    pub open spec fn position_at(self, now: int) -> int {
        match self.start_time {
            Some(_) => self.out_position,
            None => now,
        }
    }

    /// How many buffers leave the queue in a round at `now`.
    pub open spec fn due_at(self, now: int, latency: int) -> nat {
        due_count(self.buffers, self.start_at(now), now, latency)
    }

    /// The buffers that leave the queue in a round at `now`, in order.
    pub open spec fn due_buffers(self, now: int, latency: int) -> Seq<BufferView> {
        shifted(self.buffers.take(self.due_at(now, latency) as int), self.start_at(now))
    }

    /// What a round at `now` pushes.
    pub open spec fn round_outputs(self, now: int, latency: int) -> Seq<OutputView> {
        let due = self.due_buffers(now, latency);
        timeline(due, self.position_at(now)) + catch_up(
            position_after(due, self.position_at(now)),
            now,
            latency,
        )
    }

    /// Up to where the stream is filled once a round at `now` has been pushed.
    pub open spec fn round_position(self, now: int, latency: int) -> int {
        later(
            position_after(self.due_buffers(now, latency), self.position_at(now)),
            now - lag_margin(latency),
        )
    }

    /// The state once the buffers of a round at `now` have left the queue.
    pub open spec fn dequeued(self, now: int, latency: int) -> Self {
        StateView {
            start_time: Some(self.start_at(now)),
            out_position: self.position_at(now),
            buffers: self.buffers.skip(self.due_at(now, latency) as int),
            ..self
        }
    }

    /// Whether all the times of a round at `now` can be represented.
    pub open spec fn round_fits(self, now: int, latency: int) -> bool {
        let start = self.start_at(now);
        let due = self.due_at(now, latency);
        &&& self.position_at(now) != NONE
        &&& self.position_at(now) + lag_margin(latency) <= u64::MAX
        &&& self.buffers.len() > 0 ==> start <= now
        &&& forall|i: int|
            0 <= i <= due && i < self.buffers.len() ==> {
                &&& (#[trigger] self.buffers[i]).pts != NONE
                &&& self.buffers[i].pts + due_margin(latency) <= u64::MAX
            }
        &&& forall|i: int|
            0 <= i < due ==> {
                &&& (#[trigger] self.buffers[i]).duration != NONE
                &&& start + self.buffers[i].end() + lag_margin(latency) <= u64::MAX
            }
    }
}

/// The characterisation of `due_count`: the buffers before it are due, the one
/// at it is not.
pub proof fn lemma_due_count(buffers: Seq<BufferView>, start: int, now: int, latency: int)
    ensures
        due_count(buffers, start, now, latency) <= buffers.len(),
        forall|i: int|
            0 <= i < due_count(buffers, start, now, latency) ==> is_due(
                #[trigger] buffers[i],
                start,
                now,
                latency,
            ),
        due_count(buffers, start, now, latency) < buffers.len() ==> !is_due(
            buffers[due_count(buffers, start, now, latency) as int],
            start,
            now,
            latency,
        ),
    decreases buffers.len(),
{
    if buffers.len() > 0 && is_due(buffers[0], start, now, latency) {
        let rest = buffers.skip(1);
        lemma_due_count(rest, start, now, latency);
        assert forall|i: int| 0 <= i < due_count(buffers, start, now, latency) implies is_due(
            #[trigger] buffers[i],
            start,
            now,
            latency,
        ) by {
            if i > 0 {
                assert(rest[i - 1] == buffers[i]);
            }
        }
    }
}

/// Pushes one buffer behind `outputs`, on a stream that is filled up to
/// `position`. Returns up to where the stream is filled after it.
fn push_buffer(outputs: &mut VecDeque<Output>, buffer: Buffer, position: u64) -> (reached: u64)
    requires
        buffer@.end() <= u64::MAX,
    ensures
        output_views(final(outputs)@) == output_views(old(outputs)@) + outputs_for(
            buffer@,
            position as int,
        ),
        reached == later(position as int, buffer@.end()),
{
    let mut buffer = buffer;
    let ghost given = buffer@;
    if buffer.pts > position {
        outputs.push_back(Output::Gap { start: position, duration: buffer.pts - position });
    } else if buffer.pts < position {
        let delta: u64 = position - buffer.pts;
        buffer.pts = position;
        buffer.duration = buffer.duration.saturating_sub(delta);
        assert(buffer@ == placed(given, position as int));
    }
    let reached: u64 = buffer.pts + buffer.duration;
    outputs.push_back(Output::Buffer(buffer));
    assert(output_views(outputs@) =~= output_views(old(outputs)@) + outputs_for(
        given,
        position as int,
    ));
    reached
}

impl<G, Q: Copy, S, A> State<G, Q, S, A> {
    /// Whether all the times of a round at `now` can be represented.
    pub fn can_dequeue(&self, now: u64, latency: u64) -> (fits: bool)
        ensures
            fits == self@.round_fits(now as int, latency as int),
    {
        let ghost queue = self@.buffers;
        let ghost n = now as int;
        let ghost l = latency as int;
        let start: u64 = match self.start_time {
            Some(start) => start,
            None => now,
        };
        let position: u64 = match self.start_time {
            Some(_) => self.out_position,
            None => now,
        };
        let wait: u64 = latency.saturating_sub(3 * GRANULARITY);
        let lag: u64 = latency.saturating_sub(GRANULARITY);
        if position == NONE || position > u64::MAX - lag {
            return false;
        }
        if self.buffers.len() > 0 && start > now {
            return false;
        }
        let ghost due = self@.due_at(n, l);
        let mut i: usize = 0;
        proof {
            lemma_due_count(queue, start as int, n, l);
            assert(queue.skip(0) =~= queue);
        }
        while i < self.buffers.len()
            invariant
                n == now,
                l == latency,
                queue == self@.buffers,
                start == self@.start_at(n),
                position == self@.position_at(n),
                wait == due_margin(l),
                lag == lag_margin(l),
                position != NONE,
                position + lag <= u64::MAX,
                self.buffers.len() > 0 ==> start <= now,
                due == self@.due_at(n, l),
                i <= due <= queue.len(),
                due == i + due_count(queue.skip(i as int), start as int, n, l),
                forall|j: int|
                    0 <= j < i ==> {
                        &&& (#[trigger] queue[j]).pts != NONE
                        &&& queue[j].pts + wait <= u64::MAX
                        &&& queue[j].duration != NONE
                        &&& start + queue[j].end() + lag <= u64::MAX
                    },
            ensures
                i == due,
                due < queue.len() ==> queue[due as int].pts != NONE && queue[due as int].pts + wait
                    <= u64::MAX,
            decreases self.buffers.len() - i,
        {
            let ghost rest = queue.skip(i as int);
            assert(rest[0] == queue[i as int]);
            assert(queue[i as int] == self.buffers@[i as int]@);
            let pts: u64 = self.buffers[i].pts;
            let duration: u64 = self.buffers[i].duration;
            if pts == NONE || pts > u64::MAX - wait {
                return false;
            }
            if !(pts + wait < now - start) {
                break;
            }
            if duration == NONE || duration > u64::MAX - lag || start + pts > u64::MAX - lag
                - duration {
                return false;
            }
            assert(rest.skip(1) =~= queue.skip(i + 1));
            i = i + 1;
        }
        true
    }

    /// Takes the buffers that are due at the running time `now` out of the
    /// queue, and plans what is pushed for them. The first round fixes the
    /// start of the stream.
    pub fn dequeue(&mut self, now: u64, latency: u64) -> (plan: Plan<Q>)
        requires
            old(self)@.round_fits(now as int, latency as int),
        ensures
            final(self)@ == old(self)@.dequeued(now as int, latency as int),
            output_views(plan.outputs@) == old(self)@.round_outputs(now as int, latency as int),
            plan.position == old(self)@.round_position(now as int, latency as int),
            plan.seqnum == old(self)@.seqnum,
    {
        let ghost before = self@;
        let ghost queue = self@.buffers;
        let ghost n = now as int;
        let ghost l = latency as int;
        let ghost due = before.due_at(n, l);
        let start: u64 = match self.start_time {
            Some(start) => start,
            None => {
                self.start_time = Some(now);
                self.out_position = now;
                now
            },
        };
        let mut position: u64 = self.out_position;
        let wait: u64 = latency.saturating_sub(3 * GRANULARITY);
        let mut outputs: VecDeque<Output> = VecDeque::new();
        let ghost mut taken: int = 0;
        proof {
            lemma_due_count(queue, start as int, n, l);
            assert(queue.skip(0) =~= queue);
            assert(shifted(queue.take(0), start as int) =~= Seq::<BufferView>::empty());
            assert(output_views(outputs@) =~= Seq::<OutputView>::empty());
        }
        while self.buffers.len() > 0
            invariant
                before.round_fits(n, l),
                n == now,
                l == latency,
                queue == before.buffers,
                start == before.start_at(n),
                due == before.due_at(n, l),
                wait == due_margin(l),
                0 <= taken <= due <= queue.len(),
                buffer_views(self.buffers@) == queue.skip(taken),
                due == taken + due_count(queue.skip(taken), start as int, n, l),
                self@ == (StateView {
                    start_time: Some(start as int),
                    out_position: before.position_at(n),
                    buffers: queue.skip(taken),
                    ..before
                }),
                position == position_after(
                    shifted(queue.take(taken), start as int),
                    before.position_at(n),
                ),
                output_views(outputs@) == timeline(
                    shifted(queue.take(taken), start as int),
                    before.position_at(n),
                ),
                forall|i: int| 0 <= i < due ==> is_due(#[trigger] queue[i], start as int, n, l),
                position + lag_margin(l) <= u64::MAX,
            ensures
                taken == due,
            decreases self.buffers.len(),
        {
            let ghost rest = queue.skip(taken);
            assert(rest[0] == self.buffers@[0]@);
            assert(rest[0] == queue[taken]);
            let pts: u64 = self.buffers[0].pts;
            if !(pts + wait < now - start) {
                break;
            }
            let mut buffer: Buffer = match self.buffers.pop_front() {
                Some(buffer) => buffer,
                None => {
                    break;
                },
            };
            buffer.pts = start + pts;
            let ghost item = buffer@;
            position = push_buffer(&mut outputs, buffer, position);
            proof {
                assert(buffer_views(self.buffers@) =~= rest.skip(1));
                assert(rest.skip(1) =~= queue.skip(taken + 1));
                let items = shifted(queue.take(taken + 1), start as int);
                assert(item == queue[taken].shifted(start as int));
                assert(items.last() == item);
                assert(items.drop_last() =~= shifted(queue.take(taken), start as int));
                taken = taken + 1;
            }
        }
        let lag: u64 = latency.saturating_sub(GRANULARITY);
        if now > position + lag {
            let duration: u64 = now - position - lag;
            outputs.push_back(Output::Gap { start: position, duration });
            position = position + duration;
        }
        assert(output_views(outputs@) =~= before.round_outputs(n, l));
        Plan { outputs, position, seqnum: self.seqnum }
    }
}

} // verus!
