//! What holds of the element as a whole.
use vstd::math::max;
use vstd::prelude::*;
use vstd::utf8::encode_utf8;

use crate::control::{
    first_reception, flow_of, opening_events, reception_after, reception_of, FlowError, Incoming,
    Reception, Response, SinkEvent,
};
use crate::packets::{
    chunk, chunk_count, chunks, messages_for, outcome_of, send_delay, sendable, AudioBuffer,
    MessageView, CHUNK_SIZE,
};
use crate::relay::{completes, handed_out};
use crate::schedule::{
    catch_up, due_count, due_margin, is_due, lag_margin, lemma_due_count, outputs_for, placed,
    position_after, timeline, OutputView,
};
use crate::settings::{milliseconds, Property, SettingsView};
use crate::state::{word_buffers, BufferView, State, StateView};
use crate::time::{later, GRANULARITY};
use crate::vosk_client::{well_timed, word_views, Configuration, WordView};

verus! {

/// Whether the outputs fill the timeline between two times: each one starts
/// where the one before it ends.
pub open spec fn fills(outputs: Seq<OutputView>, from: int, to: int) -> bool {
    &&& outputs.len() == 0 ==> from == to
    &&& outputs.len() > 0 ==> outputs[0].start() == from && outputs.last().end() == to
    &&& forall|i: int|
        0 <= i < outputs.len() ==> (#[trigger] outputs[i]).start() <= outputs[i].end()
    &&& forall|i: int, j: int|
        0 <= i && j == i + 1 && j < outputs.len() ==> (#[trigger] outputs[i]).end() == (
        #[trigger] outputs[j]).start()
}

/// The words among the outputs, in order.
pub open spec fn words_of(outputs: Seq<OutputView>) -> Seq<BufferView>
    decreases outputs.len(),
{
    if outputs.len() == 0 {
        Seq::empty()
    } else {
        match outputs.last() {
            OutputView::Gap { .. } => words_of(outputs.drop_last()),
            OutputView::Buffer(buffer) => words_of(outputs.drop_last()).push(buffer),
        }
    }
}

/// Whether no buffer ends before it starts.
pub open spec fn in_time(buffers: Seq<BufferView>) -> bool {
    forall|i: int| 0 <= i < buffers.len() ==> (#[trigger] buffers[i]).duration >= 0
}

impl<G, Q, S, A> StateView<G, Q, S, A> {
    /// Whether the handle of the receiving task is held exactly while there is
    /// a connection.
    pub open spec fn coherent(self) -> bool {
        self.connected <==> self.recv_abort_handle is Some
    }

    /// Whether the other state has the same connection, with the same handle, or
    /// none as well.
    pub open spec fn same_connection(self, other: Self) -> bool {
        &&& other.connected == self.connected
        &&& other.recv_abort_handle == self.recv_abort_handle
    }

    /// The state once a round at `now` has been pushed.
    pub open spec fn after_round(self, now: int, latency: int) -> Self {
        self.dequeued(now, latency).positioned(self.round_position(now, latency))
    }
}

/// In every state, no queued buffer ends before it starts.
pub proof fn law_queued_words_are_in_time<G, Q, S, A>(state: State<G, Q, S, A>)
    ensures
        in_time(state@.buffers),
{
}

proof fn lemma_fills_join(a: Seq<OutputView>, b: Seq<OutputView>, from: int, mid: int, to: int)
    requires
        fills(a, from, mid),
        fills(b, mid, to),
    ensures
        fills(a + b, from, to),
{
    let c = a + b;
    if b.len() > 0 {
        assert(c.last() == b.last());
    } else {
        assert(c =~= a);
    }
    assert forall|i: int, j: int| 0 <= i && j == i + 1 && j < c.len() implies (
    #[trigger] c[i]).end() == (#[trigger] c[j]).start() by {
        if j < a.len() {
            assert(a[i].end() == a[j].start());
        } else if i >= a.len() {
            assert(b[i - a.len()].end() == b[j - a.len()].start());
        } else {
            assert(a.last() == c[i]);
            assert(b[0] == c[j]);
        }
    }
    assert forall|i: int| 0 <= i < c.len() implies (#[trigger] c[i]).start() <= c[i].end() by {
        if i < a.len() {
            assert(c[i] == a[i]);
        } else {
            assert(c[i] == b[i - a.len()]);
        }
    }
}

proof fn lemma_timeline_fills(buffers: Seq<BufferView>, position: int)
    requires
        in_time(buffers),
    ensures
        fills(timeline(buffers, position), position, position_after(buffers, position)),
        position <= position_after(buffers, position),
    decreases buffers.len(),
{
    if buffers.len() > 0 {
        let init = buffers.drop_last();
        let mid = position_after(init, position);
        lemma_timeline_fills(init, position);
        assert(buffers.last() == buffers[buffers.len() - 1]);
        let outputs = outputs_for(buffers.last(), mid);
        assert(fills(outputs, mid, position_after(buffers, position)));
        lemma_fills_join(
            timeline(init, position),
            outputs,
            position,
            mid,
            position_after(buffers, position),
        );
    }
}

/// The outgoing stream has no holes and no overlaps: what a round pushes fills
/// the timeline from where the stream had got to up to where the round says it
/// has got to.
pub proof fn law_round_has_no_holes<G, Q, S, A>(
    state: StateView<G, Q, S, A>,
    now: int,
    latency: int,
)
    requires
        in_time(state.buffers),
    ensures
        fills(
            state.round_outputs(now, latency),
            state.position_at(now),
            state.round_position(now, latency),
        ),
{
    let due = state.due_buffers(now, latency);
    lemma_due_count(state.buffers, state.start_at(now), now, latency);
    assert(in_time(due));
    lemma_timeline_fills(due, state.position_at(now));
    let mid = position_after(due, state.position_at(now));
    assert(fills(catch_up(mid, now, latency), mid, state.round_position(now, latency)));
    lemma_fills_join(
        timeline(due, state.position_at(now)),
        catch_up(mid, now, latency),
        state.position_at(now),
        mid,
        state.round_position(now, latency),
    );
}

/// The position of the outgoing stream never goes back, and after a round it
/// does not lag behind the running time by more than the latency, less the
/// interval at which rounds are made.
pub proof fn law_stream_keeps_up<G, Q, S, A>(state: StateView<G, Q, S, A>, now: int, latency: int)
    requires
        in_time(state.buffers),
    ensures
        state.position_at(now) <= state.round_position(now, latency),
        now - state.round_position(now, latency) <= lag_margin(latency),
{
    lemma_due_count(state.buffers, state.start_at(now), now, latency);
    assert(in_time(state.due_buffers(now, latency)));
    lemma_timeline_fills(state.due_buffers(now, latency), state.position_at(now));
}

proof fn lemma_words_join(a: Seq<OutputView>, b: Seq<OutputView>)
    ensures
        words_of(a + b) == words_of(a) + words_of(b),
    decreases b.len(),
{
    if b.len() == 0 {
        assert(a + b =~= a);
        assert(words_of(a) + words_of(b) =~= words_of(a));
    } else {
        assert((a + b).last() == b.last());
        assert((a + b).drop_last() =~= a + b.drop_last());
        lemma_words_join(a, b.drop_last());
        assert(words_of(a + b) =~= words_of(a) + words_of(b));
    }
}

proof fn lemma_words_of_timeline(buffers: Seq<BufferView>, position: int)
    ensures
        words_of(timeline(buffers, position)) == Seq::new(
            buffers.len(),
            |i: int| placed(buffers[i], position_after(buffers.take(i), position)),
        ),
    decreases buffers.len(),
{
    let words = |bs: Seq<BufferView>|
        Seq::new(bs.len(), |i: int| placed(bs[i], position_after(bs.take(i), position)));
    if buffers.len() > 0 {
        let init = buffers.drop_last();
        let mid = position_after(init, position);
        lemma_words_of_timeline(init, position);
        let outputs = outputs_for(buffers.last(), mid);
        lemma_words_join(timeline(init, position), outputs);
        reveal_with_fuel(words_of, 3);
        if mid < buffers.last().pts {
            assert(outputs.drop_last().drop_last() =~= Seq::<OutputView>::empty());
        } else {
            assert(outputs.drop_last() =~= Seq::<OutputView>::empty());
        }
        assert(words_of(outputs) =~= seq![placed(buffers.last(), mid)]);
        assert forall|i: int| 0 <= i < init.len() implies init.take(i) == buffers.take(i) by {
            assert(init.take(i) =~= buffers.take(i));
        }
        assert(init =~= buffers.take(buffers.len() - 1));
        assert(words(init) + seq![placed(buffers.last(), mid)] =~= words(buffers));
    }
}

proof fn lemma_words_of_round<G, Q, S, A>(state: StateView<G, Q, S, A>, now: int, latency: int)
    ensures
        ({
            let buffers = state.due_buffers(now, latency);
            words_of(state.round_outputs(now, latency)) == Seq::new(
                buffers.len(),
                |i: int|
                    placed(buffers[i], position_after(buffers.take(i), state.position_at(now))),
            )
        }),
{
    let buffers = state.due_buffers(now, latency);
    let position = state.position_at(now);
    lemma_words_of_timeline(buffers, position);
    let gap = catch_up(position_after(buffers, position), now, latency);
    lemma_words_join(timeline(buffers, position), gap);
    reveal_with_fuel(words_of, 2);
    if gap.len() > 0 {
        assert(gap.drop_last() =~= Seq::<OutputView>::empty());
    }
    assert(words_of(gap) =~= Seq::<BufferView>::empty());
    assert(words_of(state.round_outputs(now, latency)) =~= words_of(timeline(buffers, position)));
}

/// No word is dropped, repeated or reordered: a round pushes exactly the words
/// at the front of the queue that are due, in their order and unchanged but for
/// their times, and all others stay queued.
pub proof fn law_no_word_is_lost<G, Q, S, A>(state: StateView<G, Q, S, A>, now: int, latency: int)
    ensures
        ({
            let due = state.due_at(now, latency) as int;
            let words = words_of(state.round_outputs(now, latency));
            &&& due <= state.buffers.len()
            &&& words.len() == due
            &&& state.buffers.take(due) + state.after_round(now, latency).buffers == state.buffers
            &&& forall|i: int|
                0 <= i < due ==> (#[trigger] words[i]).data == state.buffers[i].data
                    && words[i].discont == state.buffers[i].discont
        }),
{
    let due = state.due_at(now, latency) as int;
    lemma_due_count(state.buffers, state.start_at(now), now, latency);
    lemma_words_of_round(state, now, latency);
    assert(state.buffers.take(due) + state.buffers.skip(due) =~= state.buffers);
}

/// What happens to the queue over some time: words arrive, and a round is made.
pub struct Round {
    pub words: Seq<WordView>,
    pub now: int,
    pub latency: int,
}

/// The state after the rounds, everything in them having been pushed.
pub open spec fn state_after<G, Q, S, A>(
    state: StateView<G, Q, S, A>,
    rounds: Seq<Round>,
) -> StateView<G, Q, S, A>
    decreases rounds.len(),
{
    if rounds.len() == 0 {
        state
    } else {
        let round = rounds.last();
        state_after(state, rounds.drop_last()).enqueued(round.words).after_round(
            round.now,
            round.latency,
        )
    }
}

/// Everything that the rounds push, in order.
pub open spec fn outputs_of<G, Q, S, A>(
    state: StateView<G, Q, S, A>,
    rounds: Seq<Round>,
) -> Seq<OutputView>
    decreases rounds.len(),
{
    if rounds.len() == 0 {
        Seq::empty()
    } else {
        let round = rounds.last();
        outputs_of(state, rounds.drop_last()) + state_after(state, rounds.drop_last()).enqueued(
            round.words,
        ).round_outputs(round.now, round.latency)
    }
}

/// The words that arrive in the rounds, in order.
pub open spec fn words_in(rounds: Seq<Round>) -> Seq<WordView>
    decreases rounds.len(),
{
    if rounds.len() == 0 {
        Seq::empty()
    } else {
        words_in(rounds.drop_last()) + rounds.last().words
    }
}

/// The texts of the buffers.
pub open spec fn texts(buffers: Seq<BufferView>) -> Seq<Seq<u8>> {
    buffers.map_values(|b: BufferView| b.data)
}

/// The texts of the words.
pub open spec fn word_texts(words: Seq<WordView>) -> Seq<Seq<u8>> {
    words.map_values(|w: WordView| encode_utf8(w.word))
}

/// However many rounds are made, and whatever words arrive before each, the
/// outgoing stream never gets holes or overlaps.
pub proof fn law_stream_has_no_holes<G, Q, S, A>(
    state: StateView<G, Q, S, A>,
    rounds: Seq<Round>,
)
    requires
        rounds.len() > 0,
        in_time(state.buffers),
        forall|i: int| 0 <= i < rounds.len() ==> well_timed((#[trigger] rounds[i]).words),
    ensures
        fills(
            outputs_of(state, rounds),
            state.position_at(rounds[0].now),
            state_after(state, rounds).out_position,
        ),
        state_after(state, rounds).start_time == Some(state.start_at(rounds[0].now)),
        in_time(state_after(state, rounds).buffers),
    decreases rounds.len(),
{
    let init = rounds.drop_last();
    let round = rounds.last();
    let before = state_after(state, init);
    let queued = before.enqueued(round.words);
    assert forall|i: int| 0 <= i < init.len() implies well_timed(
        (#[trigger] init[i]).words,
    ) by {
        assert(init[i] == rounds[i]);
    }
    if init.len() > 0 {
        law_stream_has_no_holes(state, init);
        assert(init[0] == rounds[0]);
    }
    assert(well_timed(rounds[rounds.len() - 1].words));
    assert forall|i: int| 0 <= i < queued.buffers.len() implies (
    #[trigger] queued.buffers[i]).duration >= 0 by {
        if i < before.buffers.len() {
            assert(queued.buffers[i] == before.buffers[i]);
        } else {
            let word = round.words[i - before.buffers.len()];
            assert(queued.buffers[i].duration == word.end - word.start);
        }
    }
    law_round_has_no_holes(queued, round.now, round.latency);
    lemma_due_count(queued.buffers, queued.start_at(round.now), round.now, round.latency);
    lemma_fills_join(
        outputs_of(state, init),
        queued.round_outputs(round.now, round.latency),
        state.position_at(rounds[0].now),
        queued.position_at(round.now),
        state_after(state, rounds).out_position,
    );
}

/// However many rounds are made, every word that was queued or arrived has been
/// pushed or is still queued, once and in its order.
pub proof fn law_words_come_out_in_order<G, Q, S, A>(
    state: StateView<G, Q, S, A>,
    rounds: Seq<Round>,
)
    ensures
        texts(words_of(outputs_of(state, rounds))) + texts(state_after(state, rounds).buffers)
            == texts(state.buffers) + word_texts(words_in(rounds)),
    decreases rounds.len(),
{
    if rounds.len() == 0 {
        assert(texts(words_of(outputs_of(state, rounds))) =~= Seq::<Seq<u8>>::empty());
        assert(word_texts(words_in(rounds)) =~= Seq::<Seq<u8>>::empty());
        assert(texts(words_of(outputs_of(state, rounds))) + texts(state.buffers) =~= texts(
            state.buffers,
        ) + word_texts(words_in(rounds)));
    } else {
        let init = rounds.drop_last();
        let round = rounds.last();
        law_words_come_out_in_order(state, init);
        let before = state_after(state, init);
        let queued = before.enqueued(round.words);
        let pushed = words_of(queued.round_outputs(round.now, round.latency));
        let rest = state_after(state, rounds).buffers;
        let earlier = words_of(outputs_of(state, init));
        law_no_word_is_lost(queued, round.now, round.latency);
        lemma_words_join(
            outputs_of(state, init),
            queued.round_outputs(round.now, round.latency),
        );
        let due = queued.due_at(round.now, round.latency) as int;
        assert(texts(pushed) =~= texts(queued.buffers.take(due)));
        assert(texts(pushed) + texts(rest) =~= texts(queued.buffers));
        assert(texts(queued.buffers) =~= texts(before.buffers) + word_texts(round.words));
        assert(texts(earlier + pushed) =~= texts(earlier) + texts(pushed));
        assert(word_texts(words_in(rounds)) =~= word_texts(words_in(init)) + word_texts(
            round.words,
        ));
        assert(texts(earlier + pushed) + texts(rest) =~= texts(earlier) + (texts(pushed) + texts(
            rest,
        )));
        assert(texts(earlier) + (texts(before.buffers) + word_texts(round.words)) =~= (texts(
            earlier,
        ) + texts(before.buffers)) + word_texts(round.words));
        assert((texts(state.buffers) + word_texts(words_in(init))) + word_texts(round.words)
            =~= texts(state.buffers) + (word_texts(words_in(init)) + word_texts(round.words)));
    }
}

/// Whether no gap is empty, and none comes right behind another.
pub open spec fn spaced(outputs: Seq<OutputView>) -> bool {
    &&& forall|i: int|
        0 <= i < outputs.len() && (#[trigger] outputs[i]) is Gap ==> outputs[i].start()
            < outputs[i].end()
    &&& forall|i: int, j: int|
        0 <= i && j == i + 1 && j < outputs.len() ==> (#[trigger] outputs[i]) is Buffer || (
        #[trigger] outputs[j]) is Buffer
}

proof fn lemma_timeline_is_spaced(buffers: Seq<BufferView>, position: int)
    ensures
        spaced(timeline(buffers, position)),
        buffers.len() == 0 <==> timeline(buffers, position).len() == 0,
        buffers.len() > 0 ==> timeline(buffers, position).last() is Buffer,
    decreases buffers.len(),
{
    if buffers.len() > 0 {
        let init = timeline(buffers.drop_last(), position);
        let mid = position_after(buffers.drop_last(), position);
        let next = outputs_for(buffers.last(), mid);
        let all = timeline(buffers, position);
        lemma_timeline_is_spaced(buffers.drop_last(), position);
        assert(all == init + next);
        assert(all.last() == next.last());
        assert forall|i: int| 0 <= i < all.len() && (
        #[trigger] all[i]) is Gap implies all[i].start() < all[i].end() by {
            if i < init.len() {
                assert(all[i] == init[i]);
            } else {
                assert(all[i] == next[i - init.len()]);
            }
        }
        assert forall|i: int, j: int| 0 <= i && j == i + 1 && j < all.len() implies (
        #[trigger] all[i]) is Buffer || (#[trigger] all[j]) is Buffer by {
            if j < init.len() {
                assert(init[i] is Buffer || init[j] is Buffer);
            } else if i < init.len() {
                assert(init.last() == all[i]);
            }
        }
    }
}

proof fn lemma_round_is_spaced<G, Q, S, A>(state: StateView<G, Q, S, A>, now: int, latency: int)
    ensures
        ({
            let outputs = state.round_outputs(now, latency);
            let end = position_after(state.due_buffers(now, latency), state.position_at(now));
            &&& spaced(outputs)
            &&& outputs.len() > 0 && outputs.last() is Gap <==> now - end > lag_margin(latency)
        }),
{
    let due = state.due_buffers(now, latency);
    let from = state.position_at(now);
    let pushed = timeline(due, from);
    let gap = catch_up(position_after(due, from), now, latency);
    let outputs = state.round_outputs(now, latency);
    lemma_timeline_is_spaced(due, from);
    assert(outputs == pushed + gap);
    if gap.len() > 0 {
        assert(outputs.last() == gap[0]);
    } else {
        assert(outputs =~= pushed);
    }
    assert forall|i: int| 0 <= i < outputs.len() && (
    #[trigger] outputs[i]) is Gap implies outputs[i].start() < outputs[i].end() by {
        if i < pushed.len() {
            assert(outputs[i] == pushed[i]);
        }
    }
    assert forall|i: int, j: int| 0 <= i && j == i + 1 && j < outputs.len() implies (
    #[trigger] outputs[i]) is Buffer || (#[trigger] outputs[j]) is Buffer by {
        if j < pushed.len() {
            assert(pushed[i] is Buffer || pushed[j] is Buffer);
        } else {
            assert(pushed.last() == outputs[i]);
        }
    }
}

proof fn lemma_times_of_round<G, Q, S, A>(state: StateView<G, Q, S, A>, now: int, latency: int)
    requires
        in_time(state.buffers),
    ensures
        ({
            let start = state.start_at(now);
            let from = state.position_at(now);
            let words = words_of(state.round_outputs(now, latency));
            &&& forall|i: int|
                0 <= i < words.len() ==> {
                    let before = if i == 0 {
                        from
                    } else {
                        words[i - 1].pts + words[i - 1].duration
                    };
                    &&& (#[trigger] words[i]).pts == max(before, start + state.buffers[i].pts)
                    &&& words[i].pts + words[i].duration == max(
                        before,
                        start + state.buffers[i].pts + state.buffers[i].duration,
                    )
                }
            &&& position_after(state.due_buffers(now, latency), from) == if words.len() > 0 {
                words[words.len() - 1].pts + words[words.len() - 1].duration
            } else {
                from
            }
        }),
{
    let start = state.start_at(now);
    let from = state.position_at(now);
    let due = state.due_buffers(now, latency);
    let words = words_of(state.round_outputs(now, latency));
    let n = words.len() as int;
    lemma_due_count(state.buffers, start, now, latency);
    lemma_words_of_round(state, now, latency);
    assert(due.take(n) =~= due);
    assert(due.take(0) =~= Seq::<BufferView>::empty());
    assert forall|i: int| 0 <= i < n implies {
        let before = position_after(due.take(i), from);
        &&& (#[trigger] words[i]).pts == max(before, start + state.buffers[i].pts)
        &&& words[i].pts + words[i].duration == max(
            before,
            start + state.buffers[i].pts + state.buffers[i].duration,
        )
        &&& words[i].pts + words[i].duration == position_after(due.take(i + 1), from)
    } by {
        assert(due[i] == state.buffers[i].shifted(start));
        assert(state.buffers[i].duration >= 0);
        assert(due.take(i + 1).drop_last() =~= due.take(i));
        assert(due.take(i + 1).last() == due[i]);
    }
    assert forall|i: int| 0 < i <= n implies position_after(due.take(i), from) == (
    #[trigger] words[i - 1]).pts + words[i - 1].duration by {}
}

/// However long the latency is, it counts in full: a word is due exactly if its
/// presentation time lies more than the latency, less 300 ms, in the past. A gap
/// is pushed to catch up exactly if the stream lags behind by more than the
/// latency, less 100 ms, and it ends at just that distance from the running
/// time.
pub proof fn law_latency_counts_in_full(
    buffer: BufferView,
    start: int,
    position: int,
    now: int,
    latency: int,
)
    requires
        latency >= 300_000_000,
    ensures
        is_due(buffer, start, now, latency) <==> now - start - buffer.pts > latency - 300_000_000,
        ({
            let outputs = catch_up(position, now, latency);
            &&& outputs.len() == if now - position > latency - 100_000_000 {
                1int
            } else {
                0
            }
            &&& outputs.len() > 0 ==> {
                &&& outputs[0] is Gap
                &&& outputs[0].start() == position
                &&& outputs[0].end() == now - (latency - 100_000_000)
            }
        }),
{
}

/// A round pushes the words at the front of the queue whose presentation time
/// lies more than the latency, less 300 ms, in the past, and no word behind one
/// that does not. Each word keeps its text and starts at its own time, or where
/// the one before it ends if that is later; it ends at its own time, or where it
/// starts if that is later. What lies between is filled with gaps, no more of
/// them than needed. A gap comes last exactly if the stream still lags behind
/// the running time by more than the latency, less 100 ms, and it takes the
/// stream to just that distance. What is not pushed stays queued, and the first
/// round fixes the start of the stream.
#[verifier::spinoff_prover]
pub proof fn law_round_in_full<G, Q, S, A>(state: StateView<G, Q, S, A>, now: int, latency: int)
    requires
        in_time(state.buffers),
        0 <= latency,
    ensures
        ({
            let start = if state.start_time is Some {
                state.start_time->0
            } else {
                now
            };
            let from = if state.start_time is Some {
                state.out_position
            } else {
                now
            };
            let wait = if latency >= 300_000_000 {
                latency - 300_000_000
            } else {
                0
            };
            let lag = if latency >= 100_000_000 {
                latency - 100_000_000
            } else {
                0
            };
            let queue = state.buffers;
            let outputs = state.round_outputs(now, latency);
            let words = words_of(outputs);
            let n = words.len() as int;
            let end = if n > 0 {
                words[n - 1].pts + words[n - 1].duration
            } else {
                from
            };
            let to = state.round_position(now, latency);
            &&& n <= queue.len()
            &&& forall|i: int| 0 <= i < n ==> now - start - (#[trigger] queue[i]).pts > wait
            &&& n < queue.len() ==> now - start - queue[n].pts <= wait
            &&& forall|i: int|
                0 <= i < n ==> {
                    let before = if i == 0 {
                        from
                    } else {
                        words[i - 1].pts + words[i - 1].duration
                    };
                    &&& (#[trigger] words[i]).data == queue[i].data
                    &&& words[i].discont == queue[i].discont
                    &&& words[i].pts == max(before, start + queue[i].pts)
                    &&& words[i].pts + words[i].duration == max(
                        before,
                        start + queue[i].pts + queue[i].duration,
                    )
                }
            &&& fills(outputs, from, to)
            &&& spaced(outputs)
            &&& outputs.len() > 0 && outputs.last() is Gap <==> now - end > lag
            &&& now - end > lag ==> to == now - lag
            &&& now - end <= lag ==> to == end
            &&& state.dequeued(now, latency) == (StateView {
                start_time: Some(start),
                out_position: from,
                buffers: queue.skip(n),
                ..state
            })
        }),
{
    lemma_due_count(state.buffers, state.start_at(now), now, latency);
    law_round_has_no_holes(state, now, latency);
    law_no_word_is_lost(state, now, latency);
    lemma_times_of_round(state, now, latency);
    lemma_round_is_spaced(state, now, latency);
}

/// Whether the words in front of the one at `i` have all waited for more than
/// `wait`.
pub open spec fn reached(
    queue: Seq<BufferView>,
    start: int,
    now: int,
    wait: int,
    i: int,
) -> bool {
    forall|j: int| 0 <= j < i ==> now - start - (#[trigger] queue[j]).pts > wait
}

/// Whether the position is a time and can be moved by the latency, less 100 ms;
/// the running time has not gone back behind the start of the stream while words
/// are queued; each word that a round looks at has a time that can be moved by
/// the latency, less 300 ms; and each word that it pushes has a duration, and an
/// end that can be moved by the latency, less 100 ms.
pub open spec fn times_fit<G, Q, S, A>(
    state: StateView<G, Q, S, A>,
    now: int,
    latency: int,
) -> bool {
    let start = if state.start_time is Some {
        state.start_time->0
    } else {
        now
    };
    let from = if state.start_time is Some {
        state.out_position
    } else {
        now
    };
    let wait = if latency >= 300_000_000 {
        latency - 300_000_000
    } else {
        0
    };
    let lag = if latency >= 100_000_000 {
        latency - 100_000_000
    } else {
        0
    };
    let queue = state.buffers;
    &&& from != 0xffff_ffff_ffff_ffff
    &&& from + lag <= 0xffff_ffff_ffff_ffff
    &&& queue.len() == 0 || start <= now
    &&& forall|i: int|
        0 <= i < queue.len() && reached(queue, start, now, wait, i) ==> {
            &&& (#[trigger] queue[i]).pts != 0xffff_ffff_ffff_ffff
            &&& queue[i].pts + wait <= 0xffff_ffff_ffff_ffff
        }
    &&& forall|i: int|
        0 <= i < queue.len() && reached(queue, start, now, wait, i + 1) ==> {
            &&& (#[trigger] queue[i]).duration != 0xffff_ffff_ffff_ffff
            &&& start + queue[i].pts + queue[i].duration + lag <= 0xffff_ffff_ffff_ffff
        }
}

/// A round can be made whenever its sums fit, however long the latency is, and
/// in no other case.
pub proof fn law_rounds_that_fit<G, Q, S, A>(state: StateView<G, Q, S, A>, now: int, latency: int)
    requires
        0 <= latency,
    ensures
        state.round_fits(now, latency) <==> times_fit(state, now, latency),
{
    let start = state.start_at(now);
    let queue = state.buffers;
    let due = state.due_at(now, latency) as int;
    let wait = due_margin(latency);
    lemma_due_count(queue, start, now, latency);
    assert forall|i: int| 0 <= i <= queue.len() implies (#[trigger] reached(
        queue,
        start,
        now,
        wait,
        i,
    ) <==> i <= due) by {
        if i > due {
            assert(!is_due(queue[due], start, now, latency));
        } else {
            assert forall|j: int| 0 <= j < i implies now - start - (#[trigger] queue[j]).pts
                > wait by {
                assert(is_due(queue[j], start, now, latency));
            }
        }
    }
}

/// A word that has to start later than it should still ends when it should,
/// unless it is over by that time.
pub proof fn law_late_words_keep_their_end(buffer: BufferView, position: int)
    requires
        buffer.duration >= 0,
    ensures
        placed(buffer, position).end() == later(buffer.end(), position),
        placed(buffer, position).pts == later(buffer.pts, position),
        placed(buffer, position).duration <= buffer.duration,
{
}

/// A word that is due stays due.
pub proof fn law_due_words_stay_due(
    buffers: Seq<BufferView>,
    start: int,
    now: int,
    next: int,
    latency: int,
)
    requires
        now <= next,
    ensures
        due_count(buffers, start, now, latency) <= due_count(buffers, start, next, latency),
    decreases buffers.len(),
{
    if buffers.len() > 0 && is_due(buffers[0], start, now, latency) {
        law_due_words_stay_due(buffers.skip(1), start, now, next, latency);
    }
}

/// A round that pushes a gap to catch up never runs past the start of the next
/// word that stays queued, so it does not shorten that word.
pub proof fn law_gaps_spare_queued_words<G, Q, S, A>(
    state: StateView<G, Q, S, A>,
    now: int,
    latency: int,
)
    requires
        state.due_at(now, latency) < state.buffers.len(),
    ensures
        now - lag_margin(latency) <= state.start_at(now) + state.buffers[state.due_at(
            now,
            latency,
        ) as int].pts,
{
    lemma_due_count(state.buffers, state.start_at(now), now, latency);
}

/// The word at the front of the queue that a round leaves behind is pushed in a
/// later round, whatever words arrive meanwhile, exactly if the latency, less
/// three intervals, has passed since its presentation time by that round. Where
/// rounds are made at least every three intervals, it is pushed before the
/// whole latency has passed, for a latency of at least three intervals.
pub proof fn law_words_are_pushed_within_the_latency<G, Q, S, A>(
    state: StateView<G, Q, S, A>,
    words: Seq<WordView>,
    now: int,
    next: int,
    latency: int,
)
    requires
        state.due_at(now, latency) < state.buffers.len(),
        next - now <= 3 * GRANULARITY,
    ensures
        ({
            let word = state.buffers[state.due_at(now, latency) as int];
            let pts = word.shifted(state.start_at(now)).pts;
            let pushed = words_of(
                state.after_round(now, latency).enqueued(words).round_outputs(next, latency),
            );
            &&& pushed.len() > 0 <==> pts + due_margin(latency) < next
            &&& pushed.len() > 0 ==> pushed[0].data == word.data && pushed[0].discont
                == word.discont
            &&& pushed.len() > 0 ==> next <= pts + later(latency, 3 * GRANULARITY)
        }),
{
    let due = state.due_at(now, latency) as int;
    let queued = state.after_round(now, latency).enqueued(words);
    lemma_due_count(state.buffers, state.start_at(now), now, latency);
    assert(queued.buffers[0] == state.buffers[due]);
    lemma_due_count(queued.buffers, queued.start_at(next), next, latency);
    law_no_word_is_lost(queued, next, latency);
}

/// A word that is queued before it is due, behind words that end before it
/// starts, is later pushed at its own time and for its whole duration: the gaps
/// that are pushed meanwhile leave room for it.
pub proof fn law_timely_words_are_shown_whole<G, Q, S, A>(
    state: StateView<G, Q, S, A>,
    now: int,
    next: int,
    latency: int,
)
    requires
        ({
            let start = state.start_at(now);
            let due = state.due_at(now, latency) as int;
            &&& due < state.buffers.len()
            &&& is_due(state.buffers[due], start, next, latency)
            &&& position_after(state.due_buffers(now, latency), state.position_at(now))
                <= state.buffers[due].shifted(start).pts
        }),
    ensures
        ({
            let words = words_of(state.after_round(now, latency).round_outputs(next, latency));
            &&& words.len() > 0
            &&& words[0] == state.buffers[state.due_at(now, latency) as int].shifted(
                state.start_at(now),
            )
        }),
{
    let due = state.due_at(now, latency) as int;
    let after = state.after_round(now, latency);
    law_gaps_spare_queued_words(state, now, latency);
    assert(after.buffers[0] == state.buffers[due]);
    lemma_due_count(after.buffers, after.start_at(next), next, latency);
    let buffers = after.due_buffers(next, latency);
    lemma_words_of_round(after, next, latency);
    assert(buffers.take(0) =~= Seq::<BufferView>::empty());
    assert(buffers[0] == state.buffers[due].shifted(state.start_at(now)));
}

/// A second round at the same time has nothing left to push and changes
/// nothing.
pub proof fn law_round_is_exhaustive<G, Q, S, A>(
    state: StateView<G, Q, S, A>,
    now: int,
    latency: int,
)
    requires
        in_time(state.buffers),
    ensures
        ({
            let after = state.after_round(now, latency);
            &&& after.round_outputs(now, latency) == Seq::<OutputView>::empty()
            &&& after.after_round(now, latency) == after
        }),
{
    let after = state.after_round(now, latency);
    let start = state.start_at(now);
    let due = state.due_at(now, latency) as int;
    lemma_due_count(state.buffers, start, now, latency);
    if due < state.buffers.len() {
        assert(after.buffers[0] == state.buffers[due]);
    }
    assert(after.due_at(now, latency) == 0);
    assert(after.due_buffers(now, latency) =~= Seq::<BufferView>::empty());
    law_stream_keeps_up(state, now, latency);
    assert(after.round_outputs(now, latency) =~= Seq::<OutputView>::empty());
    assert(after.buffers.skip(0) =~= after.buffers);
}

/// The events that open the outgoing stream are sent once, whatever else
/// happens to the stream before it is reset.
pub proof fn law_stream_is_opened_once<G, Q, S, A>(
    state: StateView<G, Q, S, A>,
    handle: A,
    sender: Option<S>,
    words: Seq<WordView>,
    response: Response,
    event: SinkEvent<G, Q>,
    now: int,
    latency: int,
    position: int,
    pushed: bool,
)
    requires
        state.pending_events().len() == 0,
    ensures
        state.connected_by(handle).pending_events().len() == 0,
        state.sending_by(handle).pending_events().len() == 0,
        state.reached_by(sender).pending_events().len() == 0,
        state.enqueued(words).pending_events().len() == 0,
        state.responded(response).pending_events().len() == 0,
        state.told(event).pending_events().len() == 0,
        state.opened().pending_events().len() == 0,
        state.dequeued(now, latency).pending_events().len() == 0,
        state.positioned(position).pending_events().len() == 0,
        state.finished(position, pushed).pending_events().len() == 0,
        state.after_round(now, latency).pending_events().len() == 0,
{
    assert(!state.send_events);
}

/// Once the events that open the outgoing stream have been sent, none is left
/// to send.
pub proof fn law_opening_leaves_no_events<G, Q, S, A>(state: StateView<G, Q, S, A>)
    ensures
        state.opened().pending_events().len() == 0,
{
}

/// It makes no difference whether words arrive in one transcript or in two. So
/// only the first word of a stream is marked as a discontinuity.
pub proof fn law_transcripts_join<G, Q, S, A>(
    state: StateView<G, Q, S, A>,
    first: Seq<WordView>,
    second: Seq<WordView>,
)
    ensures
        state.enqueued(first).enqueued(second) == state.enqueued(first + second),
{
    assert(state.enqueued(first).enqueued(second).buffers =~= state.enqueued(
        first + second,
    ).buffers);
}

/// Of the words of a stream, the first one is marked as a discontinuity, and no
/// other.
pub proof fn law_first_word_is_discontinuous<G, Q, S, A>(
    in_segment: G,
    seqnum: Q,
    words: Seq<WordView>,
)
    ensures
        ({
            let buffers = StateView::<G, Q, S, A>::fresh(in_segment, seqnum).enqueued(
                words,
            ).buffers;
            &&& buffers.len() == words.len()
            &&& forall|i: int|
                0 <= i < words.len() ==> {
                    &&& (#[trigger] buffers[i]).discont == (i == 0)
                    &&& buffers[i].data == encode_utf8(words[i].word)
                    &&& buffers[i].pts == words[i].start
                    &&& buffers[i].end() == words[i].end
                }
        }),
{
}

/// After a disconnection the element is as it was at first: nothing is queued,
/// a new connection is needed, the stream is opened again, and no task is left
/// to abort.
pub proof fn law_disconnection_starts_anew<G, Q, S, A>(in_segment: G, seqnum: Q)
    ensures
        ({
            let state = StateView::<G, Q, S, A>::fresh(in_segment, seqnum);
            &&& state.coherent()
            &&& !state.connected
            &&& state.buffers.len() == 0
            &&& state.sender is None
            &&& state.abort_handles().len() == 0
            &&& state.pending_events() == opening_events(0, seqnum)
            &&& state.send_discontinuity
        }),
{
}

/// A connection serves until the element disconnects: no operation other than
/// making a connection changes whether there is one, or the handle of the task
/// that receives from it.
pub proof fn law_connection_serves_until_disconnected<G, Q, S, A>(
    state: StateView<G, Q, S, A>,
    handle: A,
    sender: Option<S>,
    words: Seq<WordView>,
    response: Response,
    event: SinkEvent<G, Q>,
    now: int,
    latency: int,
    position: int,
    pushed: bool,
)
    ensures
        state.same_connection(state.sending_by(handle)),
        state.same_connection(state.reached_by(sender)),
        state.same_connection(state.enqueued(words)),
        state.same_connection(state.responded(response)),
        state.same_connection(state.told(event)),
        state.same_connection(state.opened()),
        state.same_connection(state.dequeued(now, latency)),
        state.same_connection(state.positioned(position)),
        state.same_connection(state.finished(position, pushed)),
        state.same_connection(state.after_round(now, latency)),
{
}

/// The handle of the receiving task is held exactly while there is a
/// connection: the two agree in a new element, and every operation keeps them so.
pub proof fn law_connection_has_its_handle<G, Q, S, A>(
    state: StateView<G, Q, S, A>,
    handle: A,
    sender: Option<S>,
    words: Seq<WordView>,
    response: Response,
    event: SinkEvent<G, Q>,
    now: int,
    latency: int,
    position: int,
    pushed: bool,
    in_segment: G,
    seqnum: Q,
)
    requires
        state.coherent(),
    ensures
        StateView::<G, Q, S, A>::fresh(in_segment, seqnum).coherent(),
        state.connected_by(handle).coherent(),
        state.connected_by(handle).recv_abort_handle == Some(handle),
        state.sending_by(handle).coherent(),
        state.reached_by(sender).coherent(),
        state.enqueued(words).coherent(),
        state.responded(response).coherent(),
        state.told(event).coherent(),
        state.opened().coherent(),
        state.dequeued(now, latency).coherent(),
        state.positioned(position).coherent(),
        state.finished(position, pushed).coherent(),
        state.after_round(now, latency).coherent(),
{
}

/// Items are handed out in order, up to the first one that is not accepted and
/// no further. The steps end in success exactly if every item is accepted.
pub proof fn law_nothing_follows_a_failure<T>(items: Seq<T>, answers: Seq<bool>)
    requires
        answers.len() == items.len(),
    ensures
        ({
            let out = handed_out(items, true, answers);
            &&& out.len() <= items.len()
            &&& out == items.take(out.len() as int)
            &&& forall|i: int| 0 <= i < out.len() - 1 ==> #[trigger] answers[i]
            &&& completes(items, true, answers) <==> (forall|i: int|
                0 <= i < items.len() ==> #[trigger] answers[i])
            &&& completes(items, true, answers) ==> out == items
            &&& !completes(items, true, answers) ==> out.len() > 0 && !answers[out.len() - 1]
        }),
    decreases items.len(),
{
    let out = handed_out(items, true, answers);
    if items.len() == 0 {
        assert(out =~= items);
        assert(items.take(0) =~= items);
    } else {
        let rest = items.skip(1);
        let others = answers.skip(1);
        let out_rest = handed_out(rest, answers[0], others);
        assert(out == seq![items[0]] + out_rest);
        if answers[0] {
            law_nothing_follows_a_failure(rest, others);
            assert(out =~= items.take(out.len() as int));
            assert forall|i: int| 0 <= i < out.len() - 1 implies #[trigger] answers[i] by {
                if i > 0 {
                    assert(others[i - 1] == answers[i]);
                }
            }
            if completes(rest, true, others) {
                assert forall|i: int| 0 <= i < items.len() implies #[trigger] answers[i] by {
                    if i > 0 {
                        assert(others[i - 1] == answers[i]);
                    }
                }
                assert(out =~= items);
            } else {
                assert(others[out_rest.len() - 1] == answers[out.len() - 1]);
            }
        } else {
            assert(!completes(rest, answers[0], others));
            assert(out_rest =~= Seq::<T>::empty());
            assert(out =~= items.take(1));
        }
    }
}

/// In a round, nothing is pushed behind an output that cannot be pushed. The
/// position of the stream moves to where the round reaches exactly if
/// everything could be pushed, and stays where it was otherwise.
pub proof fn law_failed_push_ends_the_round<G, Q, S, A>(
    state: StateView<G, Q, S, A>,
    now: int,
    latency: int,
    answers: Seq<bool>,
)
    requires
        answers.len() == state.round_outputs(now, latency).len(),
    ensures
        ({
            let outputs = state.round_outputs(now, latency);
            let out = handed_out(outputs, true, answers);
            let pushed = completes(outputs, true, answers);
            let after = state.dequeued(now, latency).finished(
                state.round_position(now, latency),
                pushed,
            );
            &&& pushed <==> (forall|i: int| 0 <= i < outputs.len() ==> #[trigger] answers[i])
            &&& pushed ==> out == outputs && after == state.after_round(now, latency)
            &&& !pushed ==> {
                &&& 0 < out.len() <= outputs.len()
                &&& out == outputs.take(out.len() as int)
                &&& !answers[out.len() - 1]
                &&& after.out_position == state.position_at(now)
                &&& state.start_time is Some ==> after.out_position == state.out_position
            }
        }),
{
    law_nothing_follows_a_failure(state.round_outputs(now, latency), answers);
}

/// One pass of the streaming task: the opening events are sent where they are
/// still pending, a response is handled, and a round is made where there is a
/// running time `now`, in which `answers` says of each output in turn whether it
/// can be pushed.
pub struct Pass {
    pub response: Response,
    pub now: Option<int>,
    pub latency: int,
    pub answers: Seq<bool>,
}

impl<G, Q, S, A> StateView<G, Q, S, A> {
    /// The state in which the round of a pass is made.
    pub open spec fn before_round(self, pass: Pass) -> Self {
        self.opened().responded(pass.response)
    }

    /// What the round of a pass is to push.
    pub open spec fn pass_outputs(self, pass: Pass) -> Seq<OutputView> {
        match pass.now {
            Some(now) => self.before_round(pass).round_outputs(now, pass.latency),
            None => Seq::empty(),
        }
    }

    /// What is pushed in a pass, up to the first failure.
    pub open spec fn pass_pushes(self, pass: Pass) -> Seq<OutputView> {
        handed_out(self.pass_outputs(pass), true, pass.answers)
    }

    /// Whether everything that a pass is to push can be pushed.
    pub open spec fn pass_completes(self, pass: Pass) -> bool {
        completes(self.pass_outputs(pass), true, pass.answers)
    }

    /// Whether the streaming task is paused in a pass.
    pub open spec fn pass_pauses(self, pass: Pass) -> bool {
        pass.response is Closed || !self.pass_completes(pass)
    }

    /// The state after a pass.
    pub open spec fn after_pass(self, pass: Pass) -> Self {
        let before = self.before_round(pass);
        match pass.now {
            Some(now) => before.dequeued(now, pass.latency).finished(
                before.round_position(now, pass.latency),
                self.pass_completes(pass),
            ),
            None => before,
        }
    }
}

/// In one pass the streaming task queues the words of a final transcript before
/// it makes the round, and makes the round whatever the response was, or if
/// there was none. It is paused exactly if the channel is closed or an output
/// could not be pushed, and that output is the last one tried. The round moves
/// the position exactly if everything could be pushed. Nothing is pushed
/// without a running time, and the opening events are not sent again. The
/// connection is left alone.
pub proof fn law_pass_of_the_streaming_task<G, Q, S, A>(
    state: StateView<G, Q, S, A>,
    pass: Pass,
)
    requires
        pass.answers.len() == state.pass_outputs(pass).len(),
    ensures
        ({
            let before = state.before_round(pass);
            let outputs = state.pass_outputs(pass);
            let pushes = state.pass_pushes(pass);
            let after = state.after_pass(pass);
            let failed = pushes.len() > 0 && !pass.answers[pushes.len() - 1];
            &&& state.pass_pauses(pass) <==> pass.response is Closed || failed
            &&& before.buffers == (match pass.response {
                Response::Text(Some(transcript)) => state.buffers + word_buffers(
                    word_views(transcript.result@),
                    state.send_discontinuity,
                ),
                _ => state.buffers,
            })
            &&& pushes.len() <= outputs.len()
            &&& pushes == outputs.take(pushes.len() as int)
            &&& forall|i: int| 0 <= i < pushes.len() - 1 ==> #[trigger] pass.answers[i]
            &&& !failed ==> pushes == outputs
            &&& pass.now is None ==> pushes.len() == 0 && after == before
            &&& pass.now matches Some(now) ==> {
                &&& after.start_time == Some(state.start_at(now))
                &&& after.buffers == before.buffers.skip(before.due_at(now, pass.latency) as int)
                &&& failed ==> after.out_position == state.position_at(now)
                &&& !failed ==> after == before.after_round(now, pass.latency)
            }
            &&& after.pending_events().len() == 0
            &&& state.same_connection(after)
        }),
{
    law_nothing_follows_a_failure(state.pass_outputs(pass), pass.answers);
}

/// Nothing is sent to the server behind a message that cannot be sent, and
/// nothing at all without a sink. The sink pad returns an error exactly if a
/// message that was tried could not be sent; without a sink it returns success.
pub proof fn law_failed_send_ends_the_transmission(
    messages: Seq<MessageView>,
    has_sink: bool,
    answers: Seq<bool>,
)
    requires
        answers.len() == sendable(messages, has_sink).len(),
    ensures
        ({
            let items = sendable(messages, has_sink);
            let out = handed_out(items, true, answers);
            let flow = flow_of(outcome_of(completes(items, true, answers)));
            &&& out.len() <= items.len() && out == items.take(out.len() as int)
            &&& forall|i: int| 0 <= i < out.len() - 1 ==> #[trigger] answers[i]
            &&& flow == Err::<(), FlowError>(FlowError::Error) <==> out.len() > 0 && !answers[
            out.len() - 1]
            &&& flow is Ok <==> out == items && (forall|i: int|
                0 <= i < items.len() ==> #[trigger] answers[i])
            &&& !has_sink ==> out.len() == 0 && flow is Ok
        }),
{
    let items = sendable(messages, has_sink);
    law_nothing_follows_a_failure(items, answers);
}

/// Whether one step of the reception can come right after another.
pub open spec fn follows<M>(step: Reception<M>, next: Reception<M>) -> bool {
    match step {
        Reception::ConfigureServer(_) | Reception::Deliver(_) => exists|delivered: bool|
            next == #[trigger] reception_after::<M>(delivered),
        Reception::Await => exists|incoming: Incoming<M>, has_channel: bool|
            next == #[trigger] reception_of(incoming, has_channel),
        _ => false,
    }
}

/// The server is configured, for the sample rate of the incoming audio and with
/// the times of the words, before anything is received from it, and only once.
pub proof fn law_configuration_comes_first<M>(
    steps: Seq<Reception<M>>,
    has_channel: bool,
    sample_rate: i32,
)
    requires
        steps.len() > 0,
        steps[0] == first_reception::<M>(has_channel, sample_rate),
        forall|i: int, j: int|
            0 <= i && j == i + 1 && j < steps.len() ==> follows(
                #[trigger] steps[i],
                #[trigger] steps[j],
            ),
    ensures
        forall|i: int| 0 < i < steps.len() ==> !((#[trigger] steps[i]) is ConfigureServer),
        forall|i: int|
            0 <= i < steps.len() && ((#[trigger] steps[i]) is Await || steps[i] is Deliver) ==> {
                &&& i > 0
                &&& steps[0] == Reception::<M>::ConfigureServer(
                    Configuration { sample_rate, words: true },
                )
            },
{
    assert forall|i: int| 0 < i < steps.len() implies !((
    #[trigger] steps[i]) is ConfigureServer) by {
        assert(follows(steps[i - 1], steps[i]));
    }
    if steps.len() > 1 {
        assert(follows(steps[0], steps[1]));
    }
}

/// The latency that was set is the latency that is read back, and likewise the
/// address of the server; setting one leaves the other alone.
pub proof fn law_properties_read_back(settings: SettingsView, latency: u32, address: String)
    ensures
        milliseconds(settings.with_property(Property::Latency(latency)).latency) == latency,
        settings.with_property(Property::Latency(latency)).server_address
            == settings.server_address,
        settings.with_property(Property::ServerAddress(address)).server_address == address@,
        settings.with_property(Property::ServerAddress(address)).latency == settings.latency,
{
}

/// A buffer that waits is sent exactly at its running time.
pub proof fn law_audio_is_not_sent_early(time: u64, now: u64)
    ensures
        match send_delay(Some(time), Some(now)) {
            Some(delay) => now + delay == time,
            None => now > time,
        },
{
}

proof fn lemma_chunks_join(data: Seq<u8>, n: nat)
    requires
        n <= chunk_count(data.len()),
    ensures
        chunks(data).take(n as int).flatten() == data.take(
            if n * CHUNK_SIZE <= data.len() {
                n * CHUNK_SIZE
            } else {
                data.len() as int
            },
        ),
    decreases n,
{
    let head = chunks(data).take(n as int);
    if n == 0 {
        assert(head =~= Seq::<Seq<u8>>::empty());
        assert(head.flatten() =~= Seq::<u8>::empty());
        assert(data.take(0) =~= Seq::<u8>::empty());
    } else {
        let prev = (n - 1) as nat;
        lemma_chunks_join(data, prev);
        assert(head.drop_last() =~= chunks(data).take(prev as int));
        assert(head.last() == chunk(data, prev as int));
        head.lemma_flatten_and_flatten_alt_are_equivalent();
        head.drop_last().lemma_flatten_and_flatten_alt_are_equivalent();
        assert(head.flatten() =~= head.drop_last().flatten() + head.last());
        assert(head.flatten() =~= data.take(
            if n * CHUNK_SIZE <= data.len() {
                n * CHUNK_SIZE
            } else {
                data.len() as int
            },
        ));
    }
}

/// The chunks of a stretch of audio, one after the other, are that audio; none
/// is empty, and all but the last are of full size.
pub proof fn law_chunks_join_to_the_audio(data: Seq<u8>)
    ensures
        chunks(data).flatten() == data,
        forall|i: int|
            0 <= i < chunks(data).len() ==> 0 < (#[trigger] chunks(data)[i]).len() <= CHUNK_SIZE,
        forall|i: int|
            0 <= i < chunks(data).len() - 1 ==> (#[trigger] chunks(data)[i]).len() == CHUNK_SIZE,
{
    lemma_chunks_join(data, chunk_count(data.len()));
    assert(chunks(data).take(chunks(data).len() as int) =~= chunks(data));
    assert(data.take(data.len() as int) =~= data);
}

/// What the messages carry: their bytes, or nothing for a text.
pub open spec fn payloads(messages: Seq<MessageView>) -> Seq<Seq<u8>> {
    messages.map_values(
        |m: MessageView|
            match m {
                MessageView::Binary(data) => data,
                MessageView::Text(_) => Seq::empty(),
            },
    )
}

/// The audio of a buffer reaches the server complete and in order: all messages
/// for it are binary, and what they carry, one after the other, is exactly its
/// data. None is empty, and each carries 8000 bytes, or what is left for the
/// last one.
pub proof fn law_messages_join_to_the_audio(buffer: AudioBuffer)
    ensures
        ({
            let messages = messages_for(Some(buffer));
            &&& payloads(messages).flatten() == buffer.data@
            &&& forall|i: int|
                0 <= i < messages.len() ==> {
                    &&& (#[trigger] messages[i]) is Binary
                    &&& 0 < messages[i]->Binary_0.len() <= 8000
                    &&& i + 1 < messages.len() ==> messages[i]->Binary_0.len() == 8000
                }
        }),
{
    let messages = messages_for(Some(buffer));
    law_chunks_join_to_the_audio(buffer.data@);
    assert(payloads(messages) =~= chunks(buffer.data@));
    assert forall|i: int| 0 <= i < messages.len() implies {
        &&& (#[trigger] messages[i]) is Binary
        &&& 0 < messages[i]->Binary_0.len() <= 8000
        &&& i + 1 < messages.len() ==> messages[i]->Binary_0.len() == 8000
    } by {
        assert(messages[i] == MessageView::Binary(chunks(buffer.data@)[i]));
    }
}

/// The end of the stream is told in one text message.
pub proof fn law_end_of_stream_is_told()
    ensures
        messages_for(None) == seq![MessageView::Text("{\"eof\": 1}"@)],
{
}

} // verus!
