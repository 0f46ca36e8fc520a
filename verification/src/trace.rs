//! Whole conversations on the sensor's line.
//!
//! A read is a sequence of replies taken one after the other. This module
//! names the sequences that matter, a line that stays silent and a sensor that
//! answers in full, and proves what a read comes to on each of them.

use vstd::prelude::*;
use crate::dht22::DhtError;
use crate::pulse::{
    answers, packed, run, Outcome, ReaderState, Reply, Stage, BIT_END_TIMEOUT_US,
    BIT_START_TIMEOUT_US, FRAME_BITS, HANDSHAKE_TIMEOUT_US, ONE_THRESHOLD_US,
};

verus! {

/// Whether the replies are those of a conversation: each answers the command
/// that was pending when it came, and none comes after the read has ended.
pub open spec fn well_answered<E>(state: ReaderState, replies: Seq<Reply<E>>) -> bool
    decreases replies.len(),
{
    replies.len() == 0 || (well_answered(state, replies.drop_last()) && match run(
        state,
        replies.drop_last(),
    ) {
        Outcome::Continue(reached) => answers(reached.command(), replies.last()),
        _ => false,
    })
}

/// The replies of a line that is never at the level asked for, over `rounds`
/// polls: each time a missed sample and the pause that follows it.
pub open spec fn silence<E>(rounds: nat) -> Seq<Reply<E>>
    decreases rounds,
{
    if rounds == 0 {
        Seq::empty()
    } else {
        silence::<E>((rounds - 1) as nat).push(Reply::Level(false)).push(Reply::Done)
    }
}

/// One more reply is taken by the state that the earlier replies led to.
pub proof fn lemma_run_push<E>(state: ReaderState, replies: Seq<Reply<E>>, reply: Reply<E>)
    ensures
        run(state, replies.push(reply)) == match run(state, replies) {
            Outcome::Continue(reached) => reached.step(reply),
            ended => ended,
        },
{
    assert(replies.push(reply).drop_last() =~= replies);
}

/// Running over two sequences of replies, one after the other, is running
/// over the second from where the first led.
pub proof fn lemma_run_concat<E>(state: ReaderState, first: Seq<Reply<E>>, rest: Seq<Reply<E>>)
    ensures
        run(state, first + rest) == match run(state, first) {
            Outcome::Continue(reached) => run(reached, rest),
            ended => ended,
        },
    decreases rest.len(),
{
    if rest.len() == 0 {
        assert(first + rest =~= first);
    } else {
        lemma_run_concat(state, first, rest.drop_last());
        assert((first + rest).drop_last() =~= first + rest.drop_last());
    }
}

/// Every state that replies lead to from a well-formed state is well formed.
pub proof fn lemma_run_keeps_wf<E>(state: ReaderState, replies: Seq<Reply<E>>)
    requires
        state.wf(),
    ensures
        run(state, replies) matches Outcome::Continue(reached) ==> reached.wf(),
    decreases replies.len(),
{
    if replies.len() > 0 {
        lemma_run_keeps_wf(state, replies.drop_last());
    }
}

/// While a line stays silent a polling stage only counts the time, until the
/// pause that ends at its timeout ends the read.
proof fn lemma_silence_counts<E>(state: ReaderState, rounds: nat)
    requires
        state.wf(),
        state.stage.polls(),
        !state.resting,
        state.elapsed + rounds <= state.stage.timeout() + 1,
    ensures
        run::<E>(state, silence(rounds)) == if state.elapsed + rounds <= state.stage.timeout() {
            Outcome::<E>::Continue(ReaderState { elapsed: state.elapsed + rounds, ..state })
        } else {
            Outcome::<E>::Failed(state.stage.timeout_error())
        },
    decreases rounds,
{
    if rounds > 0 {
        let before = silence::<E>((rounds - 1) as nat);
        lemma_silence_counts::<E>(state, (rounds - 1) as nat);
        lemma_run_push(state, before, Reply::<E>::Level(false));
        lemma_run_push(state, before.push(Reply::<E>::Level(false)), Reply::<E>::Done);
    }
}

/// A polling stage whose line stays silent until the timeout ends the read
/// with the failure of its part of the protocol, whatever was decoded before:
/// a sensor not found during the handshake, a read timeout during any of the
/// forty data bits. No frame comes of such a read.
pub proof fn law_silent_line_times_out<E>(state: ReaderState)
    requires
        state.wf(),
        state.stage.polls(),
        !state.resting,
    ensures
        run::<E>(state, silence((state.stage.timeout() - state.elapsed + 1) as nat))
            == Outcome::<E>::Failed(state.stage.timeout_error()),
        state.stage.in_handshake() ==> state.stage.timeout_error::<E>()
            == DhtError::<E>::NotFoundOnGPio,
        state.stage.in_bit() ==> state.stage.timeout_error::<E>() == DhtError::<E>::ReadTimeout,
{
    lemma_silence_counts::<E>(state, (state.stage.timeout() - state.elapsed + 1) as nat);
}

/// The replies of a woken sensor's line up to the first sample: both line
/// writes and both delays complete.
pub open spec fn wake_replies<E>() -> Seq<Reply<E>> {
    seq![Reply::Done, Reply::Done, Reply::Done, Reply::Done]
}

/// If the line never goes high during the handshake, the read reports that no
/// sensor was found, not a read timeout: the eighty-sixth missed sample, at 85
/// microseconds, is the last.
pub proof fn law_absent_sensor_is_not_found<E>()
    ensures
        run::<E>(ReaderState::initial(), wake_replies::<E>() + silence::<E>(86))
            == Outcome::<E>::Failed(DhtError::NotFoundOnGPio),
{
    let woken = ReaderState::enter(Stage::PresenceHigh, Seq::empty());
    let start = ReaderState::initial();
    let none = Seq::<Reply<E>>::empty();
    let done = Reply::<E>::Done;
    lemma_run_push(start, none, done);
    lemma_run_push(start, none.push(done), done);
    lemma_run_push(start, none.push(done).push(done), done);
    lemma_run_push(start, none.push(done).push(done).push(done), done);
    assert(wake_replies::<E>() =~= none.push(done).push(done).push(done).push(done));
    assert(run::<E>(start, wake_replies()) == Outcome::<E>::Continue(woken));
    lemma_run_concat(start, wake_replies::<E>(), silence::<E>(86));
    law_silent_line_times_out::<E>(woken);
}

/// If the line falls silent in any of the forty bit reads, at its start or
/// during its pulse, the read that got there ends in a read timeout,
/// whichever bit it was and whatever the bits before it were.
pub proof fn law_silent_bit_is_read_timeout<E>(replies: Seq<Reply<E>>, state: ReaderState)
    requires
        run(ReaderState::initial(), replies) == Outcome::<E>::Continue(state),
        state.stage.in_bit(),
        !state.resting,
    ensures
        state.bits.len() < FRAME_BITS,
        state.elapsed <= state.stage.timeout(),
        run::<E>(
            ReaderState::initial(),
            replies + silence((state.stage.timeout() - state.elapsed + 1) as nat),
        ) == Outcome::<E>::Failed(DhtError::ReadTimeout),
{
    lemma_run_keeps_wf(ReaderState::initial(), replies);
    law_silent_line_times_out::<E>(state);
    lemma_run_concat(
        ReaderState::initial(),
        replies,
        silence::<E>((state.stage.timeout() - state.elapsed + 1) as nat),
    );
}

/// The replies of a line that is at the level asked for at the sample that
/// follows `wait` missed ones.
pub open spec fn arrival<E>(wait: nat) -> Seq<Reply<E>> {
    silence::<E>(wait).push(Reply::Level(true))
}

/// The replies of a line over the data bits of an answer: for each bit the
/// gap before its pulse and the pulse itself, each given by the number of
/// microseconds it lasts.
pub open spec fn pulses<E>(gaps: Seq<nat>, widths: Seq<nat>) -> Seq<Reply<E>>
    decreases widths.len(),
{
    if widths.len() == 0 || gaps.len() != widths.len() {
        Seq::empty()
    } else {
        pulses::<E>(gaps.drop_last(), widths.drop_last()) + arrival::<E>(gaps.last())
            + arrival::<E>(widths.last())
    }
}

/// The bits that pulse widths stand for: a pulse wider than the threshold is
/// a one.
pub open spec fn bits_of(widths: Seq<nat>) -> Seq<bool> {
    Seq::new(widths.len(), |i: int| widths[i] > ONE_THRESHOLD_US)
}

/// The replies of the line of a sensor that answers in full: the wake-up, the
/// two halves of the handshake after `rise` and `fall` microseconds, and the
/// data bits.
pub open spec fn answer<E>(rise: nat, fall: nat, gaps: Seq<nat>, widths: Seq<nat>) -> Seq<
    Reply<E>,
> {
    wake_replies::<E>() + arrival::<E>(rise) + arrival::<E>(fall) + pulses::<E>(gaps, widths)
}

/// A polling stage whose line arrives within the timeout goes on as after a
/// hit at the time of the arrival.
proof fn lemma_arrival_hits<E>(state: ReaderState, wait: nat)
    requires
        state.wf(),
        state.stage.polls(),
        !state.resting,
        state.elapsed + wait <= state.stage.timeout(),
    ensures
        run::<E>(state, arrival(wait)) == (ReaderState {
            elapsed: state.elapsed + wait,
            ..state
        }).after_sample::<E>(true),
{
    lemma_silence_counts::<E>(state, wait);
    lemma_run_push(state, silence::<E>(wait), Reply::<E>::Level(true));
}

/// Timing the pulses of the first bits of an answer decodes these bits; the
/// fortieth completes the frame.
proof fn lemma_pulses_decode<E>(gaps: Seq<nat>, widths: Seq<nat>)
    requires
        gaps.len() == widths.len(),
        widths.len() <= FRAME_BITS,
        forall|i: int| 0 <= i < widths.len() ==> gaps[i] <= BIT_START_TIMEOUT_US,
        forall|i: int| 0 <= i < widths.len() ==> widths[i] <= BIT_END_TIMEOUT_US,
    ensures
        run::<E>(ReaderState::enter(Stage::BitStart, Seq::empty()), pulses(gaps, widths)) == if widths.len()
            < FRAME_BITS {
            Outcome::<E>::Continue(ReaderState::enter(Stage::BitStart, bits_of(widths)))
        } else {
            Outcome::<E>::Frame(packed(bits_of(widths)))
        },
    decreases widths.len(),
{
    let start = ReaderState::enter(Stage::BitStart, Seq::empty());
    if widths.len() == 0 {
        assert(bits_of(widths) =~= Seq::<bool>::empty());
    } else {
        let earlier = pulses::<E>(gaps.drop_last(), widths.drop_last());
        let bits = bits_of(widths.drop_last());
        let gap = arrival::<E>(gaps.last());
        let pulse = arrival::<E>(widths.last());
        lemma_pulses_decode::<E>(gaps.drop_last(), widths.drop_last());
        lemma_run_concat(start, earlier, gap);
        lemma_arrival_hits::<E>(ReaderState::enter(Stage::BitStart, bits), gaps.last());
        lemma_run_concat(start, earlier + gap, pulse);
        lemma_arrival_hits::<E>(ReaderState::enter(Stage::BitEnd, bits), widths.last());
        assert(bits.push(widths.last() > ONE_THRESHOLD_US) =~= bits_of(widths));
    }
}

/// A sensor that answers in full is read in full: if both halves of the
/// handshake arrive within 85 microseconds, every pulse begins within 55 and
/// ends within 70, the read yields the frame packed from the forty pulse
/// widths, a bit being one exactly when its pulse is wider than 30
/// microseconds.
pub proof fn law_complete_answer_yields_frame<E>(
    rise: nat,
    fall: nat,
    gaps: Seq<nat>,
    widths: Seq<nat>,
)
    requires
        rise <= HANDSHAKE_TIMEOUT_US,
        fall <= HANDSHAKE_TIMEOUT_US,
        gaps.len() == FRAME_BITS,
        widths.len() == FRAME_BITS,
        forall|i: int| 0 <= i < FRAME_BITS ==> gaps[i] <= BIT_START_TIMEOUT_US,
        forall|i: int| 0 <= i < FRAME_BITS ==> widths[i] <= BIT_END_TIMEOUT_US,
    ensures
        run::<E>(ReaderState::initial(), answer(rise, fall, gaps, widths)) == Outcome::<E>::Frame(
            packed(bits_of(widths)),
        ),
        forall|i: int| 0 <= i < FRAME_BITS ==> bits_of(widths)[i] == (widths[i] > 30),
{
    let start = ReaderState::initial();
    let none = Seq::<Reply<E>>::empty();
    let done = Reply::<E>::Done;
    let no_bits = Seq::<bool>::empty();
    lemma_run_push(start, none, done);
    lemma_run_push(start, none.push(done), done);
    lemma_run_push(start, none.push(done).push(done), done);
    lemma_run_push(start, none.push(done).push(done).push(done), done);
    assert(wake_replies::<E>() =~= none.push(done).push(done).push(done).push(done));
    let woken = wake_replies::<E>();
    assert(run::<E>(start, woken) == Outcome::<E>::Continue(
        ReaderState::enter(Stage::PresenceHigh, no_bits),
    ));
    lemma_run_concat(start, woken, arrival::<E>(rise));
    lemma_arrival_hits::<E>(ReaderState::enter(Stage::PresenceHigh, no_bits), rise);
    lemma_run_concat(start, woken + arrival::<E>(rise), arrival::<E>(fall));
    lemma_arrival_hits::<E>(ReaderState::enter(Stage::PresenceLow, no_bits), fall);
    lemma_run_concat(
        start,
        woken + arrival::<E>(rise) + arrival::<E>(fall),
        pulses::<E>(gaps, widths),
    );
    lemma_pulses_decode::<E>(gaps, widths);
}

} // verus!
