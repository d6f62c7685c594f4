use vstd::prelude::*;

use crate::builder::{eligible_seq, lemma_eligible_seq_len, round_draw};
use crate::config::QuizSettings;
use crate::engine::{
    abort_step, answer_outcome, answer_time, audio_failure_step, begin_round_step, may_begin_round,
    may_submit, next_step, open_step, resolve_step, skip_step, start_step, submit_step, tick_step,
    EngineState, QuizEngine, open_result, SessionSummary,
};
use crate::library::{has_id, ids_of, Library, Track};
use crate::round::{blocked, distinct, eligible_count, excerpt_len_ok, Outcome, Round};
use crate::session::total_score;

verus! {

/// Every round of a session presents distinct choices, among them its answer,
/// and exactly `choices_per_round` of them.
pub proof fn lemma_choices_of_every_round(e: QuizEngine, i: int)
    requires
        e.wf(),
        0 <= i < e.record.rounds@.len(),
    ensures
        distinct(e.record.rounds@[i].choice_track_ids@),
        e.record.rounds@[i].choice_track_ids@.contains(e.record.rounds@[i].answer_track_id),
        e.record.rounds@[i].choice_track_ids@.len() == e.settings.choices_per_round,
{
    assert(e.record.rounds@[i].valid(e.settings, e.library.tracks@));
}

/// Every excerpt lasts between `min_excerpt_ms` and `max_excerpt_ms`, or is the
/// whole playable window it was drawn from when that window is shorter than
/// `min_excerpt_ms`.
pub proof fn lemma_excerpt_length(e: QuizEngine, i: int)
    requires
        e.wf(),
        0 <= i < e.record.rounds@.len(),
    ensures
        excerpt_len_ok(e.record.rounds@[i].source_window, e.record.rounds@[i].excerpt_window, e.settings),
        e.record.rounds@[i].source_window.len() < e.settings.min_excerpt_ms ==> e.record.rounds@[i].excerpt_window
            == e.record.rounds@[i].source_window,
        e.record.rounds@[i].source_window.len() >= e.settings.min_excerpt_ms ==> e.settings.min_excerpt_ms
            <= e.record.rounds@[i].excerpt_window.len() <= e.settings.max_excerpt_ms,
{
    assert(e.record.rounds@[i].valid(e.settings, e.library.tracks@));
}

/// At most one round is pending, and only the last one; a pending round is
/// the round the engine awaits an answer for.
pub proof fn lemma_single_pending_round(e: QuizEngine, i: int, j: int)
    requires
        e.wf(),
        0 <= i < e.record.rounds@.len(),
        0 <= j < e.record.rounds@.len(),
        e.record.rounds@[i].outcome == Outcome::Pending,
        e.record.rounds@[j].outcome == Outcome::Pending,
    ensures
        i == j,
        i == e.record.rounds@.len() - 1,
        e.state == EngineState::AwaitingAnswer,
{
}

proof fn lemma_eligible_count_bound(tracks: Seq<Track>, history: Seq<Round>, cooldown: u64, k: int)
    requires
        0 <= k < tracks.len(),
        blocked(history, cooldown, tracks[k].track_id),
    ensures
        eligible_count(tracks, history, cooldown) < tracks.len(),
    decreases tracks.len(),
{
    if k < tracks.len() - 1 {
        assert(tracks.drop_last()[k] == tracks[k]);
        lemma_eligible_count_bound(tracks.drop_last(), history, cooldown, k);
    } else {
        lemma_eligible_count_le(tracks.drop_last(), history, cooldown);
    }
}

proof fn lemma_eligible_count_le(tracks: Seq<Track>, history: Seq<Round>, cooldown: u64)
    ensures
        eligible_count(tracks, history, cooldown) <= tracks.len(),
    decreases tracks.len(),
{
    if tracks.len() > 0 {
        lemma_eligible_count_le(tracks.drop_last(), history, cooldown);
    }
}

/// With a library of exactly `choices_per_round` tracks, every round presents
/// each track of the library, once.
pub proof fn lemma_small_library_round_presents_all(e: QuizEngine, i: int, id: u64)
    requires
        e.wf(),
        e.library.tracks@.len() == e.settings.choices_per_round,
        0 <= i < e.record.rounds@.len(),
        has_id(e.library.tracks@, id),
    ensures
        e.record.rounds@[i].choice_track_ids@.contains(id),
{
    let tracks = e.library.tracks@;
    let choices = e.record.rounds@[i].choice_track_ids@;
    assert(e.record.rounds@[i].valid(e.settings, tracks));
    let ids = ids_of(tracks);
    assert(choices.no_duplicates());
    choices.unique_seq_to_set();
    assert(ids.no_duplicates()) by {
        assert forall|a: int, b: int| 0 <= a < ids.len() && 0 <= b < ids.len() && a != b implies ids[a]
            != ids[b] by {
            assert(tracks[a].track_id != tracks[b].track_id);
        }
    }
    ids.unique_seq_to_set();
    assert(choices.to_set().subset_of(ids.to_set())) by {
        assert forall|x: u64| choices.to_set().contains(x) implies ids.to_set().contains(x) by {
            let k = choose|k: int| 0 <= k < choices.len() && choices[k] == x;
            assert(has_id(tracks, choices[k]));
            let t = choose|t: int| 0 <= t < tracks.len() && tracks[t].track_id == choices[k];
            assert(ids[t] == x);
        }
    }
    vstd::set_lib::lemma_subset_equality(choices.to_set(), ids.to_set());
    let t = choose|t: int| 0 <= t < tracks.len() && tracks[t].track_id == id;
    assert(ids[t] == id);
    assert(ids.to_set().contains(id));
    assert(choices.to_set().contains(id));
}

/// With a library of exactly `choices_per_round` tracks and a cooldown of at
/// least one round, the round after the first one, answered or timed out,
/// cannot be built: the session finishes as exhausted. (A session of one
/// round has no second round: it finishes on `next` instead.)
pub proof fn lemma_small_library_exhausted(e: QuizEngine, post: QuizEngine, now: u64)
    requires
        e.wf(),
        e.library.tracks@.len() == e.settings.choices_per_round,
        e.settings.answer_cooldown >= 1,
        e.settings.rounds_per_session >= 2,
        e.state == EngineState::RevealingResult,
        e.record.rounds@.len() == 1,
        e.record.rounds@[0].outcome != Outcome::Skipped,
        begin_round_step(e, post, now),
    ensures
        open_result(e, post) == Err::<crate::engine::PlayRequest, crate::error::ErrorKind>(
            crate::error::ErrorKind::InsufficientLibrary,
        ),
        post.state == EngineState::Finished(
            SessionSummary { score: e.record.score, rounds_played: 1, exhausted: true, aborted: false },
        ),
        post.record.rounds@ == e.record.rounds@,
{
    let tracks = e.library.tracks@;
    let h = e.record.rounds@;
    let r0 = h[0];
    assert(r0.valid(e.settings, tracks));
    let c = choose|c: int| 0 <= c < r0.choice_track_ids@.len() && r0.choice_track_ids@[c] == r0.answer_track_id;
    assert(has_id(tracks, r0.choice_track_ids@[c]));
    let k = choose|k: int| 0 <= k < tracks.len() && tracks[k].track_id == r0.answer_track_id;
    assert(blocked(h, e.settings.answer_cooldown, tracks[k].track_id));
    lemma_eligible_count_bound(tracks, h, e.settings.answer_cooldown, k);
}

/// A round that was not skipped keeps its answer out of the next
/// `answer_cooldown` rounds.
pub proof fn lemma_cooldown(e: QuizEngine, i: int, j: int)
    requires
        e.wf(),
        0 <= i < j < e.record.rounds@.len(),
        j - i <= e.settings.answer_cooldown,
        e.record.rounds@[i].outcome != Outcome::Skipped,
    ensures
        e.record.rounds@[i].answer_track_id != e.record.rounds@[j].answer_track_id,
{
}

/// The score is the sum of what each round contributes under the session's
/// scoring rule.
pub proof fn lemma_score_is_sum(e: QuizEngine)
    requires
        e.wf(),
    ensures
        e.record.score == total_score(e.record.rounds@, e.settings.scoring),
{
}

/// Ticking at or past the deadline times the round out once; further ticks,
/// at any time, leave the engine as it is.
pub proof fn lemma_tick_idempotent(e0: QuizEngine, e1: QuizEngine, e2: QuizEngine, now1: u64, now2: u64)
    requires
        e0.wf(),
        e0.state == EngineState::AwaitingAnswer,
        now1 >= e0.record.rounds@.last().deadline,
        tick_step(e0, e1, now1),
        tick_step(e1, e2, now2),
    ensures
        e1.record.rounds@.last().outcome == Outcome::TimedOut,
        e2 == e1,
{
    let n = e0.record.rounds@.len();
    assert(e1.record.rounds@[n - 1].outcome == Outcome::TimedOut);
}

/// Answering, skipping and timing out are deterministic: from one engine, two
/// runs of the same step reach the same rounds, score, state and generator.
pub proof fn lemma_answer_steps_deterministic(
    e: QuizEngine,
    a: QuizEngine,
    b: QuizEngine,
    outcome: Outcome,
    answered_at: Option<u64>,
)
    requires
        resolve_step(e, a, outcome, answered_at),
        resolve_step(e, b, outcome, answered_at),
    ensures
        a.record.rounds@ == b.record.rounds@,
        a.record.score == b.record.score,
        a.state == b.state,
        a.rng == b.rng,
        a.settings == b.settings,
        a.seed == b.seed,
{
}

/// An event the view injects into the engine.
#[derive(Clone, Copy, Debug, PartialEq, Eq, Structural)]
pub enum Event {
    BeginRound(u64),
    Submit(usize, u64),
    OnDeadline(u64),
    Skip,
    Tick(u64),
    Next(u64),
    Abort(u64),
    AudioFailure,
}

/// What the engine does on `ev`.
pub open spec fn event_step(pre: QuizEngine, post: QuizEngine, ev: Event) -> bool {
    match ev {
        Event::BeginRound(now) => begin_round_step(pre, post, now),
        Event::Submit(i, now) => submit_step(pre, post, i as int, now),
        Event::OnDeadline(now) => tick_step(pre, post, now),
        Event::Skip => skip_step(pre, post),
        Event::Tick(now) => tick_step(pre, post, now),
        Event::Next(now) => next_step(pre, post, now),
        Event::Abort(now) => abort_step(pre, post, now),
        Event::AudioFailure => audio_failure_step(pre, post),
    }
}

/// `trace` is the run of `events` from `trace[0]`: each engine follows from
/// the one before by the event between them.
pub open spec fn is_run(trace: Seq<QuizEngine>, events: Seq<Event>) -> bool {
    &&& trace.len() == events.len() + 1
    &&& forall|i: int| 0 <= i < events.len() ==> event_step(trace[i], #[trigger] trace[i + 1], events[i])
}

/// The two rounds hold the same values.
pub open spec fn same_round(x: Round, y: Round) -> bool {
    &&& x.round_index == y.round_index
    &&& x.answer_track_id == y.answer_track_id
    &&& x.choice_track_ids@ == y.choice_track_ids@
    &&& x.source_window == y.source_window
    &&& x.excerpt_window == y.excerpt_window
    &&& x.shown_at == y.shown_at
    &&& x.timer_start == y.timer_start
    &&& x.deadline == y.deadline
    &&& x.outcome == y.outcome
    &&& x.answered_at == y.answered_at
    &&& x.audio_degraded == y.audio_degraded
}

/// The two histories hold the same rounds.
pub open spec fn same_rounds(a: Seq<Round>, b: Seq<Round>) -> bool {
    &&& a.len() == b.len()
    &&& forall|i: int| 0 <= i < a.len() ==> same_round(#[trigger] a[i], b[i])
}

/// The two engines are in the same state: same session, generator, state,
/// rounds and score.
pub open spec fn same_engine(a: QuizEngine, b: QuizEngine) -> bool {
    &&& a.state == b.state
    &&& a.settings == b.settings
    &&& a.library == b.library
    &&& a.rng == b.rng
    &&& a.seed == b.seed
    &&& a.start_ts == b.start_ts
    &&& a.end_ts == b.end_ts
    &&& a.record.score == b.record.score
    &&& same_rounds(a.record.rounds@, b.record.rounds@)
}

proof fn lemma_blocked_same(h1: Seq<Round>, h2: Seq<Round>, cooldown: u64, id: u64)
    requires
        same_rounds(h1, h2),
    ensures
        blocked(h1, cooldown, id) == blocked(h2, cooldown, id),
{
    if blocked(h1, cooldown, id) {
        let i = choose|i: int|
            h1.len() - cooldown <= i < h1.len() && 0 <= i && (#[trigger] h1[i]).outcome
                != Outcome::Skipped && h1[i].answer_track_id == id;
        assert(same_round(h1[i], h2[i]));
    }
    if blocked(h2, cooldown, id) {
        let i = choose|i: int|
            h2.len() - cooldown <= i < h2.len() && 0 <= i && (#[trigger] h2[i]).outcome
                != Outcome::Skipped && h2[i].answer_track_id == id;
        assert(same_round(h1[i], h2[i]));
    }
}

proof fn lemma_eligible_same(tracks: Seq<Track>, h1: Seq<Round>, h2: Seq<Round>, cooldown: u64)
    requires
        same_rounds(h1, h2),
    ensures
        eligible_seq(tracks, h1, cooldown) == eligible_seq(tracks, h2, cooldown),
        eligible_count(tracks, h1, cooldown) == eligible_count(tracks, h2, cooldown),
    decreases tracks.len(),
{
    if tracks.len() > 0 {
        lemma_eligible_same(tracks.drop_last(), h1, h2, cooldown);
        lemma_blocked_same(h1, h2, cooldown, tracks.last().track_id);
    }
    lemma_eligible_seq_len(tracks, h1, cooldown);
    lemma_eligible_seq_len(tracks, h2, cooldown);
}

proof fn lemma_resolve_same(a0: QuizEngine, b0: QuizEngine, a1: QuizEngine, b1: QuizEngine, o: Outcome, at: Option<u64>)
    requires
        same_engine(a0, b0),
        a0.record.rounds@.len() > 0,
        resolve_step(a0, a1, o, at),
        resolve_step(b0, b1, o, at),
    ensures
        same_engine(a1, b1),
{
    let n = a0.record.rounds@.len();
    assert(same_round(a0.record.rounds@[n - 1], b0.record.rounds@[n - 1]));
    assert forall|i: int| 0 <= i < n implies same_round(#[trigger] a1.record.rounds@[i], b1.record.rounds@[i]) by {
        assert(same_round(a0.record.rounds@[i], b0.record.rounds@[i]));
    }
}

proof fn lemma_abort_same(a0: QuizEngine, b0: QuizEngine, a1: QuizEngine, b1: QuizEngine, now: u64)
    requires
        same_engine(a0, b0),
        a0.record.rounds@.len() > 0,
        a0.state == EngineState::AwaitingAnswer,
        abort_step(a0, a1, now),
        abort_step(b0, b1, now),
    ensures
        same_engine(a1, b1),
{
    let n = a0.record.rounds@.len();
    assert forall|i: int| 0 <= i < n implies same_round(#[trigger] a1.record.rounds@[i], b1.record.rounds@[i]) by {
        assert(same_round(a0.record.rounds@[i], b0.record.rounds@[i]));
    }
}

proof fn lemma_audio_same(a0: QuizEngine, b0: QuizEngine, a1: QuizEngine, b1: QuizEngine)
    requires
        same_engine(a0, b0),
        a0.record.rounds@.len() > 0,
        a0.state == EngineState::AwaitingAnswer,
        audio_failure_step(a0, a1),
        audio_failure_step(b0, b1),
    ensures
        same_engine(a1, b1),
{
    let n = a0.record.rounds@.len();
    assert forall|i: int| 0 <= i < n implies same_round(#[trigger] a1.record.rounds@[i], b1.record.rounds@[i]) by {
        assert(same_round(a0.record.rounds@[i], b0.record.rounds@[i]));
    }
}

proof fn lemma_open_same(a0: QuizEngine, b0: QuizEngine, a1: QuizEngine, b1: QuizEngine, now: u64)
    requires
        same_engine(a0, b0),
        open_step(a0, a1, now),
        open_step(b0, b1, now),
    ensures
        same_engine(a1, b1),
{
    let ha = a0.record.rounds@;
    let hb = b0.record.rounds@;
    lemma_eligible_same(a0.library.tracks@, ha, hb, a0.settings.answer_cooldown);
    assert(round_draw(a0.library.tracks@, ha, a0.rng.state, a0.settings) == round_draw(
        b0.library.tracks@,
        hb,
        b0.rng.state,
        b0.settings,
    ));
    let n = ha.len();
    let pa = a1.record.rounds@;
    let pb = b1.record.rounds@;
    if eligible_count(a0.library.tracks@, ha, a0.settings.answer_cooldown) >= a0.settings.choices_per_round {
        assert forall|i: int| 0 <= i < n implies same_round(#[trigger] pa[i], pb[i]) by {
            assert(pa[i] == pa.drop_last()[i]);
            assert(pb[i] == pb.drop_last()[i]);
            assert(same_round(ha[i], hb[i]));
        }
        assert(same_round(pa[n as int], pb[n as int]));
    }
}

/// From two engines in the same state, one event leads to engines in the
/// same state.
pub proof fn lemma_step_deterministic(a0: QuizEngine, b0: QuizEngine, a1: QuizEngine, b1: QuizEngine, ev: Event)
    requires
        a0.wf(),
        b0.wf(),
        same_engine(a0, b0),
        event_step(a0, a1, ev),
        event_step(b0, b1, ev),
    ensures
        same_engine(a1, b1),
{
    let n = a0.record.rounds@.len();
    if n > 0 {
        assert(same_round(a0.record.rounds@[n - 1], b0.record.rounds@[n - 1]));
    }
    match ev {
        Event::BeginRound(now) => {
            if may_begin_round(a0) {
                lemma_open_same(a0, b0, a1, b1, now);
            }
        },
        Event::Submit(i, now) => {
            if may_submit(a0, i as int) {
                let o = answer_outcome(a0.record.rounds@.last(), i as int, now);
                lemma_resolve_same(a0, b0, a1, b1, o, answer_time(o, now));
            }
        },
        Event::OnDeadline(now) => {
            if a0.state == EngineState::AwaitingAnswer && now >= a0.record.rounds@.last().deadline {
                lemma_resolve_same(a0, b0, a1, b1, Outcome::TimedOut, None);
            }
        },
        Event::Tick(now) => {
            if a0.state == EngineState::AwaitingAnswer && now >= a0.record.rounds@.last().deadline {
                lemma_resolve_same(a0, b0, a1, b1, Outcome::TimedOut, None);
            }
        },
        Event::Skip => {
            if a0.state == EngineState::AwaitingAnswer {
                lemma_resolve_same(a0, b0, a1, b1, Outcome::Skipped, None);
            }
        },
        Event::Next(now) => {
            if a0.state == EngineState::RevealingResult && n < a0.settings.rounds_per_session {
                lemma_open_same(a0, b0, a1, b1, now);
            }
        },
        Event::Abort(now) => {
            if a0.state == EngineState::AwaitingAnswer {
                lemma_abort_same(a0, b0, a1, b1, now);
            }
        },
        Event::AudioFailure => {
            if a0.state == EngineState::AwaitingAnswer {
                lemma_audio_same(a0, b0, a1, b1);
            }
        },
    }
}

/// Determinism: two sessions in the same state (as two starts with the same
/// settings, library, time and entropy leave them) that go through the same
/// events, at the same times, stay in the same state at every step: the same
/// rounds, the same score, the same generator. The engines of a run are well
/// formed, as every operation of the engine keeps them.
pub proof fn lemma_deterministic_replay(ta: Seq<QuizEngine>, tb: Seq<QuizEngine>, events: Seq<Event>)
    requires
        is_run(ta, events),
        is_run(tb, events),
        forall|i: int| 0 <= i < ta.len() ==> (#[trigger] ta[i]).wf(),
        forall|i: int| 0 <= i < tb.len() ==> (#[trigger] tb[i]).wf(),
        same_engine(ta[0], tb[0]),
    ensures
        forall|i: int| 0 <= i < ta.len() ==> same_engine(#[trigger] ta[i], tb[i]),
    decreases events.len(),
{
    if events.len() > 0 {
        let k = events.len() - 1;
        let ea = ta.drop_last();
        let eb = tb.drop_last();
        let ev = events.drop_last();
        assert forall|i: int| 0 <= i < ev.len() implies event_step(ea[i], #[trigger] ea[i + 1], ev[i]) by {
            assert(event_step(ta[i], ta[i + 1], events[i]));
        }
        assert forall|i: int| 0 <= i < ev.len() implies event_step(eb[i], #[trigger] eb[i + 1], ev[i]) by {
            assert(event_step(tb[i], tb[i + 1], events[i]));
        }
        assert forall|i: int| 0 <= i < ea.len() implies (#[trigger] ea[i]).wf() by {
            assert(ta[i].wf());
        }
        assert forall|i: int| 0 <= i < eb.len() implies (#[trigger] eb[i]).wf() by {
            assert(tb[i].wf());
        }
        lemma_deterministic_replay(ea, eb, ev);
        assert(ta[k].wf());
        assert(tb[k].wf());
        assert(same_engine(ea[k], eb[k]));
        assert(event_step(ta[k], ta[k + 1], events[k]));
        assert(event_step(tb[k], tb[k + 1], events[k]));
        lemma_step_deterministic(ta[k], tb[k], ta[k + 1], tb[k + 1], events[k]);
        assert forall|i: int| 0 <= i < ta.len() implies same_engine(#[trigger] ta[i], tb[i]) by {
            if i <= k {
                assert(ta[i] == ea[i]);
                assert(tb[i] == eb[i]);
            }
        }
    }
}

/// Two idle engines started with the same settings, library, time and entropy
/// are in the same state.
pub proof fn lemma_start_deterministic(
    a0: QuizEngine,
    b0: QuizEngine,
    a1: QuizEngine,
    b1: QuizEngine,
    settings: QuizSettings,
    library: Library,
    now: u64,
    entropy: u64,
)
    requires
        a0.state == EngineState::Idle,
        b0.state == EngineState::Idle,
        start_step(a0, a1, settings, library, now, entropy),
        start_step(b0, b1, settings, library, now, entropy),
    ensures
        same_engine(a1, b1),
{
}

} // verus!
