use vstd::prelude::*;

use crate::builder::{build_round, matches_draw, round_draw};
use crate::config::{QuizSettings, Scoring, MAX_ROUNDS_PER_SESSION};
use crate::error::ErrorKind;
use crate::library::Library;
use crate::rng::QuizRng;
use crate::round::{blocked, eligible_count, Outcome, Round};
use crate::session::{contribution, lemma_total_score_bound, total_score, SessionRecord};

verus! {

/// How a session ended.
#[derive(Clone, Copy, Debug, PartialEq, Eq, Structural)]
pub struct SessionSummary {
    pub score: u64,
    pub rounds_played: u64,
    /// The library ran out of eligible answers.
    pub exhausted: bool,
    /// The session was aborted by the player.
    pub aborted: bool,
}

/// The lifecycle of a quiz session. The round of `AwaitingAnswer` and
/// `RevealingResult` is the last round of the session record.
#[derive(Clone, Copy, Debug, PartialEq, Eq, Structural)]
pub enum EngineState {
    Idle,
    Ready,
    AwaitingAnswer,
    RevealingResult,
    Finished(SessionSummary),
    Failed(ErrorKind),
}

/// An excerpt the audio player is asked to play.
#[derive(Clone, Copy, Debug, PartialEq, Eq, Structural)]
pub struct PlayRequest {
    pub track_id: u64,
    pub start_ms: u64,
    pub end_ms: u64,
}

/// What the audio player must do after a transition.
#[derive(Clone, Copy, Debug, PartialEq, Eq, Structural)]
pub enum AudioCommand {
    /// Stop the excerpt: the round is no longer awaiting an answer.
    Stop,
    /// Leave the player as it is.
    Unchanged,
}

/// The quiz state machine. It performs no I/O: the caller hands it the time and
/// plays the excerpts it asks for.
#[derive(Debug)]
pub struct QuizEngine {
    pub state: EngineState,
    pub settings: QuizSettings,
    pub library: Library,
    pub record: SessionRecord,
    pub rng: QuizRng,
    /// The seed the session's draws come from.
    pub seed: u64,
    pub start_ts: u64,
    pub end_ts: Option<u64>,
}

/// Each round follows the rules of round generation and knows its position.
pub open spec fn rounds_wf(rounds: Seq<Round>, cfg: QuizSettings, library: Library) -> bool {
    forall|i: int|
        0 <= i < rounds.len() ==> (#[trigger] rounds[i]).valid(cfg, library.tracks@)
            && rounds[i].round_index == i
}

/// Only the last round may still be pending.
pub open spec fn pending_only_last(rounds: Seq<Round>) -> bool {
    forall|i: int|
        0 <= i < rounds.len() && (#[trigger] rounds[i]).outcome == Outcome::Pending ==> i
            == rounds.len() - 1
}

/// An answer does not recur within `cooldown` rounds of a round that was not
/// skipped.
pub open spec fn cooldown_respected(rounds: Seq<Round>, cooldown: u64) -> bool {
    forall|i: int, j: int|
        0 <= i < j < rounds.len() && j - i <= cooldown && (#[trigger] rounds[i]).outcome
            != Outcome::Skipped ==> rounds[i].answer_track_id != (#[trigger] rounds[j]).answer_track_id
}

/// The round with its outcome and answer time set.
pub open spec fn resolved(r: Round, outcome: Outcome, answered_at: Option<u64>) -> Round {
    Round { outcome, answered_at, ..r }
}

/// The outcome of choosing position `idx` of `r` at time `now`.
pub open spec fn answer_outcome(r: Round, idx: int, now: u64) -> Outcome {
    if now >= r.deadline {
        Outcome::TimedOut
    } else if r.choice_track_ids@[idx] == r.answer_track_id {
        Outcome::Correct
    } else {
        Outcome::Incorrect(r.choice_track_ids@[idx])
    }
}

/// When an answer of this outcome was given at `now`.
pub open spec fn answer_time(outcome: Outcome, now: u64) -> Option<u64> {
    if outcome == Outcome::TimedOut || outcome == Outcome::Skipped {
        None
    } else {
        Some(now)
    }
}

/// The excerpt of a round, as a request to the audio player.
pub open spec fn play_request_of(r: Round) -> PlayRequest {
    PlayRequest {
        track_id: r.answer_track_id,
        start_ms: r.excerpt_window.start_ms,
        end_ms: r.excerpt_window.end_ms,
    }
}

/// The two engines run the same session: settings, library, seed and start.
pub open spec fn same_session(a: QuizEngine, b: QuizEngine) -> bool {
    &&& a.settings == b.settings
    &&& a.library == b.library
    &&& a.seed == b.seed
    &&& a.start_ts == b.start_ts
}

/// `post` is `pre` with its pending last round resolved to `outcome`.
pub open spec fn resolve_step(pre: QuizEngine, post: QuizEngine, outcome: Outcome, answered_at: Option<u64>) -> bool {
    let n = pre.record.rounds@.len();
    &&& same_session(pre, post)
    &&& post.rng == pre.rng
    &&& post.end_ts == pre.end_ts
    &&& post.state == EngineState::RevealingResult
    &&& post.record.rounds@ == pre.record.rounds@.update(
        n - 1,
        resolved(pre.record.rounds@[n - 1], outcome, answered_at),
    )
    &&& post.record.score == pre.record.score + contribution(post.record.rounds@[n - 1], pre.settings.scoring)
}

/// What one `tick(now)` does: at or past the deadline of a pending round it
/// times the round out; otherwise nothing changes.
pub open spec fn tick_step(pre: QuizEngine, post: QuizEngine, now: u64) -> bool {
    if pre.state == EngineState::AwaitingAnswer && now >= pre.record.rounds@.last().deadline {
        resolve_step(pre, post, Outcome::TimedOut, None)
    } else {
        post == pre
    }
}

/// What `start(settings, library, now, entropy)` does: an idle engine becomes
/// ready for a fresh session seeded from the settings, or from `entropy` when
/// they fix no seed; any other engine stays as it is.
pub open spec fn start_step(
    pre: QuizEngine,
    post: QuizEngine,
    settings: QuizSettings,
    library: Library,
    now: u64,
    entropy: u64,
) -> bool {
    if pre.state == EngineState::Idle {
        &&& post.state == EngineState::Ready
        &&& post.settings == settings
        &&& post.library == library
        &&& post.record.rounds@.len() == 0
        &&& post.record.score == 0
        &&& post.seed == (match settings.rng_seed {
            Some(s) => s,
            None => entropy,
        })
        &&& post.rng.state == post.seed
        &&& post.start_ts == now
        &&& post.end_ts.is_none()
    } else {
        post == pre
    }
}

impl QuizEngine {
    /// The invariant of every engine.
    pub open spec fn wf(&self) -> bool {
        let rounds = self.record.rounds@;
        &&& self.settings.valid()
        &&& self.library.wf()
        &&& rounds.len() <= self.settings.rounds_per_session
        &&& rounds_wf(rounds, self.settings, self.library)
        &&& pending_only_last(rounds)
        &&& cooldown_respected(rounds, self.settings.answer_cooldown)
        &&& self.record.score == total_score(rounds, self.settings.scoring)
        &&& (self.state == EngineState::Idle || self.state == EngineState::Ready) ==> rounds.len() == 0
        &&& self.state == EngineState::AwaitingAnswer ==> rounds.len() > 0 && rounds.last().outcome
            == Outcome::Pending
        &&& self.state == EngineState::RevealingResult ==> rounds.len() > 0 && rounds.last().outcome
            != Outcome::Pending
        &&& rounds.len() > 0 && rounds.last().outcome == Outcome::Pending ==> self.state
            == EngineState::AwaitingAnswer
        &&& self.state is Finished ==> {
            &&& forall|i: int| 0 <= i < rounds.len() ==> (#[trigger] rounds[i]).outcome != Outcome::Pending
            &&& self.state->Finished_0.score == self.record.score
            &&& self.state->Finished_0.rounds_played == rounds.len()
        }
    }

    /// An idle engine with the default settings and an empty library.
    pub fn new() -> (r: QuizEngine)
        ensures
            r.wf(),
            r.state == EngineState::Idle,
            r.record.rounds@.len() == 0,
            r.record.score == 0,
    {
        QuizEngine {
            state: EngineState::Idle,
            settings: QuizSettings::default(),
            library: Library { snapshot_id: 0, tracks: Vec::new() },
            record: SessionRecord::new(),
            rng: QuizRng::from_seed(0),
            seed: 0,
            start_ts: 0,
            end_ts: None,
        }
    }

    /// Starts a session on `library` at time `now`. The draws are seeded from
    /// `settings.rng_seed`, or from `entropy` when the settings fix no seed.
    pub fn start(&mut self, settings: QuizSettings, library: Library, now: u64, entropy: u64) -> (r:
        Result<(), ErrorKind>)
        requires
            old(self).wf(),
            settings.valid(),
            library.wf(),
        ensures
            final(self).wf(),
            start_step(*old(self), *final(self), settings, library, now, entropy),
            r == (if old(self).state == EngineState::Idle {
                Ok(())
            } else {
                Err(ErrorKind::AlreadyStarted)
            }),
    {
        if self.state != EngineState::Idle {
            return Err(ErrorKind::AlreadyStarted);
        }
        let seed = match settings.rng_seed {
            Some(s) => s,
            None => entropy,
        };
        self.settings = settings;
        self.library = library;
        self.record = SessionRecord::new();
        self.rng = QuizRng::from_seed(seed);
        self.seed = seed;
        self.start_ts = now;
        self.end_ts = None;
        self.state = EngineState::Ready;
        Ok(())
    }

    /// The round being asked or revealed, if any.
    pub fn current_round(&self) -> (r: Option<&Round>)
        requires
            self.wf(),
        ensures
            (self.state == EngineState::AwaitingAnswer || self.state == EngineState::RevealingResult)
                ==> r == Some(&self.record.rounds@.last()),
            !(self.state == EngineState::AwaitingAnswer || self.state == EngineState::RevealingResult)
                ==> r.is_none(),
    {
        if self.state == EngineState::AwaitingAnswer || self.state == EngineState::RevealingResult {
            let n = self.record.rounds.len();
            Some(&self.record.rounds[n - 1])
        } else {
            None
        }
    }

    /// The session's score.
    pub fn score(&self) -> (r: u64)
        requires
            self.wf(),
        ensures
            r == total_score(self.record.rounds@, self.settings.scoring),
    {
        self.record.score
    }

    fn summary(&self, exhausted: bool, aborted: bool) -> (r: SessionSummary)
        requires
            self.record.rounds@.len() <= u64::MAX,
        ensures
            r == (SessionSummary {
                score: self.record.score,
                rounds_played: self.record.rounds@.len() as u64,
                exhausted,
                aborted,
            }),
    {
        SessionSummary {
            score: self.record.score,
            rounds_played: self.record.rounds.len() as u64,
            exhausted,
            aborted,
        }
    }
}

/// `post` is `pre` after an attempt to open the next round at `now`: the
/// session finishes as exhausted when too few answers are eligible; otherwise
/// a new pending round is appended and its excerpt requested.
pub open spec fn open_step(pre: QuizEngine, post: QuizEngine, now: u64) -> bool {
    let n = pre.record.rounds@.len();
    &&& same_session(pre, post)
    &&& post.record.score == pre.record.score
    &&& if eligible_count(pre.library.tracks@, pre.record.rounds@, pre.settings.answer_cooldown)
        < pre.settings.choices_per_round {
        &&& post.record.rounds@ == pre.record.rounds@
        &&& post.rng == pre.rng
        &&& post.state == EngineState::Finished(
            SessionSummary { score: pre.record.score, rounds_played: n as u64, exhausted: true, aborted: false },
        )
        &&& post.end_ts == Some(now)
    } else {
        let round = post.record.rounds@.last();
        let draw = round_draw(pre.library.tracks@, pre.record.rounds@, pre.rng.state, pre.settings);
        &&& post.record.rounds@.len() == n + 1
        &&& post.record.rounds@.drop_last() == pre.record.rounds@
        &&& post.state == EngineState::AwaitingAnswer
        &&& post.end_ts == pre.end_ts
        &&& round.round_index == n
        &&& round.shown_at == now
        &&& round.outcome == Outcome::Pending
        &&& round.answered_at.is_none()
        &&& !round.audio_degraded
        &&& !blocked(pre.record.rounds@, pre.settings.answer_cooldown, round.answer_track_id)
        &&& round.valid(pre.settings, pre.library.tracks@)
        &&& matches_draw(round, draw)
        &&& post.rng.state == draw.rng_after
    }
}

/// What opening a round hands back: the excerpt to play, or
/// `InsufficientLibrary` when the session ran out of answers.
pub open spec fn open_result(pre: QuizEngine, post: QuizEngine) -> Result<PlayRequest, ErrorKind> {
    if eligible_count(pre.library.tracks@, pre.record.rounds@, pre.settings.answer_cooldown)
        < pre.settings.choices_per_round {
        Err(ErrorKind::InsufficientLibrary)
    } else {
        Ok(play_request_of(post.record.rounds@.last()))
    }
}

impl QuizEngine {
    /// Resolves the pending round.
    fn resolve(&mut self, outcome: Outcome, answered_at: Option<u64>)
        requires
            old(self).wf(),
            old(self).state == EngineState::AwaitingAnswer,
            outcome != Outcome::Pending,
        ensures
            final(self).wf(),
            resolve_step(*old(self), *final(self), outcome, answered_at),
    {
        let ghost pre = self.record.rounds@;
        let mut r = self.record.rounds.pop().unwrap();
        r.outcome = outcome;
        r.answered_at = answered_at;
        let p = round_points(&r, self.settings.scoring);
        proof {
            let post = pre.drop_last().push(r);
            assert(post == pre.update(pre.len() - 1, resolved(pre.last(), outcome, answered_at)));
            assert(post.drop_last() == pre.drop_last());
            assert(pre[pre.len() - 1] == pre.last());
            lemma_total_score_bound(post, self.settings.scoring);
            assert(total_score(post, self.settings.scoring) == self.record.score + p);
            assert(post.len() <= MAX_ROUNDS_PER_SESSION);
            assert forall|i: int| 0 <= i < post.len() implies (#[trigger] post[i]).valid(
                self.settings,
                self.library.tracks@,
            ) && post[i].round_index == i by {
                assert(pre[i].valid(self.settings, self.library.tracks@));
            }
        }
        self.record.score = self.record.score + p;
        self.record.rounds.push(r);
        self.state = EngineState::RevealingResult;
    }

    /// Opens the next round.
    fn open_round(&mut self, now: u64) -> (r: Result<PlayRequest, ErrorKind>)
        requires
            old(self).wf(),
            old(self).state == EngineState::Ready || old(self).state == EngineState::RevealingResult,
            old(self).record.rounds@.len() < old(self).settings.rounds_per_session,
        ensures
            final(self).wf(),
            open_step(*old(self), *final(self), now),
            r == open_result(*old(self), *final(self)),
    {
        let ghost pre = self.record.rounds@;
        let index = self.record.rounds.len() as u64;
        let built = build_round(&self.library, &self.record.rounds, &mut self.rng, &self.settings, index, now);
        match built {
            Err(e) => {
                self.state = EngineState::Finished(self.summary(true, false));
                self.end_ts = Some(now);
                Err(e)
            },
            Ok(round) => {
                let play = PlayRequest {
                    track_id: round.answer_track_id,
                    start_ms: round.excerpt_window.start_ms,
                    end_ms: round.excerpt_window.end_ms,
                };
                let ghost g = round;
                self.record.rounds.push(round);
                proof {
                    let post = self.record.rounds@;
                    assert(post.drop_last() == pre);
                    assert(post.last() == g);
                    assert(total_score(post, self.settings.scoring) == total_score(pre, self.settings.scoring));
                    assert forall|i: int, j: int|
                        0 <= i < j < post.len() && j - i <= self.settings.answer_cooldown && (
                        #[trigger] post[i]).outcome != Outcome::Skipped implies post[i].answer_track_id
                        != (#[trigger] post[j]).answer_track_id by {
                        if j == pre.len() {
                            assert(post[i] == pre[i]);
                            assert(!(pre.len() - self.settings.answer_cooldown <= i < pre.len() && 0 <= i
                                && pre[i].outcome != Outcome::Skipped && pre[i].answer_track_id
                                == g.answer_track_id));
                        } else {
                            assert(post[i] == pre[i]);
                            assert(post[j] == pre[j]);
                        }
                    }
                    assert forall|i: int| 0 <= i < post.len() implies (#[trigger] post[i]).valid(
                        self.settings,
                        self.library.tracks@,
                    ) && post[i].round_index == i by {
                        if i < pre.len() {
                            assert(post[i] == pre[i]);
                        }
                    }
                    assert forall|i: int|
                        0 <= i < post.len() && (#[trigger] post[i]).outcome == Outcome::Pending implies i
                        == post.len() - 1 by {
                        if i < pre.len() {
                            assert(post[i] == pre[i]);
                        }
                    }
                }
                self.state = EngineState::AwaitingAnswer;
                Ok(play)
            },
        }
    }
}

/// `post` is `pre` finished at `now`, with its rounds as they are.
pub open spec fn finish_step(pre: QuizEngine, post: QuizEngine, now: u64, exhausted: bool, aborted: bool) -> bool {
    &&& same_session(pre, post)
    &&& post.rng == pre.rng
    &&& post.record == pre.record
    &&& post.state == EngineState::Finished(
        SessionSummary {
            score: pre.record.score,
            rounds_played: pre.record.rounds@.len() as u64,
            exhausted,
            aborted,
        },
    )
    &&& post.end_ts == Some(now)
}

/// What `on_error(kind)` does: the session fails; a pending round counts as
/// skipped.
pub open spec fn fail_step(pre: QuizEngine, post: QuizEngine, kind: ErrorKind) -> bool {
    let n = pre.record.rounds@.len();
    &&& same_session(pre, post)
    &&& post.rng == pre.rng
    &&& post.end_ts == pre.end_ts
    &&& post.state == EngineState::Failed(kind)
    &&& post.record.score == pre.record.score
    &&& if pre.state == EngineState::AwaitingAnswer {
        post.record.rounds@ == pre.record.rounds@.update(
            n - 1,
            resolved(pre.record.rounds@[n - 1], Outcome::Skipped, None),
        )
    } else {
        post.record == pre.record
    }
}

/// `begin_round` may open a round: the engine is ready, or shows a result
/// while the session has rounds left.
pub open spec fn may_begin_round(e: QuizEngine) -> bool {
    e.state == EngineState::Ready || (e.state == EngineState::RevealingResult
        && e.record.rounds@.len() < e.settings.rounds_per_session)
}

/// What `begin_round(now)` does.
pub open spec fn begin_round_step(pre: QuizEngine, post: QuizEngine, now: u64) -> bool {
    if may_begin_round(pre) {
        open_step(pre, post, now)
    } else {
        post == pre
    }
}

/// `submit` answers: a round is pending and the index is one of its choices.
pub open spec fn may_submit(e: QuizEngine, choice_index: int) -> bool {
    e.state == EngineState::AwaitingAnswer && choice_index < e.settings.choices_per_round
}

/// What `submit(choice_index, now)` does.
pub open spec fn submit_step(pre: QuizEngine, post: QuizEngine, choice_index: int, now: u64) -> bool {
    if may_submit(pre, choice_index) {
        let o = answer_outcome(pre.record.rounds@.last(), choice_index, now);
        resolve_step(pre, post, o, answer_time(o, now))
    } else {
        post == pre
    }
}

/// What `skip()` does.
pub open spec fn skip_step(pre: QuizEngine, post: QuizEngine) -> bool {
    if pre.state == EngineState::AwaitingAnswer {
        resolve_step(pre, post, Outcome::Skipped, None)
    } else {
        post == pre
    }
}

/// What `next(now)` does.
pub open spec fn next_step(pre: QuizEngine, post: QuizEngine, now: u64) -> bool {
    if pre.state != EngineState::RevealingResult {
        post == pre
    } else if pre.record.rounds@.len() >= pre.settings.rounds_per_session {
        finish_step(pre, post, now, false, false)
    } else {
        open_step(pre, post, now)
    }
}

/// What `abort(now)` does: a pending round counts as skipped and the session
/// finishes.
pub open spec fn abort_step(pre: QuizEngine, post: QuizEngine, now: u64) -> bool {
    let n = pre.record.rounds@.len();
    if pre.state == EngineState::RevealingResult {
        finish_step(pre, post, now, false, true)
    } else if pre.state == EngineState::AwaitingAnswer {
        &&& same_session(pre, post)
        &&& post.rng == pre.rng
        &&& post.record.rounds@ == pre.record.rounds@.update(
            n - 1,
            resolved(pre.record.rounds@[n - 1], Outcome::Skipped, None),
        )
        &&& post.record.score == pre.record.score
        &&& post.state == EngineState::Finished(
            SessionSummary { score: pre.record.score, rounds_played: n as u64, exhausted: false, aborted: true },
        )
        &&& post.end_ts == Some(now)
    } else {
        post == pre
    }
}

/// What `report_audio_failure()` does: the pending round is flagged.
pub open spec fn audio_failure_step(pre: QuizEngine, post: QuizEngine) -> bool {
    let n = pre.record.rounds@.len();
    if pre.state == EngineState::AwaitingAnswer {
        &&& same_session(pre, post)
        &&& post.rng == pre.rng
        &&& post.end_ts == pre.end_ts
        &&& post.state == pre.state
        &&& post.record.rounds@ == pre.record.rounds@.update(
            n - 1,
            Round { audio_degraded: true, ..pre.record.rounds@[n - 1] },
        )
        &&& post.record.score == pre.record.score
    } else {
        post == pre
    }
}

impl QuizEngine {
    /// Opens the first round, or the next one after a revealed result while
    /// the session has rounds left. Elsewhere the call is an invalid transition
    /// and changes nothing.
    pub fn begin_round(&mut self, now: u64) -> (r: Result<PlayRequest, ErrorKind>)
        requires
            old(self).wf(),
        ensures
            final(self).wf(),
            begin_round_step(*old(self), *final(self), now),
            r == (if may_begin_round(*old(self)) {
                open_result(*old(self), *final(self))
            } else {
                Err(ErrorKind::InvalidTransition)
            }),
    {
        if self.state == EngineState::Ready || (self.state == EngineState::RevealingResult
            && (self.record.rounds.len() as u64) < self.settings.rounds_per_session) {
            self.open_round(now)
        } else {
            Err(ErrorKind::InvalidTransition)
        }
    }

    /// Answers the pending round with the choice at `choice_index`, and stops
    /// the excerpt. At or after the deadline the round times out instead. Without a pending round, or
    /// with an index past the choices, the call changes nothing.
    pub fn submit(&mut self, choice_index: usize, now: u64) -> (r: Result<(Outcome, AudioCommand), ErrorKind>)
        requires
            old(self).wf(),
        ensures
            final(self).wf(),
            submit_step(*old(self), *final(self), choice_index as int, now),
            r == (if may_submit(*old(self), choice_index as int) {
                Ok((answer_outcome(old(self).record.rounds@.last(), choice_index as int, now), AudioCommand::Stop))
            } else {
                Err(ErrorKind::InvalidTransition)
            }),
    {
        if self.state != EngineState::AwaitingAnswer || (choice_index as u64)
            >= self.settings.choices_per_round {
            return Err(ErrorKind::InvalidTransition);
        }
        let last = self.record.rounds.len() - 1;
        proof {
            assert(self.record.rounds@[last as int].valid(self.settings, self.library.tracks@));
        }
        let round = &self.record.rounds[last];
        let outcome = if now >= round.deadline {
            Outcome::TimedOut
        } else {
            let chosen = round.choice_track_ids[choice_index];
            if chosen == round.answer_track_id {
                Outcome::Correct
            } else {
                Outcome::Incorrect(chosen)
            }
        };
        let at = if now >= round.deadline {
            None
        } else {
            Some(now)
        };
        self.resolve(outcome, at);
        Ok((outcome, AudioCommand::Stop))
    }

    /// Times the pending round out once its deadline has come, and stops the
    /// excerpt.
    pub fn on_deadline(&mut self, now: u64) -> (r: Result<AudioCommand, ErrorKind>)
        requires
            old(self).wf(),
        ensures
            final(self).wf(),
            tick_step(*old(self), *final(self), now),
            r == (if old(self).state == EngineState::AwaitingAnswer && now
                >= old(self).record.rounds@.last().deadline {
                Ok(AudioCommand::Stop)
            } else {
                Err(ErrorKind::InvalidTransition)
            }),
    {
        if self.state != EngineState::AwaitingAnswer {
            return Err(ErrorKind::InvalidTransition);
        }
        let last = self.record.rounds.len() - 1;
        if now < self.record.rounds[last].deadline {
            return Err(ErrorKind::InvalidTransition);
        }
        self.resolve(Outcome::TimedOut, None);
        Ok(AudioCommand::Stop)
    }

    /// Skips the pending round and stops the excerpt; the round scores nothing
    /// and does not hold its answer back from the following rounds.
    pub fn skip(&mut self) -> (r: Result<AudioCommand, ErrorKind>)
        requires
            old(self).wf(),
        ensures
            final(self).wf(),
            skip_step(*old(self), *final(self)),
            r == (if old(self).state == EngineState::AwaitingAnswer {
                Ok(AudioCommand::Stop)
            } else {
                Err(ErrorKind::InvalidTransition)
            }),
    {
        if self.state != EngineState::AwaitingAnswer {
            return Err(ErrorKind::InvalidTransition);
        }
        self.resolve(Outcome::Skipped, None);
        Ok(AudioCommand::Stop)
    }

    /// Observes the time: a pending round whose deadline has come times out,
    /// and its excerpt stops.
    pub fn tick(&mut self, now: u64) -> (r: AudioCommand)
        requires
            old(self).wf(),
        ensures
            final(self).wf(),
            tick_step(*old(self), *final(self), now),
            r == (if old(self).state == EngineState::AwaitingAnswer && now
                >= old(self).record.rounds@.last().deadline {
                AudioCommand::Stop
            } else {
                AudioCommand::Unchanged
            }),
    {
        match self.on_deadline(now) {
            Ok(stop) => stop,
            Err(_) => AudioCommand::Unchanged,
        }
    }

    /// After a revealed result: opens the next round while the session has
    /// rounds left, else finishes the session.
    pub fn next(&mut self, now: u64) -> (r: Result<Option<PlayRequest>, ErrorKind>)
        requires
            old(self).wf(),
        ensures
            final(self).wf(),
            next_step(*old(self), *final(self), now),
            old(self).state != EngineState::RevealingResult ==> r == Err::<
                Option<PlayRequest>,
                ErrorKind,
            >(ErrorKind::InvalidTransition),
            old(self).state == EngineState::RevealingResult && old(self).record.rounds@.len()
                >= old(self).settings.rounds_per_session ==> r == Ok::<Option<PlayRequest>, ErrorKind>(
                None,
            ),
            old(self).state == EngineState::RevealingResult && old(self).record.rounds@.len()
                < old(self).settings.rounds_per_session ==> r == (match open_result(
                *old(self),
                *final(self),
            ) {
                Ok(p) => Ok(Some(p)),
                Err(e) => Err(e),
            }),
    {
        if self.state != EngineState::RevealingResult {
            return Err(ErrorKind::InvalidTransition);
        }
        if (self.record.rounds.len() as u64) >= self.settings.rounds_per_session {
            self.state = EngineState::Finished(self.summary(false, false));
            self.end_ts = Some(now);
            return Ok(None);
        }
        match self.open_round(now) {
            Ok(p) => Ok(Some(p)),
            Err(e) => Err(e),
        }
    }

    /// Ends the session early and stops the excerpt. A pending round counts as
    /// skipped.
    pub fn abort(&mut self, now: u64) -> (r: Result<AudioCommand, ErrorKind>)
        requires
            old(self).wf(),
        ensures
            final(self).wf(),
            abort_step(*old(self), *final(self), now),
            r == (if old(self).state == EngineState::AwaitingAnswer || old(self).state
                == EngineState::RevealingResult {
                Ok(AudioCommand::Stop)
            } else {
                Err(ErrorKind::InvalidTransition)
            }),
    {
        if self.state == EngineState::AwaitingAnswer {
            self.resolve(Outcome::Skipped, None);
        } else if self.state != EngineState::RevealingResult {
            return Err(ErrorKind::InvalidTransition);
        }
        self.state = EngineState::Finished(self.summary(false, true));
        self.end_ts = Some(now);
        Ok(AudioCommand::Stop)
    }

    /// Records that the excerpt of the pending round could not be played. The
    /// failure is not fatal: the round goes on silently, flagged as degraded,
    /// and the failure is handed back as `AudioStartFailed`.
    pub fn report_audio_failure(&mut self) -> (r: Result<(), ErrorKind>)
        requires
            old(self).wf(),
        ensures
            final(self).wf(),
            audio_failure_step(*old(self), *final(self)),
            r == Err::<(), ErrorKind>(if old(self).state == EngineState::AwaitingAnswer {
                ErrorKind::AudioStartFailed
            } else {
                ErrorKind::InvalidTransition
            }),
    {
        if self.state != EngineState::AwaitingAnswer {
            return Err(ErrorKind::InvalidTransition);
        }
        let ghost pre = self.record.rounds@;
        let mut r = self.record.rounds.pop().unwrap();
        r.audio_degraded = true;
        proof {
            let post = pre.drop_last().push(r);
            assert(post == pre.update(pre.len() - 1, Round { audio_degraded: true, ..pre[pre.len() - 1] }));
            assert(post.drop_last() == pre.drop_last());
            assert(pre[pre.len() - 1] == pre.last());
            assert(total_score(post, self.settings.scoring) == total_score(pre, self.settings.scoring));
            assert forall|i: int| 0 <= i < post.len() implies (#[trigger] post[i]).valid(
                self.settings,
                self.library.tracks@,
            ) && post[i].round_index == i by {
                assert(pre[i].valid(self.settings, self.library.tracks@));
            }
        }
        self.record.rounds.push(r);
        Err(ErrorKind::AudioStartFailed)
    }

    /// Fails the session with `kind`. A pending round counts as skipped, and
    /// the excerpt stops.
    pub fn on_error(&mut self, kind: ErrorKind) -> (r: AudioCommand)
        requires
            old(self).wf(),
        ensures
            final(self).wf(),
            fail_step(*old(self), *final(self), kind),
            r == AudioCommand::Stop,
    {
        if self.state == EngineState::AwaitingAnswer {
            self.resolve(Outcome::Skipped, None);
        }
        self.state = EngineState::Failed(kind);
        AudioCommand::Stop
    }

    /// Compares the library's current snapshot with the session's; a change
    /// during a session is fatal and fails it as `on_error` does, so the
    /// excerpt stops.
    pub fn check_snapshot(&mut self, snapshot_id: u64) -> (r: Result<(), ErrorKind>)
        requires
            old(self).wf(),
        ensures
            final(self).wf(),
            snapshot_id != old(self).library.snapshot_id && (old(self).state == EngineState::Ready
                || old(self).state == EngineState::AwaitingAnswer || old(self).state
                == EngineState::RevealingResult) ==> r == Err::<(), ErrorKind>(
                ErrorKind::SnapshotInvalidated,
            ) && fail_step(*old(self), *final(self), ErrorKind::SnapshotInvalidated),
            !(snapshot_id != old(self).library.snapshot_id && (old(self).state == EngineState::Ready
                || old(self).state == EngineState::AwaitingAnswer || old(self).state
                == EngineState::RevealingResult)) ==> r is Ok && *final(self) == *old(self),
    {
        if snapshot_id != self.library.snapshot_id && (self.state == EngineState::Ready || self.state
            == EngineState::AwaitingAnswer || self.state == EngineState::RevealingResult) {
            let _ = self.on_error(ErrorKind::SnapshotInvalidated);
            Err(ErrorKind::SnapshotInvalidated)
        } else {
            Ok(())
        }
    }
}

/// What a round adds to the score.
pub fn round_points(r: &Round, scoring: Scoring) -> (p: u64)
    ensures
        p == contribution(*r, scoring),
{
    match r.outcome {
        Outcome::Correct => match scoring {
            Scoring::Flat => 1,
            Scoring::Fast => {
                let elapsed: u64 = match r.answered_at {
                    Some(t) => if t >= r.timer_start {
                        t - r.timer_start
                    } else {
                        0
                    },
                    None => 1000,
                };
                if elapsed < 1000 {
                    1 + (1000 - elapsed) / 100
                } else {
                    1
                }
            },
        },
        _ => 0,
    }
}

} // verus!
