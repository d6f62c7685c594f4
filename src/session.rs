use vstd::prelude::*;

use crate::config::Scoring;
use crate::round::{blocked, Outcome, Round};

verus! {

/// Largest bonus a fast answer earns.
pub const MAX_FAST_BONUS: u64 = 10;

/// The bonus of `scoring = fast` for an answer given `elapsed` ms after the
/// timer started: `max(0, 1000 - elapsed) / 100`, rounded down.
pub open spec fn fast_bonus(elapsed: int) -> nat {
    if elapsed < 1000 {
        ((1000 - elapsed) / 100) as nat
    } else {
        0
    }
}

/// The milliseconds between the start of the round's timer and its answer.
pub open spec fn answer_elapsed(r: Round) -> int {
    match r.answered_at {
        Some(t) => if t >= r.timer_start {
            t - r.timer_start
        } else {
            0
        },
        None => 1000,
    }
}

/// What one round adds to the score.
pub open spec fn contribution(r: Round, scoring: Scoring) -> nat {
    match r.outcome {
        Outcome::Correct => 1 + match scoring {
            Scoring::Flat => 0nat,
            Scoring::Fast => fast_bonus(answer_elapsed(r)),
        },
        _ => 0,
    }
}

/// The sum of the contributions of all rounds.
pub open spec fn total_score(rounds: Seq<Round>, scoring: Scoring) -> nat
    decreases rounds.len(),
{
    if rounds.len() == 0 {
        0
    } else {
        total_score(rounds.drop_last(), scoring) + contribution(rounds.last(), scoring)
    }
}

/// The number of rounds answered correctly.
pub open spec fn correct_count(rounds: Seq<Round>) -> nat
    decreases rounds.len(),
{
    if rounds.len() == 0 {
        0
    } else {
        correct_count(rounds.drop_last()) + if rounds.last().outcome == Outcome::Correct {
            1nat
        } else {
            0nat
        }
    }
}

/// A round that was answered, wrongly answered or timed out.
pub open spec fn is_answered(o: Outcome) -> bool {
    o == Outcome::Correct || o is Incorrect || o == Outcome::TimedOut
}

/// The number of rounds that were answered, correctly or not, or timed out.
pub open spec fn answered_count(rounds: Seq<Round>) -> nat
    decreases rounds.len(),
{
    if rounds.len() == 0 {
        0
    } else {
        answered_count(rounds.drop_last()) + if is_answered(rounds.last().outcome) {
            1nat
        } else {
            0nat
        }
    }
}

pub proof fn lemma_total_score_bound(rounds: Seq<Round>, scoring: Scoring)
    ensures
        total_score(rounds, scoring) <= (1 + MAX_FAST_BONUS) * rounds.len(),
    decreases rounds.len(),
{
    if rounds.len() > 0 {
        lemma_total_score_bound(rounds.drop_last(), scoring);
    }
}

pub proof fn lemma_counts_bound(rounds: Seq<Round>)
    ensures
        correct_count(rounds) <= answered_count(rounds) <= rounds.len(),
    decreases rounds.len(),
{
    if rounds.len() > 0 {
        lemma_counts_bound(rounds.drop_last());
    }
}

/// The correct answers over the answered rounds.
#[derive(Clone, Copy, Debug, PartialEq, Eq, Structural)]
pub struct Accuracy {
    pub correct: u64,
    pub answered: u64,
}

/// The rounds of a session, in order, and the score they add up to.
#[derive(Debug)]
pub struct SessionRecord {
    pub rounds: Vec<Round>,
    pub score: u64,
}

impl SessionRecord {
    pub fn new() -> (r: SessionRecord)
        ensures
            r.rounds@.len() == 0,
            r.score == 0,
    {
        SessionRecord { rounds: Vec::new(), score: 0 }
    }

    pub fn score(&self) -> (r: u64)
        ensures
            r == self.score,
    {
        self.score
    }

    pub fn len(&self) -> (r: usize)
        ensures
            r == self.rounds@.len(),
    {
        self.rounds.len()
    }

    pub fn correct_count(&self) -> (r: u64)
        requires
            self.rounds@.len() <= u64::MAX,
        ensures
            r == correct_count(self.rounds@),
    {
        let mut c: u64 = 0;
        let mut i: usize = 0;
        while i < self.rounds.len()
            invariant
                i <= self.rounds@.len() <= u64::MAX,
                c == correct_count(self.rounds@.take(i as int)),
            decreases self.rounds@.len() - i,
        {
            proof {
                let t = self.rounds@.take(i + 1);
                assert(t.drop_last() == self.rounds@.take(i as int));
                lemma_counts_bound(t);
            }
            if self.rounds[i].outcome == Outcome::Correct {
                c = c + 1;
            }
            i = i + 1;
        }
        proof {
            assert(self.rounds@.take(i as int) == self.rounds@);
        }
        c
    }

    pub fn answered_count(&self) -> (r: u64)
        requires
            self.rounds@.len() <= u64::MAX,
        ensures
            r == answered_count(self.rounds@),
    {
        let mut c: u64 = 0;
        let mut i: usize = 0;
        while i < self.rounds.len()
            invariant
                i <= self.rounds@.len() <= u64::MAX,
                c == answered_count(self.rounds@.take(i as int)),
            decreases self.rounds@.len() - i,
        {
            proof {
                let t = self.rounds@.take(i + 1);
                assert(t.drop_last() == self.rounds@.take(i as int));
                lemma_counts_bound(t);
            }
            let o = self.rounds[i].outcome;
            if o == Outcome::Correct || o == Outcome::TimedOut || matches!(o, Outcome::Incorrect(_)) {
                c = c + 1;
            }
            i = i + 1;
        }
        proof {
            assert(self.rounds@.take(i as int) == self.rounds@);
        }
        c
    }

    /// `correct / answered`, as the two counts.
    pub fn accuracy(&self) -> (r: Accuracy)
        requires
            self.rounds@.len() <= u64::MAX,
        ensures
            r.correct == correct_count(self.rounds@),
            r.answered == answered_count(self.rounds@),
    {
        Accuracy { correct: self.correct_count(), answered: self.answered_count() }
    }

    /// The answers of those of the last `k` rounds that were not skipped:
    /// exactly the identifiers that a cooldown of `k` keeps from recurring.
    pub fn recent_answer_ids(&self, k: u64) -> (r: Vec<u64>)
        ensures
            forall|id: u64| r@.contains(id) <==> blocked(self.rounds@, k, id),
    {
        let len = self.rounds.len();
        let start: usize = if (k as u128) >= (len as u128) {
            0
        } else {
            len - k as usize
        };
        let mut r: Vec<u64> = Vec::new();
        let mut i: usize = start;
        while i < len
            invariant
                len == self.rounds@.len(),
                start <= i <= len,
                start as int == (if k >= len { 0 } else { len - k }),
                forall|id: u64|
                    r@.contains(id) <==> exists|j: int|
                        start <= j < i && (#[trigger] self.rounds@[j]).outcome != Outcome::Skipped
                            && self.rounds@[j].answer_track_id == id,
            decreases len - i,
        {
            let ghost before = r@;
            if self.rounds[i].outcome != Outcome::Skipped {
                r.push(self.rounds[i].answer_track_id);
                proof {
                    assert forall|id: u64|
                        r@.contains(id) <==> exists|j: int|
                            start <= j < i + 1 && (#[trigger] self.rounds@[j]).outcome
                                != Outcome::Skipped && self.rounds@[j].answer_track_id == id by {
                        if r@.contains(id) && !before.contains(id) {
                            assert(self.rounds@[i as int].answer_track_id == id);
                        }
                        if before.contains(id) {
                            assert(r@.contains(id)) by {
                                let x = choose|x: int| 0 <= x < before.len() && before[x] == id;
                                assert(r@[x] == id);
                            }
                        }
                        if exists|j: int|
                            start <= j < i + 1 && (#[trigger] self.rounds@[j]).outcome
                                != Outcome::Skipped && self.rounds@[j].answer_track_id == id {
                            let j = choose|j: int|
                                start <= j < i + 1 && (#[trigger] self.rounds@[j]).outcome
                                    != Outcome::Skipped && self.rounds@[j].answer_track_id == id;
                            if j == i {
                                assert(r@[before.len() as int] == id);
                            }
                        }
                    }
                }
            }
            i = i + 1;
        }
        r
    }
}

} // verus!
