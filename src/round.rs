use vstd::prelude::*;

use crate::config::QuizSettings;
use crate::library::{has_id, PlayWindow, Track};

verus! {

/// How a round ended, or `Pending` while it awaits an answer.
#[derive(Clone, Copy, Debug, PartialEq, Eq, Structural)]
pub enum Outcome {
    Pending,
    Correct,
    /// The identifier of the track that was chosen.
    Incorrect(u64),
    TimedOut,
    Skipped,
}

/// One question of a session.
#[derive(Debug)]
pub struct Round {
    pub round_index: u64,
    pub answer_track_id: u64,
    /// The choices in the order they are presented.
    pub choice_track_ids: Vec<u64>,
    /// The playable window of the answer track the excerpt was drawn from.
    pub source_window: PlayWindow,
    /// The excerpt actually played.
    pub excerpt_window: PlayWindow,
    /// When the round was shown.
    pub shown_at: u64,
    /// When the answer timer starts counting.
    pub timer_start: u64,
    /// From this instant on an answer counts as a timeout.
    pub deadline: u64,
    pub outcome: Outcome,
    /// When the answer was given, for answered rounds.
    pub answered_at: Option<u64>,
    pub audio_degraded: bool,
}

/// No value occurs twice.
pub open spec fn distinct(s: Seq<u64>) -> bool {
    forall|i: int, j: int|
        0 <= i < s.len() && 0 <= j < s.len() && i != j ==> #[trigger] s[i] != #[trigger] s[j]
}

/// `a + b`, or `u64::MAX` where the sum does not fit.
pub open spec fn sat_add(a: u64, b: u64) -> u64 {
    if a + b > u64::MAX {
        u64::MAX
    } else {
        (a + b) as u64
    }
}

/// The excerpt length rule: within `[min, max]`, or the whole source window
/// when that window is shorter than `min`.
pub open spec fn excerpt_len_ok(source: PlayWindow, excerpt: PlayWindow, cfg: QuizSettings) -> bool {
    &&& source.start_ms <= excerpt.start_ms
    &&& excerpt.start_ms < excerpt.end_ms
    &&& excerpt.end_ms <= source.end_ms
    &&& if source.len() < cfg.min_excerpt_ms {
        excerpt == source
    } else {
        cfg.min_excerpt_ms <= excerpt.len() <= cfg.max_excerpt_ms
    }
}

/// The deadline rule: the timer starts when the round is shown, or once the
/// excerpt has played unless the timeout starts immediately.
pub open spec fn timing_ok(r: Round, cfg: QuizSettings) -> bool {
    &&& r.timer_start == (if cfg.timeout_starts_immediately {
        r.shown_at
    } else {
        sat_add(r.shown_at, r.excerpt_window.len() as u64)
    })
    &&& r.deadline == sat_add(r.timer_start, cfg.answer_timeout_ms)
}

/// The answer was recently used in a round that was not skipped, within the
/// last `cooldown` rounds of `history`.
pub open spec fn blocked(history: Seq<Round>, cooldown: u64, id: u64) -> bool {
    exists|i: int|
        history.len() - cooldown <= i < history.len() && 0 <= i && (#[trigger] history[i]).outcome
            != Outcome::Skipped && history[i].answer_track_id == id
}

/// The number of tracks that may serve as the next answer.
pub open spec fn eligible_count(tracks: Seq<Track>, history: Seq<Round>, cooldown: u64) -> nat
    decreases tracks.len(),
{
    if tracks.len() == 0 {
        0
    } else {
        eligible_count(tracks.drop_last(), history, cooldown) + if blocked(
            history,
            cooldown,
            tracks.last().track_id,
        ) {
            0nat
        } else {
            1nat
        }
    }
}

/// The number of tracks by an artist other than `artist`.
pub open spec fn other_artist_count(tracks: Seq<Track>, artist: Seq<char>) -> nat
    decreases tracks.len(),
{
    if tracks.len() == 0 {
        0
    } else {
        other_artist_count(tracks.drop_last(), artist) + if tracks.last().artist@ == artist {
            0nat
        } else {
            1nat
        }
    }
}

/// The artist of the track with this identifier.
pub open spec fn artist_of(tracks: Seq<Track>, id: u64) -> Seq<char> {
    tracks[choose|i: int| 0 <= i < tracks.len() && tracks[i].track_id == id].artist@
}

/// Every choice is in the library, the choices are distinct, the answer is
/// among them, and there are as many as the settings ask.
pub open spec fn choices_ok(r: Round, cfg: QuizSettings, tracks: Seq<Track>) -> bool {
    &&& r.choice_track_ids@.len() == cfg.choices_per_round
    &&& distinct(r.choice_track_ids@)
    &&& r.choice_track_ids@.contains(r.answer_track_id)
    &&& forall|k: int|
        0 <= k < r.choice_track_ids@.len() ==> has_id(tracks, #[trigger] r.choice_track_ids@[k])
}

/// The excerpt comes from a playable window of the answer track.
pub open spec fn source_ok(r: Round, tracks: Seq<Track>) -> bool {
    exists|i: int|
        0 <= i < tracks.len() && (#[trigger] tracks[i]).track_id == r.answer_track_id
            && tracks[i].playable_windows@.contains(r.source_window)
}

impl Round {
    /// The round meets every rule of round generation.
    pub open spec fn valid(&self, cfg: QuizSettings, tracks: Seq<Track>) -> bool {
        &&& choices_ok(*self, cfg, tracks)
        &&& source_ok(*self, tracks)
        &&& excerpt_len_ok(self.source_window, self.excerpt_window, cfg)
        &&& timing_ok(*self, cfg)
    }
}

/// Whether `id` was the answer of a round among the last `cooldown` of
/// `history` that was not skipped.
pub fn is_blocked(history: &Vec<Round>, cooldown: u64, id: u64) -> (r: bool)
    ensures
        r == blocked(history@, cooldown, id),
{
    let len = history.len();
    let start: usize = if (cooldown as u128) >= (len as u128) {
        0
    } else {
        len - cooldown as usize
    };
    let mut i: usize = start;
    while i < len
        invariant
            len == history@.len(),
            start <= i <= len,
            start as int == (if cooldown >= len { 0 } else { len - cooldown }),
            forall|k: int|
                start <= k < i ==> !((#[trigger] history@[k]).outcome != Outcome::Skipped
                    && history@[k].answer_track_id == id),
        decreases len - i,
    {
        if history[i].outcome != Outcome::Skipped && history[i].answer_track_id == id {
            return true;
        }
        i = i + 1;
    }
    false
}

} // verus!
