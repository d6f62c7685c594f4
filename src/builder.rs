use vstd::prelude::*;

use crate::config::QuizSettings;
use crate::error::ErrorKind;
use crate::library::{has_id, tracks_wf, Library, PlayWindow, Track};
use crate::rng::{draw_from, lcg_step, QuizRng};
use crate::round::{
    artist_of, blocked, distinct, eligible_count, excerpt_len_ok, is_blocked, other_artist_count,
    Outcome, Round,
};

verus! {

/// No index occurs twice.
pub open spec fn distinct_indices(s: Seq<usize>) -> bool {
    forall|i: int, j: int|
        0 <= i < s.len() && 0 <= j < s.len() && i != j ==> #[trigger] s[i] != #[trigger] s[j]
}

/// The positions of the tracks that may serve as the next answer, in
/// enumeration order.
pub open spec fn eligible_seq(tracks: Seq<Track>, history: Seq<Round>, cooldown: u64) -> Seq<usize>
    decreases tracks.len(),
{
    if tracks.len() == 0 {
        Seq::empty()
    } else {
        let prev = eligible_seq(tracks.drop_last(), history, cooldown);
        if blocked(history, cooldown, tracks.last().track_id) {
            prev
        } else {
            prev.push((tracks.len() - 1) as usize)
        }
    }
}

pub proof fn lemma_eligible_seq_len(tracks: Seq<Track>, history: Seq<Round>, cooldown: u64)
    ensures
        eligible_seq(tracks, history, cooldown).len() == eligible_count(tracks, history, cooldown),
    decreases tracks.len(),
{
    if tracks.len() > 0 {
        lemma_eligible_seq_len(tracks.drop_last(), history, cooldown);
    }
}

/// The positions of the possible distractors for the answer at `answer`, in
/// enumeration order: every other track, or, with `avoid_artist`, every track
/// by an artist other than `artist`.
pub open spec fn pool_seq(tracks: Seq<Track>, answer: int, avoid_artist: bool, artist: Seq<char>) -> Seq<
    usize,
>
    decreases tracks.len(),
{
    if tracks.len() == 0 {
        Seq::empty()
    } else {
        let prev = pool_seq(tracks.drop_last(), answer, avoid_artist, artist);
        let keep = if avoid_artist {
            tracks.last().artist@ != artist
        } else {
            tracks.len() - 1 != answer
        };
        if keep {
            prev.push((tracks.len() - 1) as usize)
        } else {
            prev
        }
    }
}

/// `k` entries drawn without replacement from `pool` by a generator in state
/// `state`, in the order drawn, and the state after the draws.
pub open spec fn draw_spec(state: u64, pool: Seq<usize>, k: nat) -> (Seq<usize>, u64)
    decreases k,
{
    if k == 0 || pool.len() == 0 {
        (Seq::empty(), state)
    } else {
        let s1 = lcg_step(state);
        let j = draw_from(s1, pool.len() as u64) as int;
        let rest = draw_spec(s1, pool.remove(j), (k - 1) as nat);
        (seq![pool[j]] + rest.0, rest.1)
    }
}

/// The positions of the tracks that may serve as the next answer, in
/// enumeration order.
pub fn eligible_indices(tracks: &Vec<Track>, history: &Vec<Round>, cooldown: u64) -> (r: Vec<
    usize,
>)
    ensures
        r@ == eligible_seq(tracks@, history@, cooldown),
        r@.len() == eligible_count(tracks@, history@, cooldown),
        r@.len() <= tracks@.len(),
        forall|k: int|
            0 <= k < r@.len() ==> #[trigger] r@[k] < tracks@.len() && !blocked(
                history@,
                cooldown,
                tracks@[r@[k] as int].track_id,
            ),
{
    let mut r: Vec<usize> = Vec::new();
    let mut i: usize = 0;
    while i < tracks.len()
        invariant
            i <= tracks@.len(),
            r@ == eligible_seq(tracks@.take(i as int), history@, cooldown),
            r@.len() <= i,
            forall|k: int|
                0 <= k < r@.len() ==> #[trigger] r@[k] < i && !blocked(
                    history@,
                    cooldown,
                    tracks@[r@[k] as int].track_id,
                ),
        decreases tracks@.len() - i,
    {
        proof {
            let t = tracks@.take(i + 1);
            assert(t.drop_last() == tracks@.take(i as int));
            assert(t.last() == tracks@[i as int]);
        }
        if !is_blocked(history, cooldown, tracks[i].track_id) {
            r.push(i);
        }
        i = i + 1;
    }
    proof {
        assert(tracks@.take(i as int) == tracks@);
        lemma_eligible_seq_len(tracks@, history@, cooldown);
    }
    r
}

/// The positions of the possible distractors for the answer at `answer`: every
/// other track, or, when `avoid_artist` holds, every track by another artist.
pub fn distractor_pool(tracks: &Vec<Track>, answer: usize, avoid_artist: bool) -> (r: Vec<usize>)
    requires
        answer < tracks@.len(),
    ensures
        r@ == pool_seq(tracks@, answer as int, avoid_artist, tracks@[answer as int].artist@),
        distinct_indices(r@),
        !avoid_artist ==> r@.len() == tracks@.len() - 1,
        avoid_artist ==> r@.len() == other_artist_count(tracks@, tracks@[answer as int].artist@),
        forall|k: int|
            0 <= k < r@.len() ==> #[trigger] r@[k] < tracks@.len() && r@[k] != answer && (
            avoid_artist ==> tracks@[r@[k] as int].artist@ != tracks@[answer as int].artist@),
{
    let mut r: Vec<usize> = Vec::new();
    let mut i: usize = 0;
    let ghost artist = tracks@[answer as int].artist@;
    while i < tracks.len()
        invariant
            i <= tracks@.len(),
            answer < tracks@.len(),
            artist == tracks@[answer as int].artist@,
            r@ == pool_seq(tracks@.take(i as int), answer as int, avoid_artist, artist),
            distinct_indices(r@),
            !avoid_artist ==> r@.len() == (if answer < i { i - 1 } else { i as int }),
            avoid_artist ==> r@.len() == other_artist_count(tracks@.take(i as int), artist),
            forall|k: int|
                0 <= k < r@.len() ==> #[trigger] r@[k] < i && r@[k] != answer && (avoid_artist
                    ==> tracks@[r@[k] as int].artist@ != artist),
        decreases tracks@.len() - i,
    {
        proof {
            let t = tracks@.take(i + 1);
            assert(t.drop_last() == tracks@.take(i as int));
            assert(t.last() == tracks@[i as int]);
        }
        let keep = if avoid_artist {
            tracks[i].artist != tracks[answer].artist
        } else {
            i != answer
        };
        if keep {
            r.push(i);
        }
        i = i + 1;
    }
    proof {
        assert(tracks@.take(i as int) == tracks@);
    }
    r
}

/// Draws `k` entries of `pool` without replacement, in the order drawn.
pub fn draw_without_replacement(rng: &mut QuizRng, pool: Vec<usize>, k: usize) -> (r: Vec<usize>)
    requires
        k <= pool@.len(),
        distinct_indices(pool@),
    ensures
        (r@, final(rng).state) == draw_spec(old(rng).state, pool@, k as nat),
        r@.len() == k,
        distinct_indices(r@),
        forall|a: int| 0 <= a < r@.len() ==> pool@.contains(#[trigger] r@[a]),
{
    let ghost start = rng.state;
    let mut rest = pool;
    let mut r: Vec<usize> = Vec::new();
    while r.len() < k
        invariant
            k <= pool@.len(),
            r@.len() + rest@.len() == pool@.len(),
            r@.len() <= k,
            draw_spec(start, pool@, k as nat) == (r@ + draw_spec(
                rng.state,
                rest@,
                (k - r@.len()) as nat,
            ).0, draw_spec(rng.state, rest@, (k - r@.len()) as nat).1),
            distinct_indices(rest@),
            distinct_indices(r@),
            forall|a: int| 0 <= a < r@.len() ==> pool@.contains(#[trigger] r@[a]),
            forall|a: int| 0 <= a < rest@.len() ==> pool@.contains(#[trigger] rest@[a]),
            forall|a: int, b: int|
                0 <= a < r@.len() && 0 <= b < rest@.len() ==> #[trigger] r@[a] != #[trigger] rest@[b],
        decreases k - r@.len(),
    {
        let ghost s0 = rng.state;
        let ghost m = (k - r@.len()) as nat;
        let ghost r0 = r@;
        let j = rng.below(rest.len() as u64) as usize;
        let ghost before = rest@;
        let c = rest.remove(j);
        proof {
            assert forall|a: int| 0 <= a < rest@.len() implies #[trigger] rest@[a] != c by {
                if a < j {
                    assert(rest@[a] == before[a]);
                } else {
                    assert(rest@[a] == before[a + 1]);
                }
            }
            assert forall|a: int| 0 <= a < rest@.len() implies pool@.contains(#[trigger] rest@[a]) by {
                if a < j {
                    assert(rest@[a] == before[a]);
                } else {
                    assert(rest@[a] == before[a + 1]);
                }
            }
            assert forall|a: int, b: int|
                0 <= a < rest@.len() && 0 <= b < rest@.len() && a != b implies #[trigger] rest@[a]
                != #[trigger] rest@[b] by {
                let a2 = if a < j { a } else { a + 1 };
                let b2 = if b < j { b } else { b + 1 };
                assert(rest@[a] == before[a2]);
                assert(rest@[b] == before[b2]);
            }
            assert forall|a: int, b: int|
                0 <= a < r@.len() && 0 <= b < rest@.len() implies #[trigger] r@[a] != #[trigger] rest@[b] by {
                let b2 = if b < j { b } else { b + 1 };
                assert(rest@[b] == before[b2]);
            }
            assert(c == before[j as int]);
        }
        r.push(c);
        proof {
            assert(pool@.contains(r@[r@.len() - 1]));
            assert(rest@ == before.remove(j as int));
            let d = draw_spec(rng.state, rest@, (m - 1) as nat);
            assert(draw_spec(s0, before, m) == (seq![c] + d.0, d.1));
            assert(r0 + (seq![c] + d.0) == r@ + d.0);
        }
    }
    proof {
        assert(r@ + Seq::<usize>::empty() == r@);
    }
    r
}

/// The presented order: the distractors in the order drawn, with the answer
/// inserted at `pos`.
pub fn present(distractors: &Vec<usize>, answer: usize, pos: usize) -> (r: Vec<usize>)
    requires
        pos <= distractors@.len(),
        distractors@.len() < usize::MAX,
        distinct_indices(distractors@),
        !distractors@.contains(answer),
    ensures
        r@ == distractors@.insert(pos as int, answer),
        r@.len() == distractors@.len() + 1,
        distinct_indices(r@),
        r@[pos as int] == answer,
        forall|a: int| 0 <= a < r@.len() && a != pos ==> distractors@.contains(#[trigger] r@[a]),
{
    let mut r: Vec<usize> = Vec::new();
    let n = distractors.len() + 1;
    let mut k: usize = 0;
    let ghost target = distractors@.insert(pos as int, answer);
    while k < n
        invariant
            n == distractors@.len() + 1,
            pos <= distractors@.len(),
            k <= n,
            target == distractors@.insert(pos as int, answer),
            r@ == target.take(k as int),
        decreases n - k,
    {
        let v = if k < pos {
            distractors[k]
        } else if k == pos {
            answer
        } else {
            distractors[k - 1]
        };
        proof {
            assert(target[k as int] == v);
            assert(target.take(k + 1) == target.take(k as int).push(v));
        }
        r.push(v);
        k = k + 1;
    }
    proof {
        assert(target.take(k as int) == target);
        assert forall|a: int| 0 <= a < r@.len() && a != pos implies distractors@.contains(
            #[trigger] r@[a],
        ) by {
            if a < pos {
                assert(r@[a] == distractors@[a]);
            } else {
                assert(r@[a] == distractors@[a - 1]);
            }
        }
        assert forall|a: int, b: int|
            0 <= a < r@.len() && 0 <= b < r@.len() && a != b implies #[trigger] r@[a]
            != #[trigger] r@[b] by {
            if a != pos && b != pos {
                let a2 = if a < pos { a } else { a - 1 };
                let b2 = if b < pos { b } else { b - 1 };
                assert(r@[a] == distractors@[a2]);
                assert(r@[b] == distractors@[b2]);
            }
        }
    }
    r
}

/// The window and excerpt drawn for `track` by a generator in state `state`,
/// and the state after the draws: a playable window, then a length in
/// `[min_excerpt_ms, max_excerpt_ms]` capped at the window's, then an offset;
/// a window shorter than `min_excerpt_ms` is played whole.
pub open spec fn excerpt_draw(state: u64, track: Track, cfg: QuizSettings) -> (PlayWindow, PlayWindow, u64) {
    let s1 = lcg_step(state);
    let w = track.playable_windows@[draw_from(s1, track.playable_windows@.len() as u64) as int];
    let wlen = w.end_ms - w.start_ms;
    if wlen < cfg.min_excerpt_ms {
        (w, w, s1)
    } else {
        let s2 = lcg_step(s1);
        let drawn = cfg.min_excerpt_ms + draw_from(s2, (cfg.max_excerpt_ms - cfg.min_excerpt_ms + 1) as u64);
        let len = if drawn > wlen {
            wlen
        } else {
            drawn
        };
        let s3 = lcg_step(s2);
        let start = w.start_ms + draw_from(s3, (wlen - len + 1) as u64);
        (w, PlayWindow { start_ms: start as u64, end_ms: (start + len) as u64 }, s3)
    }
}

/// The distractor pool: tracks by other artists where that is asked for and
/// at least `k` exist, else every track but the answer.
pub open spec fn chosen_pool(tracks: Seq<Track>, answer: int, k: nat, avoid_artist: bool) -> Seq<usize> {
    let artist = tracks[answer].artist@;
    let disjoint = pool_seq(tracks, answer, true, artist);
    if avoid_artist && disjoint.len() >= k {
        disjoint
    } else {
        pool_seq(tracks, answer, false, artist)
    }
}

/// What a round draws, as plain values.
pub struct RoundDraw {
    pub answer_track_id: u64,
    pub choice_track_ids: Seq<u64>,
    pub source_window: PlayWindow,
    pub excerpt_window: PlayWindow,
    /// The generator's state after the draws.
    pub rng_after: u64,
}

/// The round drawn from `tracks` after `history` by a generator in state
/// `state`: in turn the answer among the eligible tracks, the distractors, the
/// answer's position among them, the window and the excerpt.
pub open spec fn round_draw(tracks: Seq<Track>, history: Seq<Round>, state: u64, cfg: QuizSettings) -> RoundDraw {
    let eligible = eligible_seq(tracks, history, cfg.answer_cooldown);
    let s1 = lcg_step(state);
    let answer = eligible[draw_from(s1, eligible.len() as u64) as int];
    let k = (cfg.choices_per_round - 1) as nat;
    let drawn = draw_spec(s1, chosen_pool(tracks, answer as int, k, cfg.avoid_same_artist_distractors), k);
    let s3 = lcg_step(drawn.1);
    let pos = draw_from(s3, cfg.choices_per_round);
    let order = drawn.0.insert(pos as int, answer);
    let excerpt = excerpt_draw(s3, tracks[answer as int], cfg);
    RoundDraw {
        answer_track_id: tracks[answer as int].track_id,
        choice_track_ids: order.map_values(|i: usize| tracks[i as int].track_id),
        source_window: excerpt.0,
        excerpt_window: excerpt.1,
        rng_after: excerpt.2,
    }
}

/// The round carries what `d` drew.
pub open spec fn matches_draw(r: Round, d: RoundDraw) -> bool {
    &&& r.answer_track_id == d.answer_track_id
    &&& r.choice_track_ids@ == d.choice_track_ids
    &&& r.source_window == d.source_window
    &&& r.excerpt_window == d.excerpt_window
}

/// Picks a playable window of `track` and an excerpt within it; returns the
/// window and the excerpt.
pub fn pick_excerpt(rng: &mut QuizRng, track: &Track, cfg: &QuizSettings) -> (r: (
    PlayWindow,
    PlayWindow,
))
    requires
        track.wf(),
        cfg.valid(),
    ensures
        (r.0, r.1, final(rng).state) == excerpt_draw(old(rng).state, *track, *cfg),
        track.playable_windows@.contains(r.0),
        excerpt_len_ok(r.0, r.1, *cfg),
{
    let wi = rng.below(track.playable_windows.len() as u64) as usize;
    let w = track.playable_windows[wi];
    proof {
        assert(track.playable_windows@[wi as int].fits(track.duration_ms));
        assert(track.playable_windows@.contains(w));
    }
    let wlen = w.end_ms - w.start_ms;
    if wlen < cfg.min_excerpt_ms {
        (w, w)
    } else {
        let drawn = cfg.min_excerpt_ms + rng.below(cfg.max_excerpt_ms - cfg.min_excerpt_ms + 1);
        let len = if drawn > wlen {
            wlen
        } else {
            drawn
        };
        let offset = rng.below(wlen - len + 1);
        let start = w.start_ms + offset;
        (w, PlayWindow { start_ms: start, end_ms: start + len })
    }
}

/// Draws `k` distinct distractors for the answer at `answer`, avoiding its
/// artist when `avoid_artist` holds and enough tracks by other artists exist.
/// The flag returned says whether the artist was avoided.
pub fn pick_distractors(
    rng: &mut QuizRng,
    tracks: &Vec<Track>,
    answer: usize,
    k: usize,
    avoid_artist: bool,
) -> (r: (Vec<usize>, bool))
    requires
        answer < tracks@.len(),
        k < tracks@.len(),
    ensures
        r.0@.len() == k,
        distinct_indices(r.0@),
        forall|j: int| 0 <= j < r.0@.len() ==> #[trigger] r.0@[j] < tracks@.len() && r.0@[j] != answer,
        r.1 ==> forall|j: int|
            0 <= j < r.0@.len() ==> #[trigger] tracks@[r.0@[j] as int].artist@ != tracks@[answer as int].artist@,
        avoid_artist && other_artist_count(tracks@, tracks@[answer as int].artist@) >= k ==> r.1,
        (r.0@, final(rng).state) == draw_spec(
            old(rng).state,
            chosen_pool(tracks@, answer as int, k as nat, avoid_artist),
            k as nat,
        ),
{
    let mut pool = distractor_pool(tracks, answer, false);
    let mut avoided = false;
    if avoid_artist {
        let disjoint = distractor_pool(tracks, answer, true);
        if disjoint.len() >= k {
            pool = disjoint;
            avoided = true;
        }
    }
    let ghost pool_seq = pool@;
    let drawn = draw_without_replacement(rng, pool, k);
    proof {
        assert forall|j: int| 0 <= j < drawn@.len() implies #[trigger] drawn@[j] < tracks@.len() && drawn@[j]
            != answer && (avoided ==> tracks@[drawn@[j] as int].artist@ != tracks@[answer as int].artist@) by {
            assert(pool_seq.contains(drawn@[j]));
        }
    }
    (drawn, avoided)
}

/// The track identifiers of the presented choices: the distractors in the
/// order drawn, with the answer inserted at `pos`.
pub fn choice_ids(
    tracks: &Vec<Track>,
    distractors: &Vec<usize>,
    answer: usize,
    pos: usize,
    avoided: bool,
) -> (r: Vec<u64>)
    requires
        tracks_wf(tracks@),
        answer < tracks@.len(),
        pos <= distractors@.len(),
        distractors@.len() < tracks@.len(),
        distinct_indices(distractors@),
        forall|j: int|
            0 <= j < distractors@.len() ==> #[trigger] distractors@[j] < tracks@.len() && distractors@[j]
                != answer,
        avoided ==> forall|j: int|
            0 <= j < distractors@.len() ==> #[trigger] tracks@[distractors@[j] as int].artist@
                != tracks@[answer as int].artist@,
    ensures
        r@.len() == distractors@.len() + 1,
        distinct(r@),
        r@[pos as int] == tracks@[answer as int].track_id,
        r@ == distractors@.insert(pos as int, answer).map_values(|i: usize| tracks@[i as int].track_id),
        forall|k: int| 0 <= k < r@.len() ==> has_id(tracks@, #[trigger] r@[k]),
        avoided ==> forall|k: int|
            0 <= k < r@.len() && r@[k] != tracks@[answer as int].track_id ==> #[trigger] artist_of(
                tracks@,
                r@[k],
            ) != artist_of(tracks@, tracks@[answer as int].track_id),
{
    proof {
        if distractors@.contains(answer) {
            let a = choose|a: int| 0 <= a < distractors@.len() && distractors@[a] == answer;
            assert(distractors@[a] != answer);
        }
    }
    // the length of a `Vec` fits in `usize`
    let track_count = tracks.len();
    assert(distractors@.len() < track_count);
    let order = present(distractors, answer, pos);
    proof {
        assert forall|a: int| 0 <= a < order@.len() implies #[trigger] order@[a] < tracks@.len() && (a
            != pos ==> order@[a] != answer && (avoided ==> tracks@[order@[a] as int].artist@
            != tracks@[answer as int].artist@)) by {
            if a != pos {
                assert(distractors@.contains(order@[a]));
            }
        }
    }
    let r = ids_at(tracks, &order);
    proof {
        let ids = r@;
        assert forall|a: int, b: int|
            0 <= a < ids.len() && 0 <= b < ids.len() && a != b implies #[trigger] ids[a]
            != #[trigger] ids[b] by {
            assert(order@[a] != order@[b]);
        }
        assert forall|k: int| 0 <= k < ids.len() implies has_id(tracks@, #[trigger] ids[k]) by {
            assert(tracks@[order@[k] as int].track_id == ids[k]);
        }
        assert(artist_of(tracks@, tracks@[answer as int].track_id) == tracks@[answer as int].artist@);
        if avoided {
            assert forall|k: int|
                0 <= k < ids.len() && ids[k] != tracks@[answer as int].track_id implies #[trigger] artist_of(
                    tracks@,
                    ids[k],
                ) != artist_of(tracks@, tracks@[answer as int].track_id) by {
                assert(tracks@[order@[k] as int].track_id == ids[k]);
                assert(k != pos);
                assert(artist_of(tracks@, ids[k]) == tracks@[order@[k] as int].artist@);
            }
        }
    }
    r
}

/// The identifiers of the tracks at the positions in `order`.
pub fn ids_at(tracks: &Vec<Track>, order: &Vec<usize>) -> (r: Vec<u64>)
    requires
        forall|a: int| 0 <= a < order@.len() ==> #[trigger] order@[a] < tracks@.len(),
    ensures
        r@.len() == order@.len(),
        forall|a: int| 0 <= a < order@.len() ==> #[trigger] r@[a] == tracks@[order@[a] as int].track_id,
        r@ == order@.map_values(|i: usize| tracks@[i as int].track_id),
{
    let mut r: Vec<u64> = Vec::new();
    let mut k: usize = 0;
    while k < order.len()
        invariant
            k <= order@.len(),
            r@.len() == k,
            forall|a: int| 0 <= a < order@.len() ==> #[trigger] order@[a] < tracks@.len(),
            forall|a: int| 0 <= a < k ==> #[trigger] r@[a] == tracks@[order@[a] as int].track_id,
        decreases order@.len() - k,
    {
        r.push(tracks[order[k]].track_id);
        k = k + 1;
    }
    proof {
        assert(r@ == order@.map_values(|i: usize| tracks@[i as int].track_id));
    }
    r
}

/// Builds the next round of a session: an answer not used in the last
/// `answer_cooldown` rounds that were not skipped, `choices_per_round - 1`
/// distinct distractors (by other artists where the settings ask for it and
/// enough exist), the answer at a random position, an excerpt and a deadline.
/// Fails with `InsufficientLibrary`, leaving `rng` untouched, when fewer than
/// `choices_per_round` tracks may serve as the answer.
pub fn build_round(
    library: &Library,
    history: &Vec<Round>,
    rng: &mut QuizRng,
    cfg: &QuizSettings,
    round_index: u64,
    now: u64,
) -> (r: Result<Round, ErrorKind>)
    requires
        library.wf(),
        cfg.valid(),
    ensures
        r.is_err() <==> eligible_count(library.tracks@, history@, cfg.answer_cooldown)
            < cfg.choices_per_round,
        r.is_err() ==> r == Err::<Round, ErrorKind>(ErrorKind::InsufficientLibrary) && *final(rng)
            == *old(rng),
        r.is_ok() ==> {
            let round = r.unwrap();
            &&& round.valid(*cfg, library.tracks@)
            &&& matches_draw(round, round_draw(library.tracks@, history@, old(rng).state, *cfg))
            &&& final(rng).state == round_draw(library.tracks@, history@, old(rng).state, *cfg).rng_after
            &&& !blocked(history@, cfg.answer_cooldown, round.answer_track_id)
            &&& round.round_index == round_index
            &&& round.shown_at == now
            &&& round.outcome == Outcome::Pending
            &&& round.answered_at.is_none()
            &&& !round.audio_degraded
            &&& (cfg.avoid_same_artist_distractors && other_artist_count(
                library.tracks@,
                artist_of(library.tracks@, round.answer_track_id),
            ) + 1 >= cfg.choices_per_round) ==> forall|k: int|
                0 <= k < round.choice_track_ids@.len() && round.choice_track_ids@[k]
                    != round.answer_track_id ==> #[trigger] artist_of(
                    library.tracks@,
                    round.choice_track_ids@[k],
                ) != artist_of(library.tracks@, round.answer_track_id)
        },
{
    let tracks = &library.tracks;
    let n = cfg.choices_per_round as usize;
    let eligible = eligible_indices(tracks, history, cfg.answer_cooldown);
    if eligible.len() < n {
        return Err(ErrorKind::InsufficientLibrary);
    }
    let e = rng.below(eligible.len() as u64) as usize;
    let answer = eligible[e];
    let (distractors, avoided) = pick_distractors(
        rng,
        tracks,
        answer,
        n - 1,
        cfg.avoid_same_artist_distractors,
    );
    let pos = rng.below(n as u64) as usize;
    let choice_track_ids = choice_ids(tracks, &distractors, answer, pos, avoided);
    let answer_track_id = tracks[answer].track_id;
    let (source_window, excerpt_window) = pick_excerpt(rng, &tracks[answer], cfg);
    let len = excerpt_window.end_ms - excerpt_window.start_ms;
    let timer_start = if cfg.timeout_starts_immediately {
        now
    } else {
        now.saturating_add(len)
    };
    let deadline = timer_start.saturating_add(cfg.answer_timeout_ms);
    let round = Round {
        round_index,
        answer_track_id,
        choice_track_ids,
        source_window,
        excerpt_window,
        shown_at: now,
        timer_start,
        deadline,
        outcome: Outcome::Pending,
        answered_at: None,
        audio_degraded: false,
    };
    proof {
        assert(round.choice_track_ids@[pos as int] == answer_track_id);
        assert(tracks@[answer as int].playable_windows@.contains(source_window));
        assert(artist_of(tracks@, answer_track_id) == tracks@[answer as int].artist@);
    }
    Ok(round)
}

} // verus!
