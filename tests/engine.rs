use musicquiz::config::{QuizSettings, Scoring};
use musicquiz::engine::{AudioCommand, EngineState, QuizEngine, SessionSummary};
use musicquiz::error::ErrorKind;
use musicquiz::library::{Library, PlayWindow, Track};
use musicquiz::round::Outcome;

fn track(id: u64, artist: &str, duration_ms: u64) -> Track {
    Track::new(
        id,
        format!("Song Nr{}", id),
        artist.to_string(),
        format!("Album #{}", id),
        duration_ms,
    )
}

fn distinct_library(n: u64) -> Library {
    let tracks = (0..n).map(|i| track(100 + i, &format!("Artist {}", i), 180_000)).collect();
    Library::from_tracks(1, tracks).unwrap()
}

fn settings(seed: u64, choices: u64, rounds: u64) -> QuizSettings {
    let mut s = QuizSettings::default();
    s.rng_seed = Some(seed);
    s.choices_per_round = choices;
    s.rounds_per_session = rounds;
    s
}

fn started(s: QuizSettings, library: Library, now: u64) -> QuizEngine {
    let mut e = QuizEngine::new();
    assert_eq!(e.start(s, library, now, 0), Ok(()));
    e
}

fn correct_index(e: &QuizEngine) -> usize {
    let r = e.current_round().unwrap();
    r.choice_track_ids.iter().position(|&id| id == r.answer_track_id).unwrap()
}

fn wrong_index(e: &QuizEngine) -> usize {
    let r = e.current_round().unwrap();
    r.choice_track_ids.iter().position(|&id| id != r.answer_track_id).unwrap()
}

fn check_round_rules(e: &QuizEngine) {
    let s = e.settings;
    for (i, r) in e.record.rounds.iter().enumerate() {
        assert_eq!(r.round_index, i as u64);
        assert_eq!(r.choice_track_ids.len() as u64, s.choices_per_round);
        assert!(r.choice_track_ids.contains(&r.answer_track_id));
        for a in 0..r.choice_track_ids.len() {
            for b in 0..a {
                assert_ne!(r.choice_track_ids[a], r.choice_track_ids[b]);
            }
        }
        let len = r.excerpt_window.end_ms - r.excerpt_window.start_ms;
        let window = r.source_window.end_ms - r.source_window.start_ms;
        if window < s.min_excerpt_ms {
            assert_eq!(r.excerpt_window, r.source_window);
        } else {
            assert!(s.min_excerpt_ms <= len && len <= s.max_excerpt_ms);
        }
        assert!(r.source_window.start_ms <= r.excerpt_window.start_ms);
        assert!(r.excerpt_window.end_ms <= r.source_window.end_ms);
        if r.outcome == Outcome::Pending {
            assert_eq!(i + 1, e.record.rounds.len());
        }
        for j in (i + 1)..e.record.rounds.len() {
            if r.outcome != Outcome::Skipped && (j - i) as u64 <= s.answer_cooldown {
                assert_ne!(r.answer_track_id, e.record.rounds[j].answer_track_id);
            }
        }
    }
}

#[test]
fn happy_path() {
    let mut e = started(settings(1, 4, 3), distinct_library(50), 0);
    assert!(e.begin_round(0).is_ok());
    for round in 0..3 {
        let idx = correct_index(&e);
        assert_eq!(e.submit(idx, 10), Ok((Outcome::Correct, AudioCommand::Stop)));
        let next = e.next(20);
        if round < 2 {
            assert!(matches!(next, Ok(Some(_))));
            assert_eq!(e.begin_round(20), Err(ErrorKind::InvalidTransition));
        } else {
            assert_eq!(next, Ok(None));
        }
    }
    assert!(matches!(e.state, EngineState::Finished(_)));
    assert_eq!(e.score(), 3);
    assert_eq!(e.record.rounds.len(), 3);
    assert!(e.record.rounds.iter().all(|r| r.outcome == Outcome::Correct));
    assert_eq!(
        e.state,
        EngineState::Finished(SessionSummary { score: 3, rounds_played: 3, exhausted: false, aborted: false })
    );
    check_round_rules(&e);
}

#[test]
fn timeout_by_tick() {
    let mut s = settings(1, 4, 3);
    s.answer_timeout_ms = 1000;
    s.timeout_starts_immediately = true;
    let t0 = 5_000;
    let mut e = started(s, distinct_library(50), t0);
    assert!(e.begin_round(t0).is_ok());
    let deadline = e.current_round().unwrap().deadline;
    assert_eq!(deadline, t0 + 1000);
    assert_eq!(e.tick(deadline - 1), AudioCommand::Unchanged);
    assert_eq!(e.state, EngineState::AwaitingAnswer);
    assert_eq!(e.tick(deadline), AudioCommand::Stop);
    assert_eq!(e.state, EngineState::RevealingResult);
    assert_eq!(e.current_round().unwrap().outcome, Outcome::TimedOut);
    assert_eq!(e.score(), 0);
}

#[test]
fn deadline_counts_excerpt_unless_immediate() {
    let mut s = settings(3, 4, 3);
    s.answer_timeout_ms = 1000;
    let mut e = started(s, distinct_library(50), 0);
    assert!(e.begin_round(100).is_ok());
    let r = e.current_round().unwrap();
    let len = r.excerpt_window.end_ms - r.excerpt_window.start_ms;
    assert_eq!(r.timer_start, 100 + len);
    assert_eq!(r.deadline, 100 + len + 1000);
}

#[test]
fn tick_is_idempotent_after_deadline() {
    let mut e = started(settings(9, 4, 3), distinct_library(10), 0);
    assert!(e.begin_round(0).is_ok());
    let deadline = e.current_round().unwrap().deadline;
    assert_eq!(e.tick(deadline + 5), AudioCommand::Stop);
    assert_eq!(e.tick(deadline + 5), AudioCommand::Unchanged);
    assert_eq!(e.tick(deadline + 10_000), AudioCommand::Unchanged);
    assert_eq!(e.current_round().unwrap().outcome, Outcome::TimedOut);
    assert_eq!(e.state, EngineState::RevealingResult);
    assert_eq!(e.record.rounds.len(), 1);
}

#[test]
fn insufficient_library() {
    let mut e = started(settings(1, 4, 3), distinct_library(3), 0);
    assert_eq!(e.begin_round(0), Err(ErrorKind::InsufficientLibrary));
    assert_eq!(
        e.state,
        EngineState::Finished(SessionSummary { score: 0, rounds_played: 0, exhausted: true, aborted: false })
    );
    assert_eq!(e.end_ts, Some(0));
}

#[test]
fn cooldown_exhausts_small_library() {
    let mut s = settings(1, 4, 10);
    s.answer_cooldown = 3;
    let mut e = started(s, distinct_library(4), 0);
    assert!(e.begin_round(0).is_ok());
    let idx = correct_index(&e);
    assert_eq!(e.submit(idx, 1), Ok((Outcome::Correct, AudioCommand::Stop)));
    assert_eq!(e.next(2), Err(ErrorKind::InsufficientLibrary));
    assert_eq!(
        e.state,
        EngineState::Finished(SessionSummary { score: 1, rounds_played: 1, exhausted: true, aborted: false })
    );
}

#[test]
fn same_artist_fallback() {
    let tracks = (0..4).map(|i| track(i, "Same Artist", 60_000)).collect();
    let library = Library::from_tracks(7, tracks).unwrap();
    let mut e = started(settings(5, 4, 1), library, 0);
    assert!(e.begin_round(0).is_ok());
    assert_eq!(e.current_round().unwrap().choice_track_ids.len(), 4);
    check_round_rules(&e);
}

#[test]
fn distractors_avoid_answer_artist() {
    let mut tracks = Vec::new();
    for i in 0..12u64 {
        tracks.push(track(i, &format!("Artist {}", i % 3), 60_000));
    }
    let library = Library::from_tracks(7, tracks).unwrap();
    let mut s = settings(11, 4, 5);
    s.answer_cooldown = 0;
    let mut e = started(s, library, 0);
    assert!(e.begin_round(0).is_ok());
    for _ in 0..5 {
        let r = e.current_round().unwrap();
        let artist = e.library.get(r.answer_track_id).unwrap().artist.clone();
        for id in r.choice_track_ids.iter() {
            if *id != r.answer_track_id {
                assert_ne!(e.library.get(*id).unwrap().artist, artist);
            }
        }
        assert_eq!(e.skip(), Ok(AudioCommand::Stop));
        let _ = e.next(0);
    }
}

#[test]
fn deterministic_replay() {
    let run = || {
        let mut e = started(settings(42, 4, 5), distinct_library(50), 0);
        assert!(e.begin_round(0).is_ok());
        let mut t = 0;
        loop {
            t += 700;
            let idx = if t % 1400 == 0 { correct_index(&e) } else { wrong_index(&e) };
            assert!(e.submit(idx, t).is_ok());
            match e.next(t) {
                Ok(Some(_)) => {}
                _ => break,
            }
        }
        e
    };
    let a = run();
    let b = run();
    assert_eq!(a.score(), b.score());
    assert_eq!(format!("{:?}", a.record), format!("{:?}", b.record));
    assert_eq!(a.record.rounds.len(), 5);
}

#[test]
fn audio_failure_degrades() {
    let mut e = started(settings(1, 4, 3), distinct_library(50), 0);
    assert!(e.begin_round(0).is_ok());
    assert_eq!(e.report_audio_failure(), Err(ErrorKind::AudioStartFailed));
    assert_eq!(e.state, EngineState::AwaitingAnswer);
    assert!(e.current_round().unwrap().audio_degraded);
    let idx = correct_index(&e);
    assert_eq!(e.submit(idx, 1), Ok((Outcome::Correct, AudioCommand::Stop)));
    assert!(!matches!(e.state, EngineState::Failed(_)));
}

#[test]
fn exact_library_size_then_exhausted() {
    let mut s = settings(2, 4, 5);
    s.answer_cooldown = 1;
    let mut e = started(s, distinct_library(4), 0);
    assert!(e.begin_round(0).is_ok());
    assert_eq!(e.skip(), Ok(AudioCommand::Stop));
    // a skipped round does not hold its answer back
    assert!(e.begin_round(0).is_ok());
    let idx = wrong_index(&e);
    assert!(matches!(e.submit(idx, 1), Ok((Outcome::Incorrect(_), AudioCommand::Stop))));
    assert_eq!(e.begin_round(2), Err(ErrorKind::InsufficientLibrary));
    assert!(matches!(e.state, EngineState::Finished(SessionSummary { exhausted: true, .. })));
}

#[test]
fn exact_library_size_blocks_second_round() {
    let mut s = settings(6, 4, 5);
    s.answer_cooldown = 1;
    let mut e = started(s, distinct_library(4), 0);
    assert!(e.begin_round(0).is_ok());
    let idx = correct_index(&e);
    assert_eq!(e.submit(idx, 1), Ok((Outcome::Correct, AudioCommand::Stop)));
    assert_eq!(e.begin_round(2), Err(ErrorKind::InsufficientLibrary));
    assert_eq!(
        e.state,
        EngineState::Finished(SessionSummary { score: 1, rounds_played: 1, exhausted: true, aborted: false })
    );
}

#[test]
fn short_track_plays_whole() {
    let tracks = (0..5).map(|i| track(i, &format!("A{}", i), 1000)).collect();
    let library = Library::from_tracks(3, tracks).unwrap();
    let mut e = started(settings(8, 4, 2), library, 0);
    assert!(e.begin_round(0).is_ok());
    let r = e.current_round().unwrap();
    assert_eq!(r.excerpt_window, PlayWindow { start_ms: 0, end_ms: 1000 });
    check_round_rules(&e);
}

#[test]
fn submit_after_deadline_times_out() {
    let mut e = started(settings(1, 4, 3), distinct_library(20), 0);
    assert!(e.begin_round(0).is_ok());
    let deadline = e.current_round().unwrap().deadline;
    let idx = correct_index(&e);
    assert_eq!(e.submit(idx, deadline), Ok((Outcome::TimedOut, AudioCommand::Stop)));
    assert_eq!(e.current_round().unwrap().outcome, Outcome::TimedOut);
    assert_eq!(e.score(), 0);
}

#[test]
fn long_session_keeps_rules() {
    let mut s = settings(77, 5, 40);
    s.answer_cooldown = 6;
    let mut e = started(s, distinct_library(12), 0);
    assert!(e.begin_round(0).is_ok());
    let mut t = 0;
    let mut expected = 0;
    for k in 0..40 {
        t += 1000;
        if k % 4 == 0 {
            assert_eq!(e.skip(), Ok(AudioCommand::Stop));
        } else if k % 3 == 0 {
            let idx = wrong_index(&e);
            assert!(e.submit(idx, t).is_ok());
        } else {
            let idx = correct_index(&e);
            assert_eq!(e.submit(idx, t), Ok((Outcome::Correct, AudioCommand::Stop)));
            expected += 1;
        }
        check_round_rules(&e);
        if e.next(t).is_err() {
            break;
        }
    }
    assert_eq!(e.score(), expected);
    let acc = e.record.accuracy();
    assert_eq!(acc.correct, expected);
}

#[test]
fn fast_scoring_bonus() {
    let mut s = settings(4, 4, 2);
    s.scoring = Scoring::Fast;
    s.timeout_starts_immediately = true;
    let mut e = started(s, distinct_library(20), 0);
    assert!(e.begin_round(1000).is_ok());
    let idx = correct_index(&e);
    // 250 ms after the timer started: 1 + (1000 - 250) / 100 = 8
    assert_eq!(e.submit(idx, 1250), Ok((Outcome::Correct, AudioCommand::Stop)));
    assert_eq!(e.score(), 8);
    assert!(e.next(1300).is_ok());
    let idx = correct_index(&e);
    // 1500 ms after: no bonus
    assert_eq!(e.submit(idx, 2800), Ok((Outcome::Correct, AudioCommand::Stop)));
    assert_eq!(e.score(), 9);
}

#[test]
fn error_kinds() {
    let mut e = started(settings(1, 4, 3), distinct_library(10), 0);
    assert_eq!(e.start(settings(1, 4, 3), distinct_library(10), 0, 0), Err(ErrorKind::AlreadyStarted));
    assert_eq!(e.submit(0, 0), Err(ErrorKind::InvalidTransition));
    assert_eq!(e.skip(), Err(ErrorKind::InvalidTransition));
    assert_eq!(e.next(0), Err(ErrorKind::InvalidTransition));
    assert!(e.begin_round(0).is_ok());
    assert_eq!(e.submit(4, 0), Err(ErrorKind::InvalidTransition));
    assert_eq!(e.on_deadline(0), Err(ErrorKind::InvalidTransition));
    assert_eq!(e.check_snapshot(1), Ok(()));
    assert_eq!(e.check_snapshot(2), Err(ErrorKind::SnapshotInvalidated));
    assert_eq!(e.state, EngineState::Failed(ErrorKind::SnapshotInvalidated));
    let mut f = QuizEngine::new();
    assert_eq!(f.on_error(ErrorKind::Internal), AudioCommand::Stop);
    assert_eq!(f.state, EngineState::Failed(ErrorKind::Internal));
}

#[test]
fn abort_finishes_and_skips_pending() {
    let mut e = started(settings(1, 4, 3), distinct_library(10), 0);
    assert!(e.begin_round(0).is_ok());
    assert_eq!(e.abort(50), Ok(AudioCommand::Stop));
    assert_eq!(e.record.rounds[0].outcome, Outcome::Skipped);
    assert_eq!(
        e.state,
        EngineState::Finished(SessionSummary { score: 0, rounds_played: 1, exhausted: false, aborted: true })
    );
    assert_eq!(e.abort(60), Err(ErrorKind::InvalidTransition));
}

#[test]
fn seed_from_entropy_when_absent() {
    let mut s = settings(1, 4, 3);
    s.rng_seed = None;
    let mut e = QuizEngine::new();
    assert_eq!(e.start(s, distinct_library(10), 3, 99), Ok(()));
    assert_eq!(e.seed, 99);
    assert_eq!(e.start_ts, 3);
}

#[test]
fn failure_skips_pending_round_and_stops() {
    let mut e = started(settings(1, 4, 3), distinct_library(10), 0);
    assert!(e.begin_round(0).is_ok());
    assert_eq!(e.on_error(ErrorKind::Internal), AudioCommand::Stop);
    assert_eq!(e.state, EngineState::Failed(ErrorKind::Internal));
    assert_eq!(e.record.rounds[0].outcome, Outcome::Skipped);
    assert!(e.record.rounds.iter().all(|r| r.outcome != Outcome::Pending));
}

#[test]
fn small_library_round_presents_every_track() {
    let mut e = started(settings(13, 4, 2), distinct_library(4), 0);
    assert!(e.begin_round(0).is_ok());
    let mut ids = e.current_round().unwrap().choice_track_ids.clone();
    ids.sort();
    assert_eq!(ids, vec![100, 101, 102, 103]);
}
