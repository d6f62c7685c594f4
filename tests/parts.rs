use musicquiz::config::{default_music_sources, MusicQuizConfig, QuizSettings, Scoring};
use musicquiz::library::{Library, PlayWindow, Track};
use musicquiz::rng::QuizRng;
use musicquiz::round::Outcome;
use musicquiz::shell::{MusicQuiz, ICON_DARK_THEME, ICON_LIGHT_THEME};
use musicquiz::engine::{round_points, AudioCommand, QuizEngine};

fn track(id: u64, artist: &str) -> Track {
    Track::new(id, format!("Title {}", id), artist.to_string(), format!("Album {}", id), 120_000)
}

#[test]
fn rng_draws_are_exact() {
    let mut r = QuizRng::from_seed(0);
    assert_eq!(r.below(10), 4);
    assert_eq!(r.state, 1442695040888963407);
    assert_eq!(r.below(10), 9);
    assert_eq!(r.state, 1876011003808476466);
}

#[test]
fn library_rejects_duplicates_and_bad_windows() {
    assert!(Library::from_tracks(1, vec![track(1, "a"), track(1, "b")]).is_none());
    let mut bad = track(2, "a");
    bad.playable_windows = vec![PlayWindow { start_ms: 10, end_ms: 10 }];
    assert!(Library::from_tracks(1, vec![bad]).is_none());
    let mut past_end = track(3, "a");
    past_end.playable_windows = vec![PlayWindow { start_ms: 0, end_ms: 120_001 }];
    assert!(!past_end.is_valid());
    let lib = Library::from_tracks(9, vec![track(5, "a"), track(6, "b")]).unwrap();
    assert_eq!(lib.len(), 2);
    assert_eq!(lib.ids_in_enum_order(), vec![5, 6]);
    assert_eq!(lib.index_of(6), Some(1));
    assert!(lib.get(7).is_none());
    assert_eq!(lib.get(5).unwrap().artist, "a");
}

#[test]
fn settings_defaults_and_validity() {
    let s = QuizSettings::default();
    assert_eq!(s.choices_per_round, 4);
    assert_eq!(s.rounds_per_session, 10);
    assert_eq!(s.min_excerpt_ms, 3000);
    assert_eq!(s.max_excerpt_ms, 7000);
    assert_eq!(s.answer_timeout_ms, 10000);
    assert!(!s.timeout_starts_immediately);
    assert!(s.avoid_same_artist_distractors);
    assert_eq!(s.answer_cooldown, 20);
    assert_eq!(s.scoring, Scoring::Flat);
    assert_eq!(s.rng_seed, None);
    assert!(s.is_valid());
    let mut t = s;
    t.choices_per_round = 9;
    assert!(!t.is_valid());
    let mut u = s;
    u.max_excerpt_ms = 100;
    assert!(!u.is_valid());
    let c = MusicQuizConfig::with_dirs(Some("/music".to_string()), Some("/home/u".to_string()));
    assert!(c.dark_mode);
    assert_eq!(c.quiz, s);
    assert_eq!(c.music_sources, "/music");
    let h = MusicQuizConfig::with_dirs(None, Some("/home/u".to_string()));
    assert_eq!(h.music_sources, "/home/u");
    assert_eq!(MusicQuizConfig::with_dirs(None, None).music_sources, "");
}

#[test]
fn music_sources_fallbacks() {
    assert_eq!(default_music_sources(Some("/m".to_string()), Some("/h".to_string())), "/m");
    assert_eq!(default_music_sources(None, Some("/h".to_string())), "/h");
    assert_eq!(default_music_sources(None, None), "");
}

#[test]
fn theme_toggle_and_icon() {
    let mut app = MusicQuiz::new(MusicQuizConfig::with_dirs(None, None));
    assert_eq!(app.theme_icon(), ICON_LIGHT_THEME);
    app.toggle_theme();
    assert!(!app.config.dark_mode);
    assert_eq!(app.theme_icon(), ICON_DARK_THEME);
}

#[test]
fn history_cards_and_labels() {
    let tracks = (0..6).map(|i| track(10 + i, &format!("Artist {}", i))).collect();
    let lib = Library::from_tracks(1, tracks).unwrap();
    let mut s = QuizSettings::default();
    s.rng_seed = Some(3);
    let mut app = MusicQuiz::new(MusicQuizConfig::with_dirs(None, None));
    assert!(app.choice_labels().is_empty());
    assert_eq!(app.engine.start(s, lib, 0, 0), Ok(()));
    assert!(app.engine.begin_round(0).is_ok());
    let labels = app.choice_labels();
    let round = app.engine.current_round().unwrap();
    assert_eq!(labels.len(), 4);
    for (k, id) in round.choice_track_ids.iter().enumerate() {
        assert_eq!(labels[k].title, format!("Title {}", id));
    }
    let answer = round.answer_track_id;
    assert!(app.engine.skip().is_ok());
    let cards = app.history_cards();
    assert_eq!(cards.len(), 1);
    assert_eq!(cards[0].number, 1);
    assert_eq!(cards[0].title, format!("Title {}", answer));
    assert_eq!(cards[0].album, format!("Album {}", answer));
    assert_eq!(cards[0].outcome, Outcome::Skipped);
}

#[test]
fn record_queries() {
    let mut s = QuizSettings::default();
    s.rng_seed = Some(21);
    s.answer_cooldown = 2;
    let tracks = (0..10).map(|i| track(i, &format!("Artist {}", i))).collect();
    let mut e = QuizEngine::new();
    assert_eq!(e.start(s, Library::from_tracks(1, tracks).unwrap(), 0, 0), Ok(()));
    assert!(e.begin_round(0).is_ok());
    assert_eq!(e.skip(), Ok(AudioCommand::Stop));
    let skipped = e.record.rounds[0].answer_track_id;
    assert!(e.next(0).is_ok());
    let r = e.current_round().unwrap();
    let correct = r.choice_track_ids.iter().position(|&id| id == r.answer_track_id).unwrap();
    let answer = r.answer_track_id;
    assert_eq!(e.submit(correct, 1), Ok((Outcome::Correct, AudioCommand::Stop)));
    assert_eq!(round_points(&e.record.rounds[1], Scoring::Flat), 1);
    assert_eq!(round_points(&e.record.rounds[0], Scoring::Flat), 0);
    assert_eq!(e.record.answered_count(), 1);
    assert_eq!(e.record.correct_count(), 1);
    let recent = e.record.recent_answer_ids(2);
    assert_eq!(recent, vec![answer]);
    assert!(!recent.contains(&skipped) || skipped == answer);
    assert_eq!(e.record.recent_answer_ids(0), Vec::<u64>::new());
}
