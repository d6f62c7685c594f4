use vstd::prelude::*;

verus! {

/// Largest accepted session length; it keeps every score within `u64`.
pub const MAX_ROUNDS_PER_SESSION: u64 = 1_000_000_000;

/// How a correct answer is rewarded.
#[derive(Clone, Copy, Debug, PartialEq, Eq, Structural)]
pub enum Scoring {
    /// One point per correct answer.
    Flat,
    /// One point per correct answer plus a bonus for answering quickly.
    Fast,
}

/// The options that govern a quiz session.
#[derive(Clone, Copy, Debug, PartialEq, Eq, Structural)]
pub struct QuizSettings {
    pub choices_per_round: u64,
    pub rounds_per_session: u64,
    pub min_excerpt_ms: u64,
    pub max_excerpt_ms: u64,
    pub answer_timeout_ms: u64,
    pub timeout_starts_immediately: bool,
    pub avoid_same_artist_distractors: bool,
    pub answer_cooldown: u64,
    pub scoring: Scoring,
    pub rng_seed: Option<u64>,
}

impl QuizSettings {
    /// Every option lies in its documented range.
    pub open spec fn valid(&self) -> bool {
        &&& 2 <= self.choices_per_round <= 8
        &&& 1 <= self.rounds_per_session <= MAX_ROUNDS_PER_SESSION
        &&& 0 < self.min_excerpt_ms <= self.max_excerpt_ms
        &&& self.max_excerpt_ms < u64::MAX
        &&& self.answer_timeout_ms > 0
    }

    pub fn is_valid(&self) -> (r: bool)
        ensures
            r == self.valid(),
    {
        2 <= self.choices_per_round && self.choices_per_round <= 8 && 1 <= self.rounds_per_session
            && self.rounds_per_session <= MAX_ROUNDS_PER_SESSION && 0 < self.min_excerpt_ms
            && self.min_excerpt_ms <= self.max_excerpt_ms && self.max_excerpt_ms < u64::MAX
            && self.answer_timeout_ms > 0
    }
}

/// The documented default of every option.
pub open spec fn default_settings() -> QuizSettings {
    QuizSettings {
        choices_per_round: 4,
        rounds_per_session: 10,
        min_excerpt_ms: 3000,
        max_excerpt_ms: 7000,
        answer_timeout_ms: 10000,
        timeout_starts_immediately: false,
        avoid_same_artist_distractors: true,
        answer_cooldown: 20,
        scoring: Scoring::Flat,
        rng_seed: None,
    }
}

impl Default for QuizSettings {
    fn default() -> (r: QuizSettings)
        ensures
            r == default_settings(),
            r.valid(),
    {
        QuizSettings {
            choices_per_round: 4,
            rounds_per_session: 10,
            min_excerpt_ms: 3000,
            max_excerpt_ms: 7000,
            answer_timeout_ms: 10000,
            timeout_starts_immediately: false,
            avoid_same_artist_distractors: true,
            answer_cooldown: 20,
            scoring: Scoring::Flat,
            rng_seed: None,
        }
    }
}

/// The persisted user configuration: view preferences and the quiz options.
#[derive(Clone, Debug)]
pub struct MusicQuizConfig {
    pub dark_mode: bool,
    pub music_sources: String,
    pub quiz: QuizSettings,
}

/// The directory scanned by default: the audio directory, else the home
/// directory, else the empty path.
pub fn default_music_sources(audio_dir: Option<String>, home_dir: Option<String>) -> (r: String)
    ensures
        audio_dir.is_some() ==> r@ == audio_dir.unwrap()@,
        audio_dir.is_none() && home_dir.is_some() ==> r@ == home_dir.unwrap()@,
        audio_dir.is_none() && home_dir.is_none() ==> r@ == Seq::<char>::empty(),
{
    match audio_dir {
        Some(a) => a,
        None => match home_dir {
            Some(h) => h,
            None => String::new(),
        },
    }
}

impl MusicQuizConfig {
    /// The default configuration for a user whose audio and home directories
    /// are these: the dark theme, the default quiz settings, and the audio
    /// directory, else the home directory, else the empty path as the music
    /// source.
    pub fn with_dirs(audio_dir: Option<String>, home_dir: Option<String>) -> (r: MusicQuizConfig)
        ensures
            r.dark_mode,
            r.quiz == default_settings(),
            r.quiz.valid(),
            audio_dir.is_some() ==> r.music_sources@ == audio_dir.unwrap()@,
            audio_dir.is_none() && home_dir.is_some() ==> r.music_sources@ == home_dir.unwrap()@,
            audio_dir.is_none() && home_dir.is_none() ==> r.music_sources@ == Seq::<char>::empty(),
    {
        let music_sources = default_music_sources(audio_dir, home_dir);
        MusicQuizConfig { dark_mode: true, music_sources, quiz: QuizSettings::default() }
    }

    /// Flips the theme between dark and light.
    pub fn toggle_dark_mode(&mut self)
        ensures
            final(self).dark_mode == !old(self).dark_mode,
            final(self).music_sources@ == old(self).music_sources@,
            final(self).quiz == old(self).quiz,
    {
        self.dark_mode = !self.dark_mode;
    }
}

} // verus!
