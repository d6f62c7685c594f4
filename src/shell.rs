use vstd::prelude::*;

use crate::config::MusicQuizConfig;
use crate::engine::{EngineState, QuizEngine};
use crate::library::{ids_unique, Library, Track};
use crate::round::Outcome;

verus! {

/// The track with this identifier, for a library where it is unique.
pub open spec fn track_with_id(tracks: Seq<Track>, id: u64) -> Track {
    tracks[choose|i: int| 0 <= i < tracks.len() && tracks[i].track_id == id]
}

/// One card of the history view.
#[derive(Clone, Debug)]
pub struct TrackCardData {
    /// The round's number, counting from one.
    pub number: u64,
    pub title: String,
    pub artist: String,
    pub album: String,
    pub outcome: Outcome,
}

/// The label of one choice: the track's title and artist.
#[derive(Clone, Debug)]
pub struct ChoiceLabel {
    pub title: String,
    pub artist: String,
}

/// Glyph of the theme button while the dark theme is on (a sunrise).
pub const ICON_LIGHT_THEME: char = '\u{e1c6}';

/// Glyph of the theme button while the light theme is on (a moon).
pub const ICON_DARK_THEME: char = '\u{e51c}';

/// The application: the persisted configuration and the quiz engine.
#[derive(Debug)]
pub struct MusicQuiz {
    pub config: MusicQuizConfig,
    pub engine: QuizEngine,
}

/// The track with identifier `id` of `library`, where there is one.
fn lookup<'a>(library: &'a Library, id: u64) -> (r: Option<&'a Track>)
    requires
        ids_unique(library.tracks@),
    ensures
        r.is_some() ==> *r.unwrap() == track_with_id(library.tracks@, id),
        r.is_none() ==> !crate::library::has_id(library.tracks@, id),
{
    let r = library.get(id);
    proof {
        if r.is_some() {
            let t = *r.unwrap();
            let i = choose|i: int| 0 <= i < library.tracks@.len() && library.tracks@[i] == t;
            let j = choose|j: int| 0 <= j < library.tracks@.len() && library.tracks@[j].track_id == id;
            assert(library.tracks@[i].track_id == id);
            assert(i == j);
        }
    }
    r
}

impl MusicQuiz {
    /// The application with `config` and an idle engine.
    pub fn new(config: MusicQuizConfig) -> (r: MusicQuiz)
        ensures
            r.config.dark_mode == config.dark_mode,
            r.config.music_sources@ == config.music_sources@,
            r.config.quiz == config.quiz,
            r.engine.wf(),
            r.engine.state == EngineState::Idle,
    {
        MusicQuiz { config, engine: QuizEngine::new() }
    }

    /// Switches between the dark and the light theme.
    pub fn toggle_theme(&mut self)
        ensures
            final(self).config.dark_mode == !old(self).config.dark_mode,
            final(self).config.music_sources@ == old(self).config.music_sources@,
            final(self).config.quiz == old(self).config.quiz,
            final(self).engine == old(self).engine,
    {
        self.config.toggle_dark_mode();
    }

    /// The glyph of the theme button: the theme it switches to.
    pub fn theme_icon(&self) -> (r: char)
        ensures
            r == (if self.config.dark_mode {
                ICON_LIGHT_THEME
            } else {
                ICON_DARK_THEME
            }),
    {
        if self.config.dark_mode {
            ICON_LIGHT_THEME
        } else {
            ICON_DARK_THEME
        }
    }

    /// The history view: one card per round, numbered from one, showing the
    /// answer track and the outcome.
    pub fn history_cards(&self) -> (r: Vec<TrackCardData>)
        requires
            self.engine.wf(),
        ensures
            r@.len() == self.engine.record.rounds@.len(),
            forall|k: int|
                0 <= k < r@.len() ==> {
                    let round = self.engine.record.rounds@[k];
                    let t = track_with_id(self.engine.library.tracks@, round.answer_track_id);
                    &&& (#[trigger] r@[k]).number == k + 1
                    &&& r@[k].outcome == round.outcome
                    &&& r@[k].title@ == t.title@
                    &&& r@[k].artist@ == t.artist@
                    &&& r@[k].album@ == t.album@
                },
    {
        let rounds = &self.engine.record.rounds;
        let library = &self.engine.library;
        let mut r: Vec<TrackCardData> = Vec::new();
        let mut k: usize = 0;
        while k < rounds.len()
            invariant
                self.engine.wf(),
                rounds == &self.engine.record.rounds,
                library == &self.engine.library,
                k <= rounds@.len(),
                r@.len() == k,
                forall|a: int|
                    0 <= a < k ==> {
                        let round = rounds@[a];
                        let t = track_with_id(library.tracks@, round.answer_track_id);
                        &&& (#[trigger] r@[a]).number == a + 1
                        &&& r@[a].outcome == round.outcome
                        &&& r@[a].title@ == t.title@
                        &&& r@[a].artist@ == t.artist@
                        &&& r@[a].album@ == t.album@
                    },
            decreases rounds@.len() - k,
        {
            let round = &rounds[k];
            proof {
                assert(rounds@[k as int].valid(self.engine.settings, library.tracks@));
                assert(rounds@[k as int].choice_track_ids@.contains(round.answer_track_id));
                let c = choose|c: int|
                    0 <= c < round.choice_track_ids@.len() && round.choice_track_ids@[c]
                        == round.answer_track_id;
                assert(crate::library::has_id(library.tracks@, round.choice_track_ids@[c]));
            }
            let t = lookup(library, round.answer_track_id).unwrap();
            r.push(
                TrackCardData {
                    number: k as u64 + 1,
                    title: t.title.clone(),
                    artist: t.artist.clone(),
                    album: t.album.clone(),
                    outcome: round.outcome,
                },
            );
            k = k + 1;
        }
        r
    }

    /// The labels of the current round's choices, in the presented order.
    pub fn choice_labels(&self) -> (r: Vec<ChoiceLabel>)
        requires
            self.engine.wf(),
        ensures
            !(self.engine.state == EngineState::AwaitingAnswer || self.engine.state
                == EngineState::RevealingResult) ==> r@.len() == 0,
            (self.engine.state == EngineState::AwaitingAnswer || self.engine.state
                == EngineState::RevealingResult) ==> {
                let ids = self.engine.record.rounds@.last().choice_track_ids@;
                &&& r@.len() == ids.len()
                &&& forall|k: int|
                    0 <= k < r@.len() ==> {
                        let t = track_with_id(self.engine.library.tracks@, ids[k]);
                        &&& (#[trigger] r@[k]).title@ == t.title@
                        &&& r@[k].artist@ == t.artist@
                    }
            },
    {
        let mut r: Vec<ChoiceLabel> = Vec::new();
        let current = self.engine.current_round();
        match current {
            None => r,
            Some(round) => {
                let library = &self.engine.library;
                let n = self.engine.record.rounds.len();
                proof {
                    assert(self.engine.record.rounds@[n - 1].valid(
                        self.engine.settings,
                        library.tracks@,
                    ));
                }
                let mut k: usize = 0;
                while k < round.choice_track_ids.len()
                    invariant
                        self.engine.wf(),
                        library == &self.engine.library,
                        *round == self.engine.record.rounds@.last(),
                        crate::round::choices_ok(*round, self.engine.settings, library.tracks@),
                        k <= round.choice_track_ids@.len(),
                        r@.len() == k,
                        forall|a: int|
                            0 <= a < k ==> {
                                let t = track_with_id(library.tracks@, round.choice_track_ids@[a]);
                                &&& (#[trigger] r@[a]).title@ == t.title@
                                &&& r@[a].artist@ == t.artist@
                            },
                    decreases round.choice_track_ids@.len() - k,
                {
                    let id = round.choice_track_ids[k];
                    proof {
                        assert(crate::library::has_id(library.tracks@, round.choice_track_ids@[k as int]));
                    }
                    let t = lookup(library, id).unwrap();
                    r.push(ChoiceLabel { title: t.title.clone(), artist: t.artist.clone() });
                    k = k + 1;
                }
                r
            },
        }
    }
}

} // verus!
