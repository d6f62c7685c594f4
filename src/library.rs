use vstd::prelude::*;

verus! {

/// A half-open interval `[start_ms, end_ms)` of a track, in milliseconds.
#[derive(Clone, Copy, Debug, PartialEq, Eq, Structural)]
pub struct PlayWindow {
    pub start_ms: u64,
    pub end_ms: u64,
}

impl PlayWindow {
    pub open spec fn len(&self) -> int {
        self.end_ms - self.start_ms
    }

    /// The window is non-empty and lies within a track of the given duration.
    pub open spec fn fits(&self, duration_ms: u64) -> bool {
        self.start_ms < self.end_ms && self.end_ms <= duration_ms
    }
}

/// One track of a library snapshot.
#[derive(Clone, Debug)]
pub struct Track {
    pub track_id: u64,
    pub title: String,
    pub artist: String,
    pub album: String,
    pub duration_ms: u64,
    pub playable_windows: Vec<PlayWindow>,
}

impl Track {
    pub open spec fn wf(&self) -> bool {
        &&& self.duration_ms > 0
        &&& self.playable_windows@.len() >= 1
        &&& forall|i: int|
            0 <= i < self.playable_windows@.len() ==> #[trigger] self.playable_windows@[i].fits(
                self.duration_ms,
            )
    }

    /// A track whose only playable window spans the whole track.
    pub fn new(track_id: u64, title: String, artist: String, album: String, duration_ms: u64) -> (r:
        Track)
        requires
            duration_ms > 0,
        ensures
            r.wf(),
            r.track_id == track_id,
            r.title@ == title@,
            r.artist@ == artist@,
            r.album@ == album@,
            r.duration_ms == duration_ms,
            r.playable_windows@ == seq![PlayWindow { start_ms: 0, end_ms: duration_ms }],
    {
        let playable_windows = vec![PlayWindow { start_ms: 0, end_ms: duration_ms }];
        Track { track_id, title, artist, album, duration_ms, playable_windows }
    }

    /// Checks the track's invariant.
    pub fn is_valid(&self) -> (r: bool)
        ensures
            r == self.wf(),
    {
        if self.duration_ms == 0 || self.playable_windows.len() == 0 {
            return false;
        }
        let mut i: usize = 0;
        while i < self.playable_windows.len()
            invariant
                i <= self.playable_windows@.len(),
                forall|k: int| 0 <= k < i ==> #[trigger] self.playable_windows@[k].fits(
                    self.duration_ms,
                ),
            decreases self.playable_windows@.len() - i,
        {
            let w = self.playable_windows[i];
            if !(w.start_ms < w.end_ms && w.end_ms <= self.duration_ms) {
                assert(!self.playable_windows@[i as int].fits(self.duration_ms));
                return false;
            }
            i = i + 1;
        }
        true
    }
}

/// The identifiers of a sequence of tracks, in order.
pub open spec fn ids_of(tracks: Seq<Track>) -> Seq<u64> {
    tracks.map_values(|t: Track| t.track_id)
}

/// No two tracks share an identifier.
pub open spec fn ids_unique(tracks: Seq<Track>) -> bool {
    forall|i: int, j: int|
        0 <= i < tracks.len() && 0 <= j < tracks.len() && i != j ==> #[trigger] tracks[i].track_id
            != #[trigger] tracks[j].track_id
}

/// Every track is well formed and identifiers are unique.
pub open spec fn tracks_wf(tracks: Seq<Track>) -> bool {
    &&& ids_unique(tracks)
    &&& forall|i: int| 0 <= i < tracks.len() ==> #[trigger] tracks[i].wf()
}

/// Some track of the sequence carries this identifier.
pub open spec fn has_id(tracks: Seq<Track>, id: u64) -> bool {
    exists|i: int| 0 <= i < tracks.len() && #[trigger] tracks[i].track_id == id
}

/// An immutable snapshot of the music library, in a stable enumeration order.
#[derive(Clone, Debug)]
pub struct Library {
    pub snapshot_id: u64,
    pub tracks: Vec<Track>,
}

impl Library {
    pub open spec fn wf(&self) -> bool {
        tracks_wf(self.tracks@)
    }

    /// Builds a snapshot; `None` when a track is malformed or an identifier repeats.
    pub fn from_tracks(snapshot_id: u64, tracks: Vec<Track>) -> (r: Option<Library>)
        ensures
            r.is_some() <==> tracks_wf(tracks@),
            r.is_some() ==> r.unwrap().snapshot_id == snapshot_id && r.unwrap().tracks@
                == tracks@,
    {
        let mut i: usize = 0;
        while i < tracks.len()
            invariant
                i <= tracks@.len(),
                forall|a: int| 0 <= a < i ==> #[trigger] tracks@[a].wf(),
                forall|a: int, b: int|
                    0 <= a < i && 0 <= b < tracks@.len() && a != b ==> #[trigger] tracks@[a].track_id
                        != #[trigger] tracks@[b].track_id,
            decreases tracks@.len() - i,
        {
            if !tracks[i].is_valid() {
                return None;
            }
            let mut j: usize = 0;
            while j < tracks.len()
                invariant
                    i < tracks@.len(),
                    j <= tracks@.len(),
                    forall|b: int|
                        0 <= b < j && b != i ==> tracks@[i as int].track_id
                            != #[trigger] tracks@[b].track_id,
                decreases tracks@.len() - j,
            {
                if j != i && tracks[j].track_id == tracks[i].track_id {
                    return None;
                }
                j = j + 1;
            }
            i = i + 1;
        }
        Some(Library { snapshot_id, tracks })
    }

    pub fn len(&self) -> (r: usize)
        ensures
            r == self.tracks@.len(),
    {
        self.tracks.len()
    }

    /// The position of the track with this identifier, if any.
    pub fn index_of(&self, track_id: u64) -> (r: Option<usize>)
        ensures
            r.is_some() <==> has_id(self.tracks@, track_id),
            r.is_some() ==> r.unwrap() < self.tracks@.len() && self.tracks@[r.unwrap() as int].track_id
                == track_id,
    {
        let mut i: usize = 0;
        while i < self.tracks.len()
            invariant
                i <= self.tracks@.len(),
                forall|k: int| 0 <= k < i ==> #[trigger] self.tracks@[k].track_id != track_id,
            decreases self.tracks@.len() - i,
        {
            if self.tracks[i].track_id == track_id {
                return Some(i);
            }
            i = i + 1;
        }
        None
    }

    /// The track with this identifier, if any.
    pub fn get(&self, track_id: u64) -> (r: Option<&Track>)
        ensures
            r.is_some() <==> has_id(self.tracks@, track_id),
            r.is_some() ==> r.unwrap().track_id == track_id && self.tracks@.contains(*r.unwrap()),
    {
        match self.index_of(track_id) {
            Some(i) => Some(&self.tracks[i]),
            None => None,
        }
    }

    /// The identifiers of all tracks, in enumeration order.
    pub fn ids_in_enum_order(&self) -> (r: Vec<u64>)
        ensures
            r@ == ids_of(self.tracks@),
    {
        let mut r: Vec<u64> = Vec::new();
        let mut i: usize = 0;
        while i < self.tracks.len()
            invariant
                i <= self.tracks@.len(),
                r@ == ids_of(self.tracks@.take(i as int)),
            decreases self.tracks@.len() - i,
        {
            r.push(self.tracks[i].track_id);
            proof {
                assert(self.tracks@.take(i + 1) == self.tracks@.take(i as int).push(self.tracks@[i as int]));
            }
            i = i + 1;
        }
        proof {
            assert(self.tracks@.take(i as int) == self.tracks@);
        }
        r
    }
}

} // verus!
