use vstd::prelude::*;
use rand::seq::SliceRandom;

verus! {

/// The final component of a path without its extension, as `std::path::Path::file_stem` gives it.
pub uninterp spec fn file_stem_of(path: Seq<char>) -> Option<Seq<char>>;

/// The extension of a path's final component, as `std::path::Path::extension` gives it.
pub uninterp spec fn extension_of(path: Seq<char>) -> Option<Seq<char>>;

/// A string in lower case, as `str::to_lowercase` gives it.
pub uninterp spec fn lower_of(s: Seq<char>) -> Seq<char>;

/// Relies on `std::path::Path::file_stem`: the stem depends on the path alone.
#[verifier::external_body]
fn path_file_stem(path: &str) -> (r: Option<String>)
    ensures
        r matches Some(s) ==> file_stem_of(path@) == Some(s@),
        r is None ==> file_stem_of(path@) is None,
{
    std::path::Path::new(path).file_stem().and_then(|s| s.to_str()).map(|s| s.to_string())
}

/// Relies on `std::path::Path::extension`: the extension depends on the path alone.
#[verifier::external_body]
fn path_extension(path: &str) -> (r: Option<String>)
    ensures
        r matches Some(s) ==> extension_of(path@) == Some(s@),
        r is None ==> extension_of(path@) is None,
{
    std::path::Path::new(path).extension().and_then(|s| s.to_str()).map(|s| s.to_string())
}

/// Relies on `str::to_lowercase`: the result depends on the characters alone.
#[verifier::external_body]
fn lowercase(s: &str) -> (r: String)
    ensures
        r@ == lower_of(s@),
{
    s.to_lowercase()
}

/// Relies on `rand::seq::SliceRandom::shuffle` with the thread-local generator:
/// the order is random, and the shuffle only swaps items.
#[verifier::external_body]
fn shuffle_tracks(tracks: &mut Vec<Track>)
    ensures
        final(tracks)@.to_multiset() == old(tracks)@.to_multiset(),
{
    tracks.shuffle(&mut rand::thread_rng());
}

/// One playable file.
#[derive(Clone, Debug)]
pub struct Track {
    pub path: String,
    pub name: String,
    pub artist: Option<String>,
    pub album: Option<String>,
    pub duration: Option<std::time::Duration>,
}

pub open spec fn unknown_name() -> Seq<char> {
    seq!['U', 'n', 'k', 'n', 'o', 'w', 'n']
}

/// The display name of a file: its stem, or "Unknown" where the path has none.
pub open spec fn track_name(path: Seq<char>) -> Seq<char> {
    match file_stem_of(path) {
        Some(s) => s,
        None => unknown_name(),
    }
}

/// `t` is the track made from `path`: named after the file, with no metadata.
pub open spec fn is_track_of(t: Track, path: Seq<char>) -> bool {
    &&& t.path@ == path
    &&& t.name@ == track_name(path)
    &&& t.artist is None
    &&& t.album is None
    &&& t.duration is None
}

pub open spec fn audio_extensions() -> Set<Seq<char>> {
    set![
        seq!['m', 'p', '3'],
        seq!['f', 'l', 'a', 'c'],
        seq!['o', 'g', 'g'],
        seq!['w', 'a', 'v'],
        seq!['m', '4', 'a'],
        seq!['a', 'a', 'c'],
    ]
}

/// Whether a path names an audio file, by its extension in any case.
pub open spec fn is_audio_path(path: Seq<char>) -> bool {
    match extension_of(path) {
        Some(e) => audio_extensions().contains(lower_of(e)),
        None => false,
    }
}

impl Track {
    /// A track for `path`, named after the file's stem.
    pub fn from_path(path: String) -> (t: Self)
        ensures
            is_track_of(t, path@),
    {
        let name = match path_file_stem(path.as_str()) {
            Some(s) => s,
            None => {
                proof {
                    reveal_strlit("Unknown");
                    assert("Unknown"@ =~= unknown_name());
                }
                String::from_str("Unknown")
            },
        };
        Track { path, name, artist: None, album: None, duration: None }
    }
}

fn is_audio_extension(ext: &str) -> (r: bool)
    ensures
        r == audio_extensions().contains(ext@),
{
    let e = String::from_str(ext);
    proof {
        reveal_strlit("mp3");
        reveal_strlit("flac");
        reveal_strlit("ogg");
        reveal_strlit("wav");
        reveal_strlit("m4a");
        reveal_strlit("aac");
    }
    let r = e == String::from_str("mp3") || e == String::from_str("flac") || e
        == String::from_str("ogg") || e == String::from_str("wav") || e == String::from_str(
        "m4a",
    ) || e == String::from_str("aac");
    assert(r == audio_extensions().contains(ext@)) by {
        let s = audio_extensions();
        assert(s.contains(ext@) <==> (ext@ == seq!['m', 'p', '3'] || ext@ == seq!['f', 'l', 'a', 'c']
            || ext@ == seq!['o', 'g', 'g'] || ext@ == seq!['w', 'a', 'v'] || ext@ == seq![
            'm',
            '4',
            'a',
        ] || ext@ == seq!['a', 'a', 'c']));
        assert("mp3"@ =~= seq!['m', 'p', '3']);
        assert("flac"@ =~= seq!['f', 'l', 'a', 'c']);
        assert("ogg"@ =~= seq!['o', 'g', 'g']);
        assert("wav"@ =~= seq!['w', 'a', 'v']);
        assert("m4a"@ =~= seq!['m', '4', 'a']);
        assert("aac"@ =~= seq!['a', 'a', 'c']);
    }
    r
}

/// Whether `path` names an audio file, by its extension in any case.
pub fn is_audio_file(path: &str) -> (r: bool)
    ensures
        r == is_audio_path(path@),
{
    match path_extension(path) {
        Some(ext) => {
            let lower = lowercase(ext.as_str());
            is_audio_extension(lower.as_str())
        },
        None => false,
    }
}

/// The abstract state of a playlist.
#[verifier::ext_equal]
pub struct PlaylistView {
    pub tracks: Seq<Track>,
    pub current: Option<usize>,
    pub selected: usize,
    pub repeat: bool,
}

impl PlaylistView {
    /// The playing position is absent or in range; the selection is in range,
    /// or zero for an empty list, which has no playing position.
    pub open spec fn wf(self) -> bool {
        &&& self.current matches Some(i) ==> i < self.tracks.len()
        &&& (self.tracks.len() == 0 ==> self.selected == 0 && self.current is None)
        &&& (self.tracks.len() > 0 ==> self.selected < self.tracks.len())
    }

    /// Playing position and selection moved to `i`.
    pub open spec fn at(self, i: usize) -> PlaylistView {
        PlaylistView { current: Some(i), selected: i, ..self }
    }

    /// The state after `next`, and whether it moved.
    pub open spec fn next_spec(self) -> (PlaylistView, bool) {
        if self.tracks.len() == 0 {
            (self, false)
        } else {
            match self.current {
                Some(i) => if i + 1 < self.tracks.len() {
                    (self.at((i + 1) as usize), true)
                } else if self.repeat {
                    (self.at(0), true)
                } else {
                    (self, false)
                },
                None => (self.at(0), true),
            }
        }
    }

    /// The state after `previous`, and whether it moved.
    pub open spec fn previous_spec(self) -> (PlaylistView, bool) {
        if self.tracks.len() == 0 {
            (self, false)
        } else {
            match self.current {
                Some(i) => if i > 0 {
                    (self.at((i - 1) as usize), true)
                } else if self.repeat {
                    (self.at((self.tracks.len() - 1) as usize), true)
                } else {
                    (self, false)
                },
                None => (self.at(0), true),
            }
        }
    }
}

/// An ordered list of tracks with a playing position and a selection cursor.
pub struct Playlist {
    tracks: Vec<Track>,
    current_index: Option<usize>,
    selected_index: usize,
    repeat: bool,
}

impl View for Playlist {
    type V = PlaylistView;

    closed spec fn view(&self) -> PlaylistView {
        PlaylistView {
            tracks: self.tracks@,
            current: self.current_index,
            selected: self.selected_index,
            repeat: self.repeat,
        }
    }
}

impl Playlist {
    /// An empty playlist without repeat.
    pub fn new() -> (p: Self)
        ensures
            p@ == (PlaylistView { tracks: Seq::empty(), current: None, selected: 0, repeat: false }),
            p@.wf(),
    {
        let p = Playlist { tracks: Vec::new(), current_index: None, selected_index: 0, repeat: false };
        assert(p@ =~= (PlaylistView { tracks: Seq::empty(), current: None, selected: 0, repeat: false }));
        p
    }

    /// Appends a track for `path` if it names an audio file; the first track of
    /// an empty list becomes the playing one. Returns whether the track was added.
    pub fn add_file(&mut self, path: String) -> (added: bool)
        requires
            old(self)@.wf(),
        ensures
            final(self)@.wf(),
            added == is_audio_path(path@),
            added ==> final(self)@.tracks.len() == old(self)@.tracks.len() + 1
                && final(self)@.tracks.drop_last() == old(self)@.tracks
                && is_track_of(final(self)@.tracks.last(), path@)
                && final(self)@.current == (if old(self)@.current is None {
                Some(0usize)
            } else {
                old(self)@.current
            }) && final(self)@.selected == old(self)@.selected
                && final(self)@.repeat == old(self)@.repeat,
            !added ==> final(self)@ == old(self)@,
    {
        if !is_audio_file(path.as_str()) {
            return false;
        }
        let track = Track::from_path(path);
        self.tracks.push(track);
        if self.current_index.is_none() {
            self.current_index = Some(0);
        }
        assert(self@.tracks.drop_last() =~= old(self)@.tracks);
        true
    }

    /// Appends, in order, a track for each path that names an audio file; if the
    /// list then holds tracks and none was playing, the first becomes the playing
    /// one. Returns the number of tracks added.
    pub fn add_files(&mut self, paths: &Vec<String>) -> (added: usize)
        requires
            old(self)@.wf(),
        ensures
            final(self)@.wf(),
            added == final(self)@.tracks.len() - old(self)@.tracks.len(),
            final(self)@.tracks.take(old(self)@.tracks.len() as int) == old(self)@.tracks,
            final(self)@.tracks.skip(old(self)@.tracks.len() as int).map_values(
                |t: Track| t.path@,
            ) == paths@.map_values(|p: String| p@).filter(|p: Seq<char>| is_audio_path(p)),
            forall|i: int|
                old(self)@.tracks.len() <= i < final(self)@.tracks.len() ==> is_track_of(
                    #[trigger] final(self)@.tracks[i],
                    final(self)@.tracks[i].path@,
                ),
            final(self)@.current == (if old(self)@.current is None && final(self)@.tracks.len()
                > 0 {
                Some(0usize)
            } else {
                old(self)@.current
            }),
            final(self)@.selected == old(self)@.selected,
            final(self)@.repeat == old(self)@.repeat,
    {
        let ghost start = self@;
        let mut k: usize = 0;
        let mut added: usize = 0;
        while k < paths.len()
            invariant
                0 <= k <= paths@.len(),
                added <= k,
                start.wf(),
                self.tracks@.len() == start.tracks.len() + added,
                self.tracks@.take(start.tracks.len() as int) == start.tracks,
                self.tracks@.skip(start.tracks.len() as int).map_values(|t: Track| t.path@)
                    == paths@.take(k as int).map_values(|p: String| p@).filter(
                    |p: Seq<char>| is_audio_path(p),
                ),
                forall|i: int|
                    start.tracks.len() <= i < self.tracks@.len() ==> is_track_of(
                        #[trigger] self.tracks@[i],
                        self.tracks@[i].path@,
                    ),
                self.current_index == start.current,
                self.selected_index == start.selected,
                self.repeat == start.repeat,
            decreases paths@.len() - k,
        {
            let ghost before = self.tracks@;
            let path = paths[k].clone();
            let is_audio = is_audio_file(path.as_str());
            if is_audio {
                let track = Track::from_path(path);
                self.tracks.push(track);
                added = added + 1;
            }
            proof {
                let n0 = start.tracks.len() as int;
                let pk = paths@.take(k as int).map_values(|p: String| p@);
                let pk1 = paths@.take(k + 1).map_values(|p: String| p@);
                assert(pk1 =~= pk.push(paths@[k as int]@));
                assert(pk1.drop_last() =~= pk);
                reveal(Seq::filter);
                assert(self.tracks@.take(n0) =~= start.tracks);
                if is_audio {
                    assert(self.tracks@.skip(n0) =~= before.skip(n0).push(self.tracks@.last()));
                    assert(self.tracks@.skip(n0).map_values(|t: Track| t.path@) =~= before.skip(
                        n0,
                    ).map_values(|t: Track| t.path@).push(paths@[k as int]@));
                }
            }
            k = k + 1;
        }
        proof {
            assert(paths@.take(paths@.len() as int) =~= paths@);
        }
        if self.current_index.is_none() && self.tracks.len() > 0 {
            self.current_index = Some(0);
        }
        added
    }

    /// Removes every track; the repeat setting stays.
    pub fn clear(&mut self)
        ensures
            final(self)@ == (PlaylistView {
                tracks: Seq::empty(),
                current: None,
                selected: 0,
                repeat: old(self)@.repeat,
            }),
            final(self)@.wf(),
    {
        self.tracks = Vec::new();
        self.current_index = None;
        self.selected_index = 0;
        assert(self@ =~= (PlaylistView {
            tracks: Seq::empty(),
            current: None,
            selected: 0,
            repeat: old(self)@.repeat,
        }));
    }

    /// Puts the tracks in a random order; a non-empty list then plays and selects
    /// its first track.
    pub fn shuffle(&mut self)
        requires
            old(self)@.wf(),
        ensures
            final(self)@.wf(),
            final(self)@.tracks.to_multiset() == old(self)@.tracks.to_multiset(),
            final(self)@.repeat == old(self)@.repeat,
            old(self)@.tracks.len() > 0 ==> final(self)@.current == Some(0usize)
                && final(self)@.selected == 0,
            old(self)@.tracks.len() == 0 ==> final(self)@ == old(self)@,
    {
        shuffle_tracks(&mut self.tracks);
        proof {
            old(self)@.tracks.to_multiset_ensures();
            self@.tracks.to_multiset_ensures();
        }
        if self.tracks.len() > 0 {
            self.current_index = Some(0);
            self.selected_index = 0;
        } else {
            assert(self@.tracks =~= old(self)@.tracks);
        }
    }

    /// Moves to the following track, wrapping to the first when repeat is on.
    /// A list with no playing track starts at the first. Returns whether it moved.
    pub fn next(&mut self) -> (moved: bool)
        requires
            old(self)@.wf(),
        ensures
            final(self)@.wf(),
            (final(self)@, moved) == old(self)@.next_spec(),
    {
        if self.tracks.len() == 0 {
            return false;
        }
        match self.current_index {
            Some(index) => {
                if index + 1 < self.tracks.len() {
                    self.current_index = Some(index + 1);
                    self.selected_index = index + 1;
                    true
                } else if self.repeat {
                    self.current_index = Some(0);
                    self.selected_index = 0;
                    true
                } else {
                    false
                }
            },
            None => {
                self.current_index = Some(0);
                self.selected_index = 0;
                true
            },
        }
    }

    /// Moves to the preceding track, wrapping to the last when repeat is on.
    /// A list with no playing track starts at the first. Returns whether it moved.
    pub fn previous(&mut self) -> (moved: bool)
        requires
            old(self)@.wf(),
        ensures
            final(self)@.wf(),
            (final(self)@, moved) == old(self)@.previous_spec(),
    {
        if self.tracks.len() == 0 {
            return false;
        }
        match self.current_index {
            Some(index) => {
                if index > 0 {
                    self.current_index = Some(index - 1);
                    self.selected_index = index - 1;
                    true
                } else if self.repeat {
                    let last = self.tracks.len() - 1;
                    self.current_index = Some(last);
                    self.selected_index = last;
                    true
                } else {
                    false
                }
            },
            None => {
                self.current_index = Some(0);
                self.selected_index = 0;
                true
            },
        }
    }

    /// Moves the selection cursor up one track, stopping at the first.
    pub fn move_selection_up(&mut self)
        requires
            old(self)@.wf(),
        ensures
            final(self)@.wf(),
            final(self)@ == (PlaylistView {
                selected: if old(self)@.selected > 0 {
                    (old(self)@.selected - 1) as usize
                } else {
                    0
                },
                ..old(self)@
            }),
    {
        if self.tracks.len() > 0 && self.selected_index > 0 {
            self.selected_index = self.selected_index - 1;
        }
    }

    /// Moves the selection cursor down one track, stopping at the last.
    pub fn move_selection_down(&mut self)
        requires
            old(self)@.wf(),
        ensures
            final(self)@.wf(),
            final(self)@ == (PlaylistView {
                selected: if old(self)@.selected + 1 < old(self)@.tracks.len() {
                    (old(self)@.selected + 1) as usize
                } else {
                    old(self)@.selected
                },
                ..old(self)@
            }),
    {
        if self.tracks.len() > 0 && self.selected_index < self.tracks.len() - 1 {
            self.selected_index = self.selected_index + 1;
        }
    }

    /// Makes the selected track the playing one.
    pub fn play_selected(&mut self)
        requires
            old(self)@.wf(),
        ensures
            final(self)@.wf(),
            final(self)@ == (if old(self)@.tracks.len() > 0 {
                PlaylistView { current: Some(old(self)@.selected), ..old(self)@ }
            } else {
                old(self)@
            }),
    {
        if self.tracks.len() > 0 {
            self.current_index = Some(self.selected_index);
        }
    }

    /// The playing track.
    pub fn current(&self) -> (t: Option<&Track>)
        requires
            self@.wf(),
        ensures
            t == (match self@.current {
                Some(i) => Some(&self@.tracks[i as int]),
                None => None,
            }),
    {
        match self.current_index {
            Some(i) => Some(&self.tracks[i]),
            None => None,
        }
    }

    pub fn current_index(&self) -> (i: Option<usize>)
        ensures
            i == self@.current,
    {
        self.current_index
    }

    pub fn selected_index(&self) -> (i: usize)
        ensures
            i == self@.selected,
    {
        self.selected_index
    }

    pub fn get_tracks(&self) -> (t: &[Track])
        ensures
            t@ == self@.tracks,
    {
        self.tracks.as_slice()
    }

    pub fn is_empty(&self) -> (e: bool)
        ensures
            e == (self@.tracks.len() == 0),
    {
        self.tracks.len() == 0
    }

    pub fn len(&self) -> (n: usize)
        ensures
            n == self@.tracks.len(),
    {
        self.tracks.len()
    }

    pub fn toggle_repeat(&mut self)
        ensures
            final(self)@ == (PlaylistView { repeat: !old(self)@.repeat, ..old(self)@ }),
    {
        self.repeat = !self.repeat;
    }

    pub fn is_repeat(&self) -> (r: bool)
        ensures
            r == self@.repeat,
    {
        self.repeat
    }
}

} // verus!
