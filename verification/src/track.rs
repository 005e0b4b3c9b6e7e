//! Songs, playlists and player status as the music player daemon reports
//! them, held as plain values.
use vstd::prelude::*;

use crate::text::str_eq;

verus! {

/// A song of the library or the queue.
#[derive(Debug, Clone, PartialEq)]
pub struct Track {
    /// Path of the file, relative to the music directory.
    pub file: String,
    pub title: Option<String>,
    /// Tags such as `("Artist", "...")` or `("Genre", "...")`, in the order
    /// the daemon sent them.
    pub tags: Vec<(String, String)>,
    /// Position in the play queue, for a queued song.
    pub pos: Option<u32>,
}

/// A stored playlist and its songs.
#[derive(Debug, Clone, PartialEq)]
pub struct Playlist {
    pub name: String,
    pub tracks: Vec<Track>,
}

/// The part of the player's status that the command line shows.
#[derive(Debug, Clone, Copy, PartialEq, Eq, Structural)]
pub struct MpdStatus {
    /// 0 to 100, or -1 when the volume is not available.
    pub volume: i8,
    pub repeat: bool,
    pub random: bool,
    pub single: bool,
    pub consume: bool,
}

/// A tag list with its keys and values seen as character sequences.
pub open spec fn tags_view(tags: Seq<(String, String)>) -> Seq<(Seq<char>, Seq<char>)> {
    tags.map_values(|p: (String, String)| (p.0@, p.1@))
}

/// An optional string seen as an optional character sequence.
pub open spec fn opt_view(o: Option<String>) -> Option<Seq<char>> {
    match o {
        Some(s) => Some(s@),
        None => None,
    }
}

/// An optional borrowed string seen as an optional character sequence.
pub open spec fn opt_ref_view(o: Option<&String>) -> Option<Seq<char>> {
    match o {
        Some(s) => Some(s@),
        None => None,
    }
}

impl Track {
    /// The song as plain values: file, title, tags and queue position.
    pub open spec fn spec_view(&self) -> (Seq<char>, Option<Seq<char>>, Seq<(Seq<char>, Seq<char>)>, Option<u32>) {
        (self.file@, opt_view(self.title), tags_view(self.tags@), self.pos)
    }
}

/// The value of the first tag named `key`, if any.
pub open spec fn spec_tag(tags: Seq<(Seq<char>, Seq<char>)>, key: Seq<char>) -> Option<Seq<char>>
    decreases tags.len(),
{
    if tags.len() == 0 {
        None
    } else if tags[0].0 == key {
        Some(tags[0].1)
    } else {
        spec_tag(tags.drop_first(), key)
    }
}

/// Index of the first tag named `key` in `tags`, from position `i` on.
proof fn lemma_spec_tag_skip(tags: Seq<(Seq<char>, Seq<char>)>, key: Seq<char>, i: int)
    requires
        0 <= i <= tags.len(),
        forall|j: int| 0 <= j < i ==> tags[j].0 != key,
    ensures
        spec_tag(tags, key) == spec_tag(tags.subrange(i, tags.len() as int), key),
    decreases i,
{
    if i > 0 {
        lemma_spec_tag_skip(tags.drop_first(), key, i - 1);
        assert(tags.drop_first().subrange(i - 1, tags.drop_first().len() as int) =~= tags.subrange(
            i,
            tags.len() as int,
        ));
    } else {
        assert(tags.subrange(0, tags.len() as int) =~= tags);
    }
}

/// The value of the song's first tag named `key`.
pub fn get_tag<'a>(track: &'a Track, key: &str) -> (r: Option<&'a String>)
    ensures
        opt_ref_view(r) == spec_tag(tags_view(track.tags@), key@),
{
    let ghost tv = tags_view(track.tags@);
    let mut i: usize = 0;
    while i < track.tags.len()
        invariant
            i <= track.tags@.len(),
            tv == tags_view(track.tags@),
            forall|j: int| 0 <= j < i ==> tv[j].0 != key@,
        decreases track.tags@.len() - i,
    {
        if str_eq(track.tags[i].0.as_str(), key) {
            proof {
                lemma_spec_tag_skip(tv, key@, i as int);
                assert(tv.subrange(i as int, tv.len() as int)[0] == tv[i as int]);
            }
            return Some(&track.tags[i].1);
        }
        i = i + 1;
    }
    proof {
        lemma_spec_tag_skip(tv, key@, i as int);
    }
    None
}

/// A copy of an optional string.
pub fn copy_opt(o: &Option<String>) -> (r: Option<String>)
    ensures
        opt_view(r) == opt_view(*o),
{
    match o {
        Some(s) => Some(s.clone()),
        None => None,
    }
}

impl Track {
    /// A copy of the song.
    pub fn copy(&self) -> (r: Track)
        ensures
            r.spec_view() == self.spec_view(),
    {
        let mut tags: Vec<(String, String)> = Vec::new();
        let mut i: usize = 0;
        while i < self.tags.len()
            invariant
                i <= self.tags@.len(),
                tags@.len() == i,
                forall|j: int| 0 <= j < i ==> (#[trigger] tags@[j]).0@ == self.tags@[j].0@ && tags@[j].1@ == self.tags@[j].1@,
            decreases self.tags@.len() - i,
        {
            let k = self.tags[i].0.clone();
            let v = self.tags[i].1.clone();
            tags.push((k, v));
            i = i + 1;
        }
        assert(tags_view(tags@) =~= tags_view(self.tags@));
        Track { file: self.file.clone(), title: copy_opt(&self.title), tags, pos: self.pos }
    }
}

/// The songs of a list as plain values.
pub open spec fn tracks_view(ts: Seq<Track>) -> Seq<(Seq<char>, Option<Seq<char>>, Seq<(Seq<char>, Seq<char>)>, Option<u32>)> {
    ts.map_values(|t: Track| t.spec_view())
}

/// A copy of a list of songs.
pub fn copy_tracks(ts: &Vec<Track>) -> (r: Vec<Track>)
    ensures
        tracks_view(r@) == tracks_view(ts@),
{
    let mut r: Vec<Track> = Vec::new();
    let mut i: usize = 0;
    while i < ts.len()
        invariant
            i <= ts@.len(),
            r@.len() == i,
            forall|j: int| 0 <= j < i ==> (#[trigger] r@[j]).spec_view() == ts@[j].spec_view(),
        decreases ts@.len() - i,
    {
        r.push(ts[i].copy());
        i = i + 1;
    }
    assert(tracks_view(r@) =~= tracks_view(ts@));
    r
}

/// Whether two optional strings are equal.
pub fn opt_str_eq(a: &Option<String>, b: &Option<String>) -> (r: bool)
    ensures
        r == (opt_view(*a) == opt_view(*b)),
{
    match (a, b) {
        (Some(x), Some(y)) => str_eq(x.as_str(), y.as_str()),
        (None, None) => true,
        _ => false,
    }
}

/// Whether two songs agree in file, title, tags and queue position.
pub fn track_eq(a: &Track, b: &Track) -> (r: bool)
    ensures
        r == (a.spec_view() == b.spec_view()),
{
    if !str_eq(a.file.as_str(), b.file.as_str()) || !opt_str_eq(&a.title, &b.title) || a.pos != b.pos {
        return false;
    }
    if a.tags.len() != b.tags.len() {
        assert(tags_view(a.tags@).len() != tags_view(b.tags@).len());
        return false;
    }
    let mut i: usize = 0;
    while i < a.tags.len()
        invariant
            i <= a.tags@.len(),
            a.tags@.len() == b.tags@.len(),
            forall|j: int| 0 <= j < i ==> tags_view(a.tags@)[j] == tags_view(b.tags@)[j],
        decreases a.tags@.len() - i,
    {
        if !str_eq(a.tags[i].0.as_str(), b.tags[i].0.as_str()) || !str_eq(
            a.tags[i].1.as_str(),
            b.tags[i].1.as_str(),
        ) {
            assert(tags_view(a.tags@)[i as int] != tags_view(b.tags@)[i as int]);
            return false;
        }
        i = i + 1;
    }
    assert(tags_view(a.tags@) =~= tags_view(b.tags@));
    true
}

} // verus!
