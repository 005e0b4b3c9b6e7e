//! Writing tags into music files: the tagger's two folders, the messages
//! it sends, and the ID3 frames that each tag of the editor sets or
//! removes. Reading and writing the files is left to the caller.
use vstd::prelude::*;

use crate::event::{CommandLineEvent, Event, MpdEvent};
use crate::text::{concat, str_eq};
use id3::{Tag, TagLike};

verus! {

/// An ID3 tag, as the `id3` crate holds it.
#[verifier::external_type_specification]
#[verifier::external_body]
pub struct ExTag(Tag);

/// A frame of a tag as the tagger sees it: its ID, its text if it holds
/// text, and whether a new text frame with the same ID takes its place
/// (its ID is a valid one and its content has no part, such as a
/// description or a language, that tells frames of one ID apart).
pub type FrameView = (Seq<char>, Option<Seq<char>>, bool);

/// The frames of a tag, in the order the tag keeps them.
pub uninterp spec fn tag_frames(t: Tag) -> Seq<FrameView>;

/// `frames` without the first frame with ID `id` that a new text frame
/// takes the place of.
pub open spec fn replaced(frames: Seq<FrameView>, id: Seq<char>) -> Seq<FrameView>
    decreases frames.len(),
{
    if frames.len() == 0 {
        frames
    } else if frames[0].0 == id && frames[0].2 {
        frames.drop_first()
    } else {
        seq![frames[0]] + replaced(frames.drop_first(), id)
    }
}

/// Whether a frame's ID is other than `id`.
pub open spec fn other_id(id: Seq<char>) -> spec_fn(FrameView) -> bool {
    |f: FrameView| f.0 != id
}

/// `frames` without any frame with ID `id`.
pub open spec fn without(frames: Seq<FrameView>, id: Seq<char>) -> Seq<FrameView> {
    frames.filter(other_id(id))
}

/// Sets a text frame with the `id3` crate's `TagLike::set_text`, which
/// removes the first frame that the new one replaces and appends the new
/// frame. IDs of four bytes only, as the frames here have.
#[verifier::external_body]
fn tag_set_text(tag: &mut Tag, id: &str, text: &str)
    requires
        crate::text::byte_len(id@) == 4,
    ensures
        tag_frames(*final(tag)) == replaced(tag_frames(*old(tag)), id@).push((id@, Some(text@), true)),
{
    tag.set_text(id, text);
}

/// Removes every frame with ID `id` with `TagLike::remove`.
#[verifier::external_body]
fn tag_remove(tag: &mut Tag, id: &str)
    ensures
        tag_frames(*final(tag)) == without(tag_frames(*old(tag)), id@),
{
    tag.remove(id);
}

/// The ID3 frames that the editor's tags go into.
#[derive(Debug, Clone, Copy, PartialEq, Eq, Structural)]
pub enum Frame {
    Title,
    Artist,
    AlbumArtist,
    Album,
    Year,
    RecordingTime,
    Track,
    Genre,
    Composer,
    Disc,
}

/// The ID of a frame.
pub open spec fn frame_id(f: Frame) -> Seq<char> {
    match f {
        Frame::Title => "TIT2"@,
        Frame::Artist => "TPE1"@,
        Frame::AlbumArtist => "TPE2"@,
        Frame::Album => "TALB"@,
        Frame::Year => "TYER"@,
        Frame::RecordingTime => "TDRC"@,
        Frame::Track => "TRCK"@,
        Frame::Genre => "TCON"@,
        Frame::Composer => "TCOM"@,
        Frame::Disc => "TPOS"@,
    }
}

impl Frame {
    /// The frame's ID, four ASCII letters or digits.
    pub fn id(&self) -> (r: &'static str)
        ensures
            r@ == frame_id(*self),
            crate::text::byte_len(r@) == 4,
    {
        proof {
            reveal_strlit("TIT2");
            reveal_strlit("TPE1");
            reveal_strlit("TPE2");
            reveal_strlit("TALB");
            reveal_strlit("TYER");
            reveal_strlit("TDRC");
            reveal_strlit("TRCK");
            reveal_strlit("TCON");
            reveal_strlit("TCOM");
            reveal_strlit("TPOS");
        }
        let r = match self {
            Frame::Title => "TIT2",
            Frame::Artist => "TPE1",
            Frame::AlbumArtist => "TPE2",
            Frame::Album => "TALB",
            Frame::Year => "TYER",
            Frame::RecordingTime => "TDRC",
            Frame::Track => "TRCK",
            Frame::Genre => "TCON",
            Frame::Composer => "TCOM",
            Frame::Disc => "TPOS",
        };
        proof {
            vstd::utf8::is_ascii_chars_encode_utf8(r@);
        }
        r
    }
}

/// A change to one frame of a tag.
#[derive(Debug, PartialEq)]
pub enum FrameEdit {
    Put(Frame, String),
    Remove(Frame),
}

/// A change to one frame, as plain values.
pub enum EditView {
    Put(Frame, Seq<char>),
    Remove(Frame),
}

/// The changes, as plain values.
pub open spec fn edits_view(edits: Seq<FrameEdit>) -> Seq<EditView> {
    edits.map_values(
        |e: FrameEdit|
            match e {
                FrameEdit::Put(f, v) => EditView::Put(f, v@),
                FrameEdit::Remove(f) => EditView::Remove(f),
            },
    )
}

/// The frames that the editor's tag `key` goes into; `None` for a tag the
/// tagger does not handle. The date goes into both the year and the
/// recording time.
pub open spec fn frames_of(key: Seq<char>) -> Option<Seq<Frame>> {
    if key == "Title"@ {
        Some(seq![Frame::Title])
    } else if key == "Artist"@ {
        Some(seq![Frame::Artist])
    } else if key == "AlbumArtist"@ {
        Some(seq![Frame::AlbumArtist])
    } else if key == "Album"@ {
        Some(seq![Frame::Album])
    } else if key == "Date"@ {
        Some(seq![Frame::Year, Frame::RecordingTime])
    } else if key == "Track"@ {
        Some(seq![Frame::Track])
    } else if key == "Genre"@ {
        Some(seq![Frame::Genre])
    } else if key == "Composer"@ {
        Some(seq![Frame::Composer])
    } else if key == "Disc"@ {
        Some(seq![Frame::Disc])
    } else {
        None
    }
}

/// The edits one tag makes to `frames`: set each to the value, or remove
/// each when there is no value.
pub open spec fn edits_for(frames: Seq<Frame>, val: Option<Seq<char>>) -> Seq<EditView> {
    frames.map_values(
        |f: Frame|
            match val {
                Some(v) => EditView::Put(f, v),
                None => EditView::Remove(f),
            },
    )
}

/// The message for a tag the tagger does not handle.
pub open spec fn unhandled_message(key: Seq<char>) -> Seq<char> {
    "Tagger Error: Cannot tag unhandled tag key '"@ + key + "'"@
}

/// The edits that writing `tags` makes, in order; the message for the
/// first tag the tagger does not handle, if there is one.
pub open spec fn spec_frame_edits(tags: Seq<(Seq<char>, Option<Seq<char>>)>) -> Result<Seq<EditView>, Seq<char>>
    decreases tags.len(),
{
    if tags.len() == 0 {
        Ok(Seq::empty())
    } else {
        match spec_frame_edits(tags.drop_last()) {
            Err(m) => Err(m),
            Ok(done) => match frames_of(tags.last().0) {
                None => Err(unhandled_message(tags.last().0)),
                Some(fs) => Ok(done + edits_for(fs, tags.last().1)),
            },
        }
    }
}

/// The ID3v2.4 frame IDs that the editor's tag `key` is written to, by
/// the frames' own names: title TIT2, lead artist TPE1, album artist TPE2,
/// album TALB, year TYER and recording time TDRC for the date, track
/// TRCK, genre TCON, composer TCOM and part of a set TPOS.
pub open spec fn key_frame_ids(key: Seq<char>) -> Seq<Seq<char>> {
    if key == "Title"@ {
        seq!["TIT2"@]
    } else if key == "Artist"@ {
        seq!["TPE1"@]
    } else if key == "AlbumArtist"@ {
        seq!["TPE2"@]
    } else if key == "Album"@ {
        seq!["TALB"@]
    } else if key == "Date"@ {
        seq!["TYER"@, "TDRC"@]
    } else if key == "Track"@ {
        seq!["TRCK"@]
    } else if key == "Genre"@ {
        seq!["TCON"@]
    } else if key == "Composer"@ {
        seq!["TCOM"@]
    } else if key == "Disc"@ {
        seq!["TPOS"@]
    } else {
        Seq::empty()
    }
}

/// Every handled tag goes into the frames of its own name, and only the
/// tags listed there are handled.
pub proof fn law_tags_go_to_their_frames(key: Seq<char>)
    ensures
        frames_of(key) is Some <==> key_frame_ids(key).len() > 0,
        frames_of(key) matches Some(fs) ==> fs.map_values(|f: Frame| frame_id(f)) == key_frame_ids(key),
{
    reveal_strlit("Title");
    reveal_strlit("Artist");
    reveal_strlit("AlbumArtist");
    reveal_strlit("Album");
    reveal_strlit("Date");
    reveal_strlit("Track");
    reveal_strlit("Genre");
    reveal_strlit("Composer");
    reveal_strlit("Disc");
    assert("Title"@.len() == 5 && "Title"@[0] == 'T');
    assert("Artist"@.len() == 6 && "Artist"@[0] == 'A' && "Artist"@[5] == 't');
    assert("AlbumArtist"@.len() == 11 && "AlbumArtist"@[0] == 'A' && "AlbumArtist"@[5] == 'A');
    assert("Album"@.len() == 5 && "Album"@[0] == 'A');
    assert("Date"@.len() == 4 && "Date"@[0] == 'D');
    assert("Track"@.len() == 5 && "Track"@[0] == 'T');
    assert("Genre"@.len() == 5 && "Genre"@[0] == 'G');
    assert("Composer"@.len() == 8 && "Composer"@[0] == 'C' && "Composer"@[5] == 's');
    assert("Disc"@.len() == 4 && "Disc"@[0] == 'D');
    reveal_strlit("TIT2");
    reveal_strlit("TPE1");
    reveal_strlit("TPE2");
    reveal_strlit("TALB");
    reveal_strlit("TYER");
    reveal_strlit("TDRC");
    reveal_strlit("TRCK");
    reveal_strlit("TCON");
    reveal_strlit("TCOM");
    reveal_strlit("TPOS");
    assert("TIT2"@.len() == 4 && "TIT2"@[1] == 'I' && "TIT2"@[2] == 'T' && "TIT2"@[3] == '2');
    assert("TPE1"@.len() == 4 && "TPE1"@[1] == 'P' && "TPE1"@[2] == 'E' && "TPE1"@[3] == '1');
    assert("TPE2"@.len() == 4 && "TPE2"@[1] == 'P' && "TPE2"@[2] == 'E' && "TPE2"@[3] == '2');
    assert("TALB"@.len() == 4 && "TALB"@[1] == 'A' && "TALB"@[2] == 'L' && "TALB"@[3] == 'B');
    assert("TYER"@.len() == 4 && "TYER"@[1] == 'Y' && "TYER"@[2] == 'E' && "TYER"@[3] == 'R');
    assert("TDRC"@.len() == 4 && "TDRC"@[1] == 'D' && "TDRC"@[2] == 'R' && "TDRC"@[3] == 'C');
    assert("TRCK"@.len() == 4 && "TRCK"@[1] == 'R' && "TRCK"@[2] == 'C' && "TRCK"@[3] == 'K');
    assert("TCON"@.len() == 4 && "TCON"@[1] == 'C' && "TCON"@[2] == 'O' && "TCON"@[3] == 'N');
    assert("TCOM"@.len() == 4 && "TCOM"@[1] == 'C' && "TCOM"@[2] == 'O' && "TCOM"@[3] == 'M');
    assert("TPOS"@.len() == 4 && "TPOS"@[1] == 'P' && "TPOS"@[2] == 'O' && "TPOS"@[3] == 'S');
    if let Some(fs) = frames_of(key) {
        assert(fs.map_values(|f: Frame| frame_id(f)) =~= key_frame_ids(key));
    }
}

/// Two different tags never write the same frame.
pub proof fn law_tags_write_different_frames(k1: Seq<char>, k2: Seq<char>, i: int, j: int)
    requires
        k1 != k2,
        frames_of(k1) is Some,
        frames_of(k2) is Some,
        0 <= i < frames_of(k1)->0.len(),
        0 <= j < frames_of(k2)->0.len(),
    ensures
        frames_of(k1)->0[i] != frames_of(k2)->0[j],
{
    reveal_strlit("Title");
    reveal_strlit("Artist");
    reveal_strlit("AlbumArtist");
    reveal_strlit("Album");
    reveal_strlit("Date");
    reveal_strlit("Track");
    reveal_strlit("Genre");
    reveal_strlit("Composer");
    reveal_strlit("Disc");
    assert("Title"@.len() == 5 && "Title"@[0] == 'T');
    assert("Artist"@.len() == 6 && "Artist"@[0] == 'A' && "Artist"@[5] == 't');
    assert("AlbumArtist"@.len() == 11 && "AlbumArtist"@[0] == 'A' && "AlbumArtist"@[5] == 'A');
    assert("Album"@.len() == 5 && "Album"@[0] == 'A');
    assert("Date"@.len() == 4 && "Date"@[0] == 'D');
    assert("Track"@.len() == 5 && "Track"@[0] == 'T');
    assert("Genre"@.len() == 5 && "Genre"@[0] == 'G');
    assert("Composer"@.len() == 8 && "Composer"@[0] == 'C' && "Composer"@[5] == 's');
    assert("Disc"@.len() == 4 && "Disc"@[0] == 'D');
}

/// The (tag, value) pairs as plain values.
pub open spec fn pairs_view(tags: Seq<(String, Option<String>)>) -> Seq<(Seq<char>, Option<Seq<char>>)> {
    tags.map_values(|p: (String, Option<String>)| (p.0@, crate::track::opt_view(p.1)))
}

/// The frames that the editor's tag `key` goes into.
fn frames_for(key: &str) -> (r: Option<Vec<Frame>>)
    ensures
        match r {
            Some(v) => frames_of(key@) == Some(v@),
            None => frames_of(key@) is None,
        },
{
    if str_eq(key, "Title") {
        Some(vec![Frame::Title])
    } else if str_eq(key, "Artist") {
        Some(vec![Frame::Artist])
    } else if str_eq(key, "AlbumArtist") {
        Some(vec![Frame::AlbumArtist])
    } else if str_eq(key, "Album") {
        Some(vec![Frame::Album])
    } else if str_eq(key, "Date") {
        Some(vec![Frame::Year, Frame::RecordingTime])
    } else if str_eq(key, "Track") {
        Some(vec![Frame::Track])
    } else if str_eq(key, "Genre") {
        Some(vec![Frame::Genre])
    } else if str_eq(key, "Composer") {
        Some(vec![Frame::Composer])
    } else if str_eq(key, "Disc") {
        Some(vec![Frame::Disc])
    } else {
        None
    }
}

/// The frame edits that writing `tags` makes, or the message for the
/// first tag the tagger does not handle.
pub fn frame_edits(tags: &Vec<(String, Option<String>)>) -> (r: Result<Vec<FrameEdit>, String>)
    ensures
        match r {
            Ok(v) => spec_frame_edits(pairs_view(tags@)) == Ok::<Seq<EditView>, Seq<char>>(edits_view(v@)),
            Err(m) => spec_frame_edits(pairs_view(tags@)) == Err::<Seq<EditView>, Seq<char>>(m@),
        },
{
    let ghost pv = pairs_view(tags@);
    let mut out: Vec<FrameEdit> = Vec::new();
    let mut i: usize = 0;
    assert(edits_view(out@) =~= Seq::empty());
    assert(pv.subrange(0, 0) =~= Seq::empty());
    while i < tags.len()
        invariant
            pv == pairs_view(tags@),
            i <= tags@.len(),
            spec_frame_edits(pv.subrange(0, i as int)) == Ok::<Seq<EditView>, Seq<char>>(edits_view(out@)),
        decreases tags@.len() - i,
    {
        assert(pv.subrange(0, i + 1).drop_last() =~= pv.subrange(0, i as int));
        assert(pv[i as int] == (tags@[i as int].0@, crate::track::opt_view(tags@[i as int].1)));
        let key = tags[i].0.as_str();
        match frames_for(key) {
            None => {
                let a = concat("Tagger Error: Cannot tag unhandled tag key '", key);
                proof {
                    lemma_frame_edits_err(pv, (i + 1) as nat);
                }
                return Err(concat(a.as_str(), "'"));
            },
            Some(fs) => {
                let ghost before = edits_view(out@);
                let mut j: usize = 0;
                while j < fs.len()
                    invariant
                        i < tags@.len(),
                        j <= fs@.len(),
                        edits_view(out@) == before + edits_for(fs@.subrange(0, j as int), pv[i as int].1),
                        pv[i as int] == (tags@[i as int].0@, crate::track::opt_view(tags@[i as int].1)),
                    decreases fs@.len() - j,
                {
                    let ghost prev = out@;
                    let ghost val = pv[i as int].1;
                    let ghost item = match val {
                        Some(v) => EditView::Put(fs@[j as int], v),
                        None => EditView::Remove(fs@[j as int]),
                    };
                    match &tags[i].1 {
                        Some(v) => out.push(FrameEdit::Put(fs[j], v.clone())),
                        None => out.push(FrameEdit::Remove(fs[j])),
                    }
                    assert(edits_view(out@) =~= edits_view(prev).push(item));
                    assert(edits_for(fs@.subrange(0, j + 1), val) =~= edits_for(fs@.subrange(0, j as int), val).push(item));
                    j = j + 1;
                    assert(edits_view(out@) =~= before + edits_for(fs@.subrange(0, j as int), pv[i as int].1));
                }
                assert(fs@.subrange(0, j as int) =~= fs@);
                assert(pv.subrange(0, i + 1).last() == pv[i as int]);
                assert(spec_frame_edits(pv.subrange(0, i + 1)) == Ok::<Seq<EditView>, Seq<char>>(edits_view(out@)));
            },
        }
        i = i + 1;
    }
    assert(pv.subrange(0, i as int) =~= pv);
    Ok(out)
}

/// Once a tag is refused, the whole list is.
proof fn lemma_frame_edits_err(tags: Seq<(Seq<char>, Option<Seq<char>>)>, k: nat)
    requires
        k <= tags.len(),
        spec_frame_edits(tags.subrange(0, k as int)) is Err,
    ensures
        spec_frame_edits(tags) == spec_frame_edits(tags.subrange(0, k as int)),
    decreases tags.len() - k,
{
    if k < tags.len() {
        let next = tags.subrange(0, k as int + 1);
        assert(next.drop_last() =~= tags.subrange(0, k as int));
        lemma_frame_edits_err(tags, (k + 1) as nat);
    } else {
        assert(tags.subrange(0, k as int) =~= tags);
    }
}

/// The frames after one edit.
pub open spec fn edited(frames: Seq<FrameView>, e: EditView) -> Seq<FrameView> {
    match e {
        EditView::Put(f, v) => replaced(frames, frame_id(f)).push((frame_id(f), Some(v), true)),
        EditView::Remove(f) => without(frames, frame_id(f)),
    }
}

/// The frames after the edits, one after the other.
pub open spec fn all_edited(frames: Seq<FrameView>, edits: Seq<EditView>) -> Seq<FrameView>
    decreases edits.len(),
{
    if edits.len() == 0 {
        frames
    } else {
        edited(all_edited(frames, edits.drop_last()), edits.last())
    }
}

/// Makes the edits to `tag`, in order.
pub fn apply_edits(tag: &mut Tag, edits: &Vec<FrameEdit>)
    ensures
        tag_frames(*final(tag)) == all_edited(tag_frames(*old(tag)), edits_view(edits@)),
{
    let ghost start = tag_frames(*tag);
    let ghost ev = edits_view(edits@);
    let mut i: usize = 0;
    while i < edits.len()
        invariant
            ev == edits_view(edits@),
            i <= edits@.len(),
            tag_frames(*tag) == all_edited(start, ev.subrange(0, i as int)),
        decreases edits@.len() - i,
    {
        assert(ev.subrange(0, i + 1).drop_last() =~= ev.subrange(0, i as int));
        match &edits[i] {
            FrameEdit::Put(f, v) => tag_set_text(tag, f.id(), v.as_str()),
            FrameEdit::Remove(f) => tag_remove(tag, f.id()),
        }
        i = i + 1;
    }
    assert(ev.subrange(0, i as int) =~= ev);
}

/// The folders the tagger works in: where the music files are, and where
/// copies are made while their tags are written.
pub struct Tagger {
    pub music_dir: Option<String>,
    pub temp_dir: Option<String>,
}

/// The message for a folder that cannot be used as `name`.
pub open spec fn not_a_folder_message(name: Seq<char>, path: Seq<char>) -> Seq<char> {
    "Cannot set "@ + name + " for tagging to '"@ + path + "' because it is not a valid folder."@
}

/// The message for a folder that cannot be used as `name`.
pub fn not_a_folder(name: &str, path: &str) -> (r: String)
    ensures
        r@ == not_a_folder_message(name@, path@),
{
    let a = concat("Cannot set ", name);
    let b = concat(a.as_str(), " for tagging to '");
    let c = concat(b.as_str(), path);
    concat(c.as_str(), "' because it is not a valid folder.")
}

/// `e` is the error event carrying `msg`.
pub open spec fn is_error(e: Event, msg: Seq<char>) -> bool {
    e matches Event::ToApp(crate::event::AppEvent::Error(m)) && m@ == msg
}

/// The file operations whose failure stops the tagger.
#[derive(Debug, Clone, Copy, PartialEq, Eq, Structural)]
pub enum TagStep {
    CreateDir,
    Copy,
    ReadTag,
    Write,
}

/// The message for a failed step, given the error's text.
pub open spec fn step_message(step: TagStep, detail: Seq<char>) -> Seq<char> {
    match step {
        TagStep::CreateDir => "Tagger - Create Dir Error: "@ + detail,
        TagStep::Copy => "Tagger - Copy Error: "@ + detail,
        TagStep::ReadTag => "Tagger - Id3 Tag Error: "@ + detail,
        TagStep::Write => "Tagger - Write Error: "@ + detail,
    }
}

impl TagStep {
    /// The error event for the step failing with the error text `detail`.
    pub fn failed(&self, detail: &str) -> (e: Event)
        ensures
            is_error(e, step_message(*self, detail@)),
    {
        let head = match self {
            TagStep::CreateDir => "Tagger - Create Dir Error: ",
            TagStep::Copy => "Tagger - Copy Error: ",
            TagStep::ReadTag => "Tagger - Id3 Tag Error: ",
            TagStep::Write => "Tagger - Write Error: ",
        };
        Event::err(concat(head, detail))
    }
}

/// The error event for a music file that is not there.
pub fn missing_file(path: &str) -> (e: Event)
    ensures
        is_error(e, "Tagger: Cannot find file "@ + path@),
{
    Event::err(concat("Tagger: Cannot find file ", path))
}

/// What the tagger sends once every file is written: a note for the
/// command line, and a request that the player read its library again.
pub fn tag_finished() -> (out: Vec<Event>)
    ensures
        out@.len() == 2,
        out@[0] matches Event::ToCommandLine(CommandLineEvent::Echo(t)) && t@ == "Saved tags!"@,
        out@[1] matches Event::ToMpd(MpdEvent::Update),
{
    let mut out: Vec<Event> = Vec::new();
    out.push(Event::ToCommandLine(CommandLineEvent::Echo("Saved tags!".to_string())));
    out.push(Event::ToMpd(MpdEvent::Update));
    out
}

impl Tagger {
    /// A tagger with neither folder set.
    pub fn new() -> (t: Tagger)
        ensures
            t.music_dir is None,
            t.temp_dir is None,
    {
        Tagger { music_dir: None, temp_dir: None }
    }

    /// Sets the music folder to `path` (with `~` expanded) when `is_dir`
    /// says it is a folder; otherwise clears it and reports the error.
    pub fn set_music_dir(&mut self, path: String, is_dir: bool) -> (out: Vec<Event>)
        ensures
            final(self).temp_dir == old(self).temp_dir,
            is_dir ==> final(self).music_dir == Some(path) && out@.len() == 0,
            !is_dir ==> final(self).music_dir is None && out@.len() == 1 && is_error(
                out@[0],
                not_a_folder_message("MusicDir"@, path@),
            ),
    {
        let mut out: Vec<Event> = Vec::new();
        if is_dir {
            self.music_dir = Some(path);
        } else {
            self.music_dir = None;
            out.push(Event::err(not_a_folder("MusicDir", path.as_str())));
        }
        out
    }

    /// Sets the folder for copies to `path` (with `~` expanded) when
    /// `is_dir` says it is a folder. Otherwise nothing changes yet, and the
    /// result asks for the folder to be made.
    pub fn set_temp_dir(&mut self, path: String, is_dir: bool) -> (make: bool)
        ensures
            make == !is_dir,
            final(self).music_dir == old(self).music_dir,
            is_dir ==> final(self).temp_dir == Some(path),
            !is_dir ==> final(self).temp_dir == old(self).temp_dir,
    {
        if is_dir {
            self.temp_dir = Some(path);
            false
        } else {
            true
        }
    }

    /// After making the folder for copies: `made` is whether `path` is a
    /// folder now, or the error's text when making it failed. A folder
    /// made this way becomes the folder for copies; a failure clears it.
    /// The music folder stays as it was.
    pub fn temp_dir_made(&mut self, path: String, made: Result<bool, String>) -> (out: Vec<Event>)
        ensures
            final(self).music_dir == old(self).music_dir,
            match made {
                Ok(true) => final(self).temp_dir == Some(path) && out@.len() == 0,
                Ok(false) => final(self).temp_dir is None && out@.len() == 1 && is_error(
                    out@[0],
                    not_a_folder_message("TempDir"@, path@),
                ),
                Err(m) => final(self).temp_dir is None && out@.len() == 1 && is_error(
                    out@[0],
                    step_message(TagStep::CreateDir, m@),
                ),
            },
    {
        let mut out: Vec<Event> = Vec::new();
        match made {
            Ok(true) => {
                self.temp_dir = Some(path);
            },
            Ok(false) => {
                self.temp_dir = None;
                out.push(Event::err(not_a_folder("TempDir", path.as_str())));
            },
            Err(m) => {
                self.temp_dir = None;
                out.push(TagStep::CreateDir.failed(m.as_str()));
            },
        }
        out
    }

    /// The music folder and the folder for copies, when both are set;
    /// otherwise the error to report.
    pub fn folders(&self) -> (r: Result<(&String, &String), Event>)
        ensures
            match (self.music_dir, self.temp_dir) {
                (Some(d), Some(t)) => r matches Ok(p) && *p.0 == d && *p.1 == t,
                (Some(_), None) => r matches Err(e) && is_error(e, "Tagger Error: Cannot tag when MusicDir is not set"@),
                (None, Some(_)) => r matches Err(e) && is_error(e, "Tagger Error: Cannot tag when TempDir is not set"@),
                (None, None) => r matches Err(e) && is_error(
                    e,
                    "Tagger Error: Cannot tag when MusicDir and TempDir are not set"@,
                ),
            },
    {
        match (&self.music_dir, &self.temp_dir) {
            (Some(d), Some(t)) => Ok((d, t)),
            (Some(_), None) => Err(Event::err("Tagger Error: Cannot tag when MusicDir is not set".to_string())),
            (None, Some(_)) => Err(Event::err("Tagger Error: Cannot tag when TempDir is not set".to_string())),
            (None, None) => Err(Event::err("Tagger Error: Cannot tag when MusicDir and TempDir are not set".to_string())),
        }
    }
}

/// What a tagging run does next.
#[derive(Debug, Clone, Copy, PartialEq, Eq, Structural)]
pub enum TagNext {
    /// Copy song `i` into the folder for copies, read its tag, edit it
    /// and write it back into the copy.
    Write(usize),
    /// Put the tagged copy of song `i` back over its music file.
    CopyBack(usize),
    /// The run is over.
    Finished,
}

/// What came of the last piece of work of a run.
#[derive(Debug)]
pub enum TagOutcome {
    /// The song's copy was tagged and written.
    Written,
    /// Writing the song's copy failed; the event tells why.
    Failed(Event),
    /// The copy was put back; `Some` holds the error's text when that
    /// failed.
    CopiedBack(Option<String>),
}

/// The events that end a run that wrote every copy: a note for the
/// command line, then a request that the player read its library again.
pub open spec fn is_finish(out: Seq<Event>) -> bool {
    &&& out.len() == 2
    &&& out[0] matches Event::ToCommandLine(CommandLineEvent::Echo(t)) && t@ == "Saved tags!"@
    &&& out[1] matches Event::ToMpd(MpdEvent::Update)
}

/// A run that writes tags into `songs` songs. The copies are all written
/// first, in order, and only then put back, in order: nothing is put back
/// unless every copy was written.
#[derive(Debug, Clone, Copy, PartialEq, Eq, Structural)]
pub struct TagRun {
    pub songs: usize,
    /// How many copies are written.
    pub written: usize,
    /// How many copies are put back.
    pub copied: usize,
}

impl TagRun {
    /// Copies are put back only once all are written.
    pub open spec fn wf(self) -> bool {
        &&& self.written <= self.songs
        &&& self.copied <= self.written
        &&& self.copied > 0 ==> self.written == self.songs
    }

    /// The run still has work to do.
    pub open spec fn going(self) -> bool {
        self.copied < self.songs
    }

    /// The outcome fits the work the run asked for: a written or failed
    /// copy while copies are written, a put-back copy afterwards.
    pub open spec fn expects(self, o: TagOutcome) -> bool {
        if self.written < self.songs { !(o is CopiedBack) } else { o is CopiedBack }
    }

    /// The work a run asks for first, and what it sends: a run over no
    /// songs is over at once.
    pub open spec fn started(songs: usize, run: TagRun, next: TagNext, out: Seq<Event>) -> bool {
        &&& run == TagRun { songs, written: 0, copied: 0 }
        &&& if songs > 0 { next == TagNext::Write(0) && out.len() == 0 } else { next == TagNext::Finished && is_finish(out) }
    }

    /// What one step of a run does with the outcome `o` of the work it
    /// asked for: `new` is the run after it, `next` the work it asks for
    /// and `out` the events it sends.
    pub open spec fn stepped(self, o: TagOutcome, new: TagRun, next: TagNext, out: Seq<Event>) -> bool {
        match o {
            TagOutcome::Written => {
                &&& new == TagRun { written: (self.written + 1) as usize, ..self }
                &&& out.len() == 0
                &&& next == if new.written < self.songs { TagNext::Write(new.written) } else { TagNext::CopyBack(0) }
            },
            TagOutcome::Failed(e) => new == self && next == TagNext::Finished && out == seq![e],
            TagOutcome::CopiedBack(r) => {
                let failed = match r {
                    Some(d) => out.len() >= 1 && is_error(out[0], step_message(TagStep::Copy, d@)),
                    None => true,
                };
                let skip: int = if r is Some { 1 } else { 0 };
                &&& new == TagRun { copied: (self.copied + 1) as usize, ..self }
                &&& failed
                &&& if new.copied < self.songs {
                    next == TagNext::CopyBack(new.copied) && out.len() == skip
                } else {
                    next == TagNext::Finished && is_finish(out.skip(skip))
                }
            },
        }
    }

    /// Starts a run over `songs` songs.
    pub fn start(songs: usize) -> (r: (TagRun, TagNext, Vec<Event>))
        ensures
            r.0.wf(),
            TagRun::started(songs, r.0, r.1, r.2@),
    {
        let run = TagRun { songs, written: 0, copied: 0 };
        if songs > 0 {
            (run, TagNext::Write(0), Vec::new())
        } else {
            (run, TagNext::Finished, tag_finished())
        }
    }

    /// Takes in the outcome of the work the run asked for: any failure
    /// while copies are written ends the run with its message and nothing
    /// put back; a copy that cannot be put back is reported and the others
    /// are still put back.
    pub fn step(&mut self, o: TagOutcome) -> (r: (TagNext, Vec<Event>))
        requires
            old(self).wf(),
            old(self).going(),
            old(self).expects(o),
        ensures
            final(self).wf(),
            old(self).stepped(o, *final(self), r.0, r.1@),
    {
        match o {
            TagOutcome::Written => {
                self.written = self.written + 1;
                if self.written < self.songs {
                    (TagNext::Write(self.written), Vec::new())
                } else {
                    (TagNext::CopyBack(0), Vec::new())
                }
            },
            TagOutcome::Failed(e) => {
                let mut out: Vec<Event> = Vec::new();
                out.push(e);
                (TagNext::Finished, out)
            },
            TagOutcome::CopiedBack(res) => {
                let mut out: Vec<Event> = Vec::new();
                match res {
                    Some(d) => out.push(TagStep::Copy.failed(d.as_str())),
                    None => {},
                }
                let ghost skip: int = out@.len() as int;
                self.copied = self.copied + 1;
                if self.copied < self.songs {
                    (TagNext::CopyBack(self.copied), out)
                } else {
                    let mut fin = tag_finished();
                    let ghost fv = fin@;
                    out.append(&mut fin);
                    assert(out@.skip(skip) =~= fv);
                    (TagNext::Finished, out)
                }
            },
        }
    }
}

/// A tagging run puts copies back only once every copy is written, and a
/// failure while writing ends the run with nothing put back.
pub proof fn law_put_back_only_after_all_written(run: TagRun, o: TagOutcome, new: TagRun, next: TagNext, out: Seq<Event>)
    requires
        run.wf(),
        run.going(),
        run.expects(o),
        run.stepped(o, new, next, out),
    ensures
        new.wf(),
        next is CopyBack ==> new.written == run.songs,
        new.copied > 0 ==> new.written == run.songs,
        o is Failed ==> next == TagNext::Finished && new.copied == 0,
{
}

/// Dropping a frame with ID `id` leaves the frames with other IDs as they
/// were.
proof fn lemma_replaced_keeps_others(frames: Seq<FrameView>, id: Seq<char>)
    ensures
        without(replaced(frames, id), id) == without(frames, id),
    decreases frames.len(),
{
    if frames.len() > 0 {
        let rest = frames.drop_first();
        assert(frames =~= seq![frames[0]] + rest);
        lemma_replaced_keeps_others(rest, id);
        Seq::filter_distributes_over_add(seq![frames[0]], rest, other_id(id));
        if !(frames[0].0 == id && frames[0].2) {
            assert(replaced(frames, id) == seq![frames[0]] + replaced(rest, id));
            Seq::filter_distributes_over_add(seq![frames[0]], replaced(rest, id), other_id(id));
        }
        assert(seq![frames[0]].filter(other_id(id)) =~= (if frames[0].0 != id { seq![frames[0]] } else { Seq::empty() })) by {
            reveal_with_fuel(Seq::filter, 2);
            assert(seq![frames[0]].drop_last() =~= Seq::<FrameView>::empty());
        }
    }
}

/// Removing the frames with ID `id` twice is removing them once.
proof fn lemma_without_twice(frames: Seq<FrameView>, id: Seq<char>)
    ensures
        without(without(frames, id), id) == without(frames, id),
    decreases frames.len(),
{
    reveal(Seq::filter);
    if frames.len() > 0 {
        lemma_without_twice(frames.drop_last(), id);
        assert(frames.drop_last().filter(other_id(id)) == without(frames.drop_last(), id));
        if frames.last().0 != id {
            assert(without(frames, id) == without(frames.drop_last(), id).push(frames.last()));
            assert(without(frames, id).drop_last() =~= without(frames.drop_last(), id));
        }
    }
}

/// An edit changes only the frames with its own ID: after putting a value
/// into a frame, the tag's last frame is that frame with that value;
/// after removing a frame, no frame with its ID is left; either way the
/// frames with other IDs are as they were, in order.
pub proof fn law_edit_touches_its_frame(frames: Seq<FrameView>, e: EditView)
    ensures
        e matches EditView::Put(f, v) ==> edited(frames, e).len() > 0 && edited(frames, e).last() == (
            frame_id(f),
            Some(v),
            true,
        ),
        e matches EditView::Remove(f) ==> forall|i: int|
            0 <= i < edited(frames, e).len() ==> (#[trigger] edited(frames, e)[i]).0 != frame_id(f),
        without(edited(frames, e), edited_id(e)) == without(frames, edited_id(e)),
{
    broadcast use vstd::seq_lib::group_filter_ensures;

    let id = edited_id(e);
    match e {
        EditView::Put(f, v) => {
            let r = replaced(frames, id);
            lemma_replaced_keeps_others(frames, id);
            reveal(Seq::filter);
            assert(r.push((id, Some(v), true)).drop_last() =~= r);
        },
        EditView::Remove(f) => {
            lemma_without_twice(frames, id);
            assert forall|i: int| 0 <= i < edited(frames, e).len() implies (#[trigger] edited(frames, e)[i]).0 != frame_id(f) by {
                frames.lemma_filter_pred(other_id(id), i);
            }
        },
    }
}

/// The ID of the frame an edit changes.
pub open spec fn edited_id(e: EditView) -> Seq<char> {
    match e {
        EditView::Put(f, _) => frame_id(f),
        EditView::Remove(f) => frame_id(f),
    }
}

} // verus!
