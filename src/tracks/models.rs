//! A track with the comments of its tag, each comment a separate entry.
use vstd::prelude::*;
use crate::text::{texts, trimmed_list, trimmed_pieces};

verus! {

/// The comments of a tag: the text of each comment frame split at commas,
/// each piece without white space at either end.
pub open spec fn comment_texts(frames: Seq<Seq<char>>) -> Seq<Seq<char>>
    decreases frames.len(),
{
    if frames.len() == 0 {
        Seq::empty()
    } else {
        comment_texts(frames.drop_last()) + trimmed_pieces(frames.last())
    }
}

/// The comments of a tag whose comment frames hold these texts.
pub fn comments_from_frames(frames: &Vec<String>) -> (r: Vec<String>)
    ensures
        texts(r@) == comment_texts(texts(frames@)),
{
    let mut out: Vec<String> = Vec::new();
    let mut i: usize = 0;
    proof {
        assert(texts(out@) =~= comment_texts(texts(frames@).take(0)));
    }
    while i < frames.len()
        invariant
            i <= frames@.len(),
            texts(out@) == comment_texts(texts(frames@).take(i as int)),
        decreases frames@.len() - i,
    {
        let mut pieces = trimmed_list(frames[i].as_str());
        let ghost before = out@;
        let ghost added = pieces@;
        out.append(&mut pieces);
        proof {
            assert(texts(frames@).take(i + 1).drop_last() =~= texts(frames@).take(i as int));
            assert(texts(out@) =~= texts(before) + texts(added));
        }
        i = i + 1;
    }
    proof {
        assert(texts(frames@).take(frames@.len() as int) =~= texts(frames@));
    }
    out
}

pub struct Track {
    pub title: String,
    pub artist: String,
    pub comments_vec: Vec<String>,
    pub path: String,
}

impl Track {
    pub fn new(title: String, artist: String, comments_vec: Vec<String>, path: String) -> (t: Track)
        ensures
            t.title == title,
            t.artist == artist,
            t.comments_vec == comments_vec,
            t.path == path,
    {
        Track { title, artist, comments_vec, path }
    }

    /// The record of the file at `path` whose tag gave these fields; a
    /// missing title or artist is stored empty.
    pub fn from_tag(
        title: Option<String>,
        artist: Option<String>,
        comment_frames: &Vec<String>,
        path: String,
    ) -> (t: Track)
        ensures
            t.title@ == (match title {
                Some(s) => s@,
                None => Seq::<char>::empty(),
            }),
            t.artist@ == (match artist {
                Some(s) => s@,
                None => Seq::<char>::empty(),
            }),
            texts(t.comments_vec@) == comment_texts(texts(comment_frames@)),
            t.path == path,
    {
        let title = match title {
            Some(s) => s,
            None => String::new(),
        };
        let artist = match artist {
            Some(s) => s,
            None => String::new(),
        };
        Track { title, artist, comments_vec: comments_from_frames(comment_frames), path }
    }

    /// The path of the track's file.
    pub fn path(&self) -> (r: &str)
        ensures
            r@ == self.path@,
    {
        self.path.as_str()
    }
}

} // verus!
