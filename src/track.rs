//! A track of the music library, as its database row holds it.
use vstd::prelude::*;

verus! {

pub struct Track {
    pub title: String,
    pub artist: String,
    /// Comma-separated tags, such as `rock, 90s`.
    pub tags: String,
    pub path: String,
}

/// The text stored for a tag field that a file's tag lacks.
pub open spec fn or_default(field: Option<String>, default: Seq<char>) -> Seq<char> {
    match field {
        Some(s) => s@,
        None => default,
    }
}

impl Track {
    /// The record of a file whose tag gave these fields; a missing title,
    /// artist or comment is stored as `Unknown Title`, `Unknown Artist` or
    /// `None`. The first comment of the tag becomes the tag field.
    pub fn from_tag(
        title: Option<String>,
        artist: Option<String>,
        first_comment: Option<String>,
        path: String,
    ) -> (t: Track)
        ensures
            t.title@ == or_default(title, "Unknown Title"@),
            t.artist@ == or_default(artist, "Unknown Artist"@),
            t.tags@ == or_default(first_comment, "None"@),
            t.path == path,
    {
        let title = match title {
            Some(s) => s,
            None => "Unknown Title".to_owned(),
        };
        let artist = match artist {
            Some(s) => s,
            None => "Unknown Artist".to_owned(),
        };
        let tags = match first_comment {
            Some(s) => s,
            None => "None".to_owned(),
        };
        Track { title, artist, tags, path }
    }
}

impl Clone for Track {
    fn clone(&self) -> (r: Self)
        ensures
            r == *self,
    {
        Track {
            title: self.title.clone(),
            artist: self.artist.clone(),
            tags: self.tags.clone(),
            path: self.path.clone(),
        }
    }
}

} // verus!
