//! Named, ordered lists of tracks that the user puts together.
use vstd::prelude::*;
use crate::track::Track;

verus! {

pub struct Playlist {
    pub name: String,
    pub playlist: Vec<Track>,
}

/// Where a track taken out at `from` goes back in, so that it ends up just
/// before the track that stood at `to`.
pub open spec fn insert_position(from: int, to: int) -> int {
    if to > from {
        to - 1
    } else {
        to
    }
}

impl Playlist {
    pub fn new(name: String) -> (p: Playlist)
        ensures
            p.name == name,
            p.playlist@.len() == 0,
    {
        Playlist { name, playlist: Vec::new() }
    }

    /// Appends a track.
    pub fn add_track_to_playlist(&mut self, track: Track)
        ensures
            final(self).playlist@ == old(self).playlist@.push(track),
            final(self).name == old(self).name,
    {
        self.playlist.push(track);
    }

    /// Removes the track at `index`.
    pub fn remove_track_from_playlist(&mut self, index: usize)
        requires
            index < old(self).playlist@.len(),
        ensures
            final(self).playlist@ == old(self).playlist@.remove(index as int),
            final(self).name == old(self).name,
    {
        self.playlist.remove(index);
    }

    /// Moves the track at `from_index` so that it stands just before the track
    /// that was at `to_index`; a `to_index` equal to the length moves it to
    /// the end. Equal indices change nothing, whatever they are.
    pub fn move_track_in_playlist(&mut self, from_index: usize, to_index: usize)
        requires
            from_index != to_index ==> from_index < old(self).playlist@.len() && to_index
                <= old(self).playlist@.len(),
        ensures
            from_index == to_index ==> final(self).playlist@ == old(self).playlist@,
            from_index != to_index ==> final(self).playlist@ == old(self).playlist@.remove(
                from_index as int,
            ).insert(
                insert_position(from_index as int, to_index as int),
                old(self).playlist@[from_index as int],
            ),
            final(self).name == old(self).name,
    {
        if from_index != to_index {
            let track = self.playlist.remove(from_index);
            let insert_at = if to_index > from_index {
                to_index - 1
            } else {
                to_index
            };
            self.playlist.insert(insert_at, track);
        }
    }
}

/// The two playlists of the two decks, named and empty.
pub fn initialize_playlists() -> (r: (Playlist, Playlist))
    ensures
        r.0.name@ == "Playlist 1"@,
        r.1.name@ == "Playlist 2"@,
        r.0.playlist@.len() == 0,
        r.1.playlist@.len() == 0,
{
    let playlist_1 = Playlist::new("Playlist 1".to_owned());
    let playlist_2 = Playlist::new("Playlist 2".to_owned());
    (playlist_1, playlist_2)
}

} // verus!
