//! The library view: every track, the tags found on them, the tags the user
//! selected, and the tracks that the selection lets through.
use vstd::prelude::*;
use crate::text::{contains_text, dedup, distinct, tag_list, tag_texts, texts};
use crate::track::Track;

verus! {

/// How selected tags combine.
#[derive(Clone, Copy, Debug, PartialEq, Eq, Structural)]
pub enum Filter {
    /// A track must carry every selected tag.
    And,
    /// A track must carry at least one selected tag.
    Or,
    /// Every track is shown.
    Off,
}

pub struct Stage {
    pub tracks: Vec<Track>,
    pub visible_tracks: Vec<Track>,
    pub tags: Vec<String>,
    pub selected_tags: Vec<String>,
    pub filter: Filter,
}

/// Whether a track carrying `track_tags` passes the selection.
pub open spec fn tags_pass(
    track_tags: Seq<Seq<char>>,
    selected: Seq<Seq<char>>,
    filter: Filter,
) -> bool {
    match filter {
        Filter::And => forall|i: int|
            0 <= i < selected.len() ==> track_tags.contains(#[trigger] selected[i]),
        Filter::Or => exists|i: int|
            0 <= i < selected.len() && track_tags.contains(#[trigger] selected[i]),
        Filter::Off => true,
    }
}

/// The tracks that pass the selection, in order.
pub open spec fn tracks_passing(
    tracks: Seq<Track>,
    selected: Seq<Seq<char>>,
    filter: Filter,
) -> Seq<Track>
    decreases tracks.len(),
{
    if tracks.len() == 0 {
        tracks
    } else {
        let prev = tracks_passing(tracks.drop_last(), selected, filter);
        if tags_pass(tag_texts(tracks.last().tags@), selected, filter) {
            prev.push(tracks.last())
        } else {
            prev
        }
    }
}

/// The tracks shown: all of them when no tag is selected or no filter is
/// set, else those that pass.
pub open spec fn visible(tracks: Seq<Track>, selected: Seq<Seq<char>>, filter: Filter) -> Seq<
    Track,
> {
    if selected.len() == 0 || filter == Filter::Off {
        tracks
    } else {
        tracks_passing(tracks, selected, filter)
    }
}

/// Every tag of every track, in order, repetitions included.
pub open spec fn all_tags(tracks: Seq<Track>) -> Seq<Seq<char>>
    decreases tracks.len(),
{
    if tracks.len() == 0 {
        Seq::empty()
    } else {
        all_tags(tracks.drop_last()) + tag_texts(tracks.last().tags@)
    }
}

/// Whether a track carrying `track_tags` passes the selection.
pub fn tags_match(track_tags: &Vec<String>, selected: &Vec<String>, filter: Filter) -> (r: bool)
    ensures
        r == tags_pass(texts(track_tags@), texts(selected@), filter),
{
    match filter {
        Filter::Off => true,
        Filter::And => {
            let mut i: usize = 0;
            while i < selected.len()
                invariant
                    i <= selected@.len(),
                    filter == Filter::And,
                    forall|k: int|
                        0 <= k < i ==> texts(track_tags@).contains(#[trigger] texts(selected@)[k]),
                decreases selected@.len() - i,
            {
                if !contains_text(track_tags, &selected[i]) {
                    assert(!texts(track_tags@).contains(texts(selected@)[i as int]));
                    assert(!tags_pass(texts(track_tags@), texts(selected@), filter));
                    return false;
                }
                i = i + 1;
            }
            true
        },
        Filter::Or => {
            let mut i: usize = 0;
            while i < selected.len()
                invariant
                    i <= selected@.len(),
                    filter == Filter::Or,
                    forall|k: int|
                        0 <= k < i ==> !texts(track_tags@).contains(#[trigger] texts(selected@)[k]),
                decreases selected@.len() - i,
            {
                if contains_text(track_tags, &selected[i]) {
                    assert(texts(track_tags@).contains(texts(selected@)[i as int]));
                    assert(tags_pass(texts(track_tags@), texts(selected@), filter));
                    return true;
                }
                i = i + 1;
            }
            false
        },
    }
}

/// Builds the view over `tracks`, with the distinct tags found on them in the
/// order they first occur, nothing selected and no filter.
pub fn initialize_stage(tracks: Vec<Track>) -> (s: Stage)
    ensures
        s.tracks@ == tracks@,
        texts(s.tags@) == dedup(all_tags(tracks@)),
        s.visible_tracks@.len() == 0,
        s.selected_tags@.len() == 0,
        s.filter == Filter::Off,
{
    let mut found: Vec<String> = Vec::new();
    let mut i: usize = 0;
    while i < tracks.len()
        invariant
            i <= tracks@.len(),
            texts(found@) == all_tags(tracks@.take(i as int)),
        decreases tracks@.len() - i,
    {
        let mut list = tag_list(tracks[i].tags.as_str());
        let ghost before = found@;
        let ghost added = list@;
        found.append(&mut list);
        proof {
            assert(tracks@.take(i + 1).drop_last() =~= tracks@.take(i as int));
            assert(texts(found@) =~= texts(before) + texts(added));
        }
        i = i + 1;
    }
    proof {
        assert(tracks@.take(tracks@.len() as int) =~= tracks@);
    }
    let tags = distinct(&found);
    Stage {
        tracks,
        visible_tracks: Vec::new(),
        tags,
        selected_tags: Vec::new(),
        filter: Filter::Off,
    }
}

impl Stage {
    /// Recomputes the tracks shown from the tracks, the selected tags and the
    /// filter.
    pub fn update_visible_tracks(&mut self)
        ensures
            final(self).visible_tracks@ == visible(
                old(self).tracks@,
                texts(old(self).selected_tags@),
                old(self).filter,
            ),
            final(self).tracks == old(self).tracks,
            final(self).tags == old(self).tags,
            final(self).selected_tags == old(self).selected_tags,
            final(self).filter == old(self).filter,
    {
        self.visible_tracks.clear();
        if self.selected_tags.len() == 0 || self.filter == Filter::Off {
            self.visible_tracks = self.tracks.clone();
            proof {
                assert(self.visible_tracks@ =~= self.tracks@);
            }
            return;
        }
        let mut i: usize = 0;
        proof {
            assert(self.tracks@.take(0) =~= Seq::<Track>::empty());
            assert(self.visible_tracks@ =~= Seq::<Track>::empty());
        }
        while i < self.tracks.len()
            invariant
                i <= self.tracks@.len(),
                self.tracks == old(self).tracks,
                self.tags == old(self).tags,
                self.selected_tags == old(self).selected_tags,
                self.filter == old(self).filter,
                self.visible_tracks@ == tracks_passing(
                    self.tracks@.take(i as int),
                    texts(self.selected_tags@),
                    self.filter,
                ),
            decreases self.tracks@.len() - i,
        {
            let track_tags = tag_list(self.tracks[i].tags.as_str());
            proof {
                assert(self.tracks@.take(i + 1).drop_last() =~= self.tracks@.take(i as int));
            }
            if tags_match(&track_tags, &self.selected_tags, self.filter) {
                let t = self.tracks[i].clone();
                self.visible_tracks.push(t);
            }
            i = i + 1;
        }
        proof {
            assert(self.tracks@.take(self.tracks@.len() as int) =~= self.tracks@);
        }
    }

    /// Replaces the selected tags and recomputes the tracks shown.
    pub fn update_selected_tags(&mut self, gui_tags: Vec<String>)
        ensures
            final(self).selected_tags@ == gui_tags@,
            final(self).visible_tracks@ == visible(
                old(self).tracks@,
                texts(gui_tags@),
                old(self).filter,
            ),
            final(self).tracks == old(self).tracks,
            final(self).tags == old(self).tags,
            final(self).filter == old(self).filter,
    {
        self.selected_tags = gui_tags;
        self.update_visible_tracks();
    }

    /// Replaces the filter and recomputes the tracks shown.
    pub fn update_filter(&mut self, new_filter: Filter)
        ensures
            final(self).filter == new_filter,
            final(self).visible_tracks@ == visible(
                old(self).tracks@,
                texts(old(self).selected_tags@),
                new_filter,
            ),
            final(self).tracks == old(self).tracks,
            final(self).tags == old(self).tags,
            final(self).selected_tags == old(self).selected_tags,
    {
        self.filter = new_filter;
        self.update_visible_tracks();
    }
}

} // verus!
