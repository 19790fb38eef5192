//! Selecting tracks by the comments of their tags, and listing those comments.
use vstd::prelude::*;
use itertools::Itertools;
use crate::text::{contains_text, dedup, lemma_dedup, sorted_texts, texts};
use super::models::Track;

verus! {

/// How the filter words combine.
#[derive(Clone, Copy, Debug, PartialEq, Eq, Structural)]
pub enum FilterMode {
    /// A track must carry every filter word.
    And,
    /// A track must carry at least one filter word.
    Or,
    /// A track passes when it passes either of the above.
    Both,
}

/// The filter words as texts.
pub open spec fn words(filters: Seq<&str>) -> Seq<Seq<char>> {
    filters.map_values(|f: &str| f@)
}

pub open spec fn carries_all(comments: Seq<Seq<char>>, filters: Seq<Seq<char>>) -> bool {
    forall|i: int| 0 <= i < filters.len() ==> comments.contains(#[trigger] filters[i])
}

pub open spec fn carries_any(comments: Seq<Seq<char>>, filters: Seq<Seq<char>>) -> bool {
    exists|i: int| 0 <= i < filters.len() && comments.contains(#[trigger] filters[i])
}

/// Whether a track with `comments` passes the filter.
pub open spec fn comments_pass(
    comments: Seq<Seq<char>>,
    filters: Seq<Seq<char>>,
    mode: FilterMode,
) -> bool {
    match mode {
        FilterMode::And => carries_all(comments, filters),
        FilterMode::Or => carries_any(comments, filters),
        FilterMode::Both => carries_all(comments, filters) || carries_any(comments, filters),
    }
}

/// The tracks that pass the filter, in order.
pub open spec fn passing(tracks: Seq<Track>, filters: Seq<Seq<char>>, mode: FilterMode) -> Seq<
    Track,
>
    decreases tracks.len(),
{
    if tracks.len() == 0 {
        tracks
    } else {
        let prev = passing(tracks.drop_last(), filters, mode);
        if comments_pass(texts(tracks.last().comments_vec@), filters, mode) {
            prev.push(tracks.last())
        } else {
            prev
        }
    }
}

/// Every comment of every track, in order, repetitions included.
pub open spec fn all_comments(tracks: Seq<Track>) -> Seq<Seq<char>>
    decreases tracks.len(),
{
    if tracks.len() == 0 {
        Seq::empty()
    } else {
        all_comments(tracks.drop_last()) + texts(tracks.last().comments_vec@)
    }
}

/// Relies on itertools' `Itertools::unique`: it yields each distinct string
/// once, where it first occurs, keeping the order of the input.
#[verifier::external_body]
fn unique_strings(v: Vec<String>) -> (r: Vec<String>)
    ensures
        texts(r@) == dedup(texts(v@)),
{
    v.into_iter().unique().collect()
}

/// Relies on `slice::sort`: it permutes the strings into ascending order.
/// Strings compare lexicographically by their bytes, which orders characters
/// by code point.
#[verifier::external_body]
fn sort_strings(v: &mut Vec<String>)
    ensures
        texts(final(v)@).to_multiset() == texts(old(v)@).to_multiset(),
        sorted_texts(texts(final(v)@)),
{
    v.sort();
}

/// Whether a track carrying `comments` passes the filter.
pub fn comments_match(comments: &Vec<String>, filters: &[&str], mode: FilterMode) -> (r: bool)
    ensures
        r == comments_pass(texts(comments@), words(filters@), mode),
{
    let mut all = true;
    let mut any = false;
    let mut i: usize = 0;
    while i < filters.len()
        invariant
            i <= filters@.len(),
            all == carries_all(texts(comments@), words(filters@).take(i as int)),
            any == carries_any(texts(comments@), words(filters@).take(i as int)),
        decreases filters@.len() - i,
    {
        let word = filters[i].to_owned();
        let found = contains_text(comments, &word);
        proof {
            let w = words(filters@);
            let c = texts(comments@);
            assert(w.take(i + 1) =~= w.take(i as int).push(word@));
            if !found {
                assert(!c.contains(w.take(i + 1)[i as int]));
            } else {
                assert(c.contains(w.take(i + 1)[i as int]));
            }
            if all && found {
                assert forall|k: int| 0 <= k < i + 1 implies c.contains(
                    #[trigger] w.take(i + 1)[k],
                ) by {
                    if k < i {
                        assert(w.take(i + 1)[k] == w.take(i as int)[k]);
                    }
                }
            }
            if !all {
                let k = choose|k: int|
                    0 <= k < i && !c.contains(#[trigger] w.take(i as int)[k]);
                assert(w.take(i + 1)[k] == w.take(i as int)[k]);
            }
            if any {
                let k = choose|k: int| 0 <= k < i && c.contains(#[trigger] w.take(i as int)[k]);
                assert(w.take(i + 1)[k] == w.take(i as int)[k]);
            }
            if !any && !found {
                assert forall|k: int| 0 <= k < i + 1 implies !c.contains(
                    #[trigger] w.take(i + 1)[k],
                ) by {
                    if k < i {
                        assert(w.take(i + 1)[k] == w.take(i as int)[k]);
                    }
                }
            }
        }
        all = all && found;
        any = any || found;
        i = i + 1;
    }
    proof {
        assert(words(filters@).take(filters@.len() as int) =~= words(filters@));
    }
    match mode {
        FilterMode::And => all,
        FilterMode::Or => any,
        FilterMode::Both => all || any,
    }
}

/// The tracks that pass the filter, in their order.
pub fn filter_tracks_by_comments(tracks: Vec<Track>, filters: &[&str], mode: FilterMode) -> (r: Vec<
    Track,
>)
    ensures
        r@ == passing(tracks@, words(filters@), mode),
{
    let n: usize = tracks.len();
    let mut rest = tracks;
    let mut kept: Vec<Track> = Vec::new();
    let mut i: usize = 0;
    proof {
        assert(tracks@.take(0) =~= Seq::<Track>::empty());
        assert(rest@ =~= tracks@.skip(0));
    }
    while rest.len() > 0
        invariant
            i <= n,
            n == tracks@.len(),
            rest@ == tracks@.skip(i as int),
            rest@.len() + i == n,
            kept@ == passing(tracks@.take(i as int), words(filters@), mode),
        decreases rest@.len(),
    {
        let t = rest.remove(0);
        proof {
            assert(t == tracks@[i as int]);
            assert(tracks@.take(i + 1).drop_last() =~= tracks@.take(i as int));
            assert(rest@ =~= tracks@.skip(i + 1));
        }
        if comments_match(&t.comments_vec, filters, mode) {
            kept.push(t);
        }
        i = i + 1;
    }
    proof {
        assert(tracks@.take(i as int) =~= tracks@);
    }
    kept
}

/// Every comment found on the tracks, once each, in ascending order.
pub fn get_all_comments_unique(tracks: Vec<Track>) -> (r: Vec<String>)
    ensures
        sorted_texts(texts(r@)),
        texts(r@).no_duplicates(),
        forall|x: Seq<char>| texts(r@).contains(x) <==> all_comments(tracks@).contains(x),
{
    let n: usize = tracks.len();
    let mut rest = tracks;
    let mut all: Vec<String> = Vec::new();
    let mut i: usize = 0;
    proof {
        assert(rest@ =~= tracks@.skip(0));
        assert(texts(all@) =~= all_comments(tracks@.take(0)));
    }
    while rest.len() > 0
        invariant
            i <= n,
            n == tracks@.len(),
            rest@ == tracks@.skip(i as int),
            rest@.len() + i == n,
            texts(all@) == all_comments(tracks@.take(i as int)),
        decreases rest@.len(),
    {
        let mut t = rest.remove(0);
        let ghost before = all@;
        let ghost added = t.comments_vec@;
        proof {
            assert(t == tracks@[i as int]);
            assert(tracks@.take(i + 1).drop_last() =~= tracks@.take(i as int));
            assert(rest@ =~= tracks@.skip(i + 1));
        }
        all.append(&mut t.comments_vec);
        proof {
            assert(texts(all@) =~= texts(before) + texts(added));
        }
        i = i + 1;
    }
    proof {
        assert(tracks@.take(i as int) =~= tracks@);
    }
    let ghost everything = texts(all@);
    let mut comments = unique_strings(all);
    let ghost unique = texts(comments@);
    sort_strings(&mut comments);
    proof {
        lemma_dedup(everything);
        broadcast use vstd::seq_lib::group_to_multiset_ensures;
        unique.lemma_multiset_has_no_duplicates();
        texts(comments@).lemma_multiset_has_no_duplicates_conv();
        assert forall|x: Seq<char>| texts(comments@).contains(x) <==> everything.contains(x) by {
            assert(texts(comments@).contains(x) <==> texts(comments@).to_multiset().count(x) > 0);
            assert(unique.contains(x) <==> unique.to_multiset().count(x) > 0);
        }
    }
    comments
}

} // verus!
