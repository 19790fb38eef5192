//! A fixed set of decks, addressed by the identifiers 1, 2, ...
use vstd::prelude::*;
use crate::audio::AudioCommand;
use crate::deck::{Deck, DeckModel, Effect, PlayState, PlaybackError, SinkAction};

verus! {

/// The number of decks that [`AudioPlayer::new`] creates.
pub const DECK_COUNT: usize = 2;

/// The decks of the engine, addressed by the identifiers `1..=n`; the set is
/// fixed once built. Every command goes to one deck and leaves the others as
/// they were. The identifier parameters keep the name `playlist`, since each
/// deck plays one playlist.
pub struct AudioPlayer {
    decks: Vec<Deck>,
}

impl View for AudioPlayer {
    type V = Seq<DeckModel>;

    closed spec fn view(&self) -> Seq<DeckModel> {
        self.decks@.map_values(|d: Deck| d@)
    }
}

/// The decks after one round of the poller; `drained[i]` tells whether the
/// sink of the deck at `i` had run dry.
pub open spec fn polled(decks: Seq<DeckModel>, drained: Seq<bool>) -> Seq<DeckModel> {
    Seq::new(decks.len(), |i: int| decks[i].ticked(drained[i]))
}

/// The decks after one round of the poller for each entry of `rounds`, in
/// order.
pub open spec fn polled_rounds(decks: Seq<DeckModel>, rounds: Seq<Seq<bool>>) -> Seq<DeckModel>
    decreases rounds.len(),
{
    if rounds.len() == 0 {
        decks
    } else {
        polled(polled_rounds(decks, rounds.drop_last()), rounds.last())
    }
}

/// Every round reports on all `n` decks, and in every round the sink of the
/// deck at `i` had run dry.
pub open spec fn drains_deck(rounds: Seq<Seq<bool>>, n: nat, i: int) -> bool {
    forall|r: int| 0 <= r < rounds.len() ==> (#[trigger] rounds[r]).len() == n && rounds[r][i]
}

/// Over rounds in which its sink always ran dry, a deck goes through its own
/// rounds of the poller, whatever happens to the other decks.
pub proof fn lemma_rounds_reach_each_deck(decks: Seq<DeckModel>, rounds: Seq<Seq<bool>>, i: int)
    requires
        0 <= i < decks.len(),
        drains_deck(rounds, decks.len(), i),
    ensures
        polled_rounds(decks, rounds).len() == decks.len(),
        polled_rounds(decks, rounds)[i] == decks[i].ticked_dry(rounds.len()),
    decreases rounds.len(),
{
    if rounds.len() > 0 {
        let prev = rounds.drop_last();
        assert(drains_deck(prev, decks.len(), i)) by {
            assert forall|r: int| 0 <= r < prev.len() implies (#[trigger] prev[r]).len()
                == decks.len() && prev[r][i] by {
                assert(prev[r] == rounds[r]);
            }
        }
        lemma_rounds_reach_each_deck(decks, prev, i);
        assert(rounds[rounds.len() - 1][i]);
    }
}

/// Tracks enqueued one by one on a fresh deck play in the order they were
/// enqueued. The enqueues hand the sink the first track; after `k` rounds of
/// the poller in which the deck's sink ran dry, the cursor stands at `k`
/// modulo the number of tracks, and the next such round hands the sink the
/// track after it. So the first `n - 1` rounds hand over the remaining tracks
/// in order, each once; the queue being circular, the first track follows
/// the last.
pub proof fn lemma_player_plays_in_enqueue_order(
    decks: Seq<DeckModel>,
    rounds: Seq<Seq<bool>>,
    i: int,
    paths: Seq<Seq<char>>,
)
    requires
        0 <= i < decks.len(),
        decks[i] == DeckModel::fresh().enqueued_all(paths),
        paths.len() > 0,
        drains_deck(rounds, decks.len(), i),
    ensures
        ({
            let d = polled_rounds(decks, rounds)[i];
            let k = rounds.len();
            &&& d.queue == paths
            &&& d.state == PlayState::Playing
            &&& d.current == Some(k % paths.len())
            &&& d.tick_effect(true) == Effect::Load(paths[((k + 1) % paths.len()) as int])
        }),
        forall|j: int|
            0 <= j < paths.len() ==> #[trigger] DeckModel::fresh().enqueued_all(
                paths.take(j),
            ).enqueue_effect(paths[j]) == if j == 0 {
                Effect::Load(paths[0])
            } else {
                Effect::Nothing
            },
{
    lemma_rounds_reach_each_deck(decks, rounds, i);
    crate::deck::lemma_tracks_play_in_enqueue_order(paths, rounds.len());
    assert forall|j: int| 0 <= j < paths.len() implies #[trigger] DeckModel::fresh().enqueued_all(
        paths.take(j),
    ).enqueue_effect(paths[j]) == if j == 0 {
        Effect::Load(paths[0])
    } else {
        Effect::Nothing
    } by {
        crate::deck::lemma_enqueue_loads_first_only(paths, j);
    }
}

/// A deck that loops over a current track and plays stays exactly as it is
/// over any number of rounds in which its sink ran dry: its cursor never
/// advances, it keeps playing and looping, and each round hands the sink the
/// same track.
pub proof fn lemma_player_loop_replays(decks: Seq<DeckModel>, rounds: Seq<Seq<bool>>, i: int)
    requires
        0 <= i < decks.len(),
        decks[i].wf(),
        decks[i].looping,
        decks[i].current is Some,
        decks[i].state == PlayState::Playing,
        drains_deck(rounds, decks.len(), i),
    ensures
        polled_rounds(decks, rounds)[i] == decks[i],
        polled_rounds(decks, rounds)[i].tick_effect(true) == Effect::Load(
            decks[i].queue[decks[i].current->0 as int],
        ),
{
    lemma_rounds_reach_each_deck(decks, rounds, i);
    crate::deck::lemma_looping_deck_is_fixed(decks[i], rounds.len());
}

/// An idle deck, such as one whose load failed, stays idle over any number of
/// rounds of the poller, whatever its sink reports: no load is retried until
/// a command arrives.
pub proof fn lemma_player_idle_deck_not_retried(
    decks: Seq<DeckModel>,
    rounds: Seq<Seq<bool>>,
    i: int,
)
    requires
        0 <= i < decks.len(),
        decks[i].state == PlayState::Idle,
        forall|r: int| 0 <= r < rounds.len() ==> (#[trigger] rounds[r]).len() == decks.len(),
    ensures
        polled_rounds(decks, rounds).len() == decks.len(),
        polled_rounds(decks, rounds)[i] == decks[i],
        forall|b: bool| #[trigger] polled_rounds(decks, rounds)[i].tick_effect(b) == Effect::Nothing,
    decreases rounds.len(),
{
    if rounds.len() > 0 {
        let prev = rounds.drop_last();
        assert forall|r: int| 0 <= r < prev.len() implies (#[trigger] prev[r]).len()
            == decks.len() by {
            assert(prev[r] == rounds[r]);
        }
        lemma_player_idle_deck_not_retried(decks, prev, i);
        assert(rounds[rounds.len() - 1].len() == decks.len());
    }
}

impl AudioPlayer {
    /// Every deck is well formed.
    pub open spec fn wf(&self) -> bool {
        forall|i: int| 0 <= i < self@.len() ==> (#[trigger] self@[i]).wf()
    }

    /// Whether a deck has the identifier `playlist`.
    pub open spec fn valid_id(&self, playlist: usize) -> bool {
        1 <= playlist <= self@.len()
    }

    /// Every deck but the one at `i` is as it was in `old`.
    pub open spec fn others_unchanged(&self, old: Seq<DeckModel>, i: int) -> bool {
        &&& self@.len() == old.len()
        &&& forall|j: int| 0 <= j < old.len() && j != i ==> self@[j] == old[j]
    }

    proof fn lemma_wf(&self, i: int)
        requires
            self.wf(),
            0 <= i < self.decks.len(),
        ensures
            self.decks@[i].wf(),
    {
        assert(self@[i] == self.decks@[i]@);
    }

    /// A player with two fresh decks.
    pub fn new() -> (p: AudioPlayer)
        ensures
            p.wf(),
            p@.len() == DECK_COUNT,
            forall|i: int| 0 <= i < DECK_COUNT ==> p@[i] == DeckModel::fresh(),
    {
        Self::with_decks(DECK_COUNT)
    }

    /// A player with `count` fresh decks.
    pub fn with_decks(count: usize) -> (p: AudioPlayer)
        ensures
            p.wf(),
            p@.len() == count,
            forall|i: int| 0 <= i < count ==> p@[i] == DeckModel::fresh(),
    {
        let mut decks: Vec<Deck> = Vec::new();
        let mut n: usize = 0;
        while n < count
            invariant
                n <= count,
                decks@.len() == n,
                forall|i: int| 0 <= i < n ==> (#[trigger] decks@[i])@ == DeckModel::fresh(),
            decreases count - n,
        {
            decks.push(Deck::new());
            n = n + 1;
        }
        AudioPlayer { decks }
    }

    pub fn deck_count(&self) -> (r: usize)
        ensures
            r == self@.len(),
    {
        self.decks.len()
    }

    pub fn is_valid_id(&self, playlist: usize) -> (r: bool)
        ensures
            r == self.valid_id(playlist),
    {
        1 <= playlist && playlist <= self.decks.len()
    }

    /// The deck with the identifier `playlist`.
    pub fn get_backend(&self, playlist: usize) -> (d: &Deck)
        requires
            self.valid_id(playlist),
        ensures
            d@ == self@[playlist - 1],
    {
        &self.decks[playlist - 1]
    }

    /// After the deck at `i` changed in place, the view changes at `i` alone.
    proof fn lemma_views_after_update(&self, old: &AudioPlayer, i: int)
        requires
            0 <= i < old.decks.len(),
            self.decks@ == old.decks@.update(i, self.decks@[i]),
            old.wf(),
            self.decks@[i].wf(),
        ensures
            self@ == old@.update(i, self.decks@[i]@),
            self.wf(),
    {
        assert(self@ =~= old@.update(i, self.decks@[i]@));
    }

    /// Appends a track to the queue of the deck `playlist`; see [`Deck::add_to_playlist`].
    pub fn add_to_playlist(&mut self, playlist: usize, path: String) -> (r: SinkAction)
        requires
            old(self).wf(),
            old(self).valid_id(playlist),
        ensures
            final(self).wf(),
            final(self)@[playlist - 1] == old(self)@[playlist - 1].enqueued(path@),
            final(self).others_unchanged(old(self)@, playlist - 1),
            r@ == old(self)@[playlist - 1].enqueue_effect(path@),
    {
        let i = playlist - 1;
        proof {
            self.lemma_wf(i as int);
        }
        let r = self.decks[i].add_to_playlist(path);
        proof {
            self.lemma_views_after_update(old(self), i as int);
        }
        r
    }

    /// See [`Deck::play_or_resume`].
    pub fn play_or_resume(&mut self, playlist: usize) -> (r: SinkAction)
        requires
            old(self).wf(),
            old(self).valid_id(playlist),
        ensures
            final(self).wf(),
            final(self)@[playlist - 1] == old(self)@[playlist - 1].resumed(),
            final(self).others_unchanged(old(self)@, playlist - 1),
            r@ == old(self)@[playlist - 1].resume_effect(),
    {
        let i = playlist - 1;
        proof {
            self.lemma_wf(i as int);
        }
        let r = self.decks[i].play_or_resume();
        proof {
            self.lemma_views_after_update(old(self), i as int);
        }
        r
    }

    /// See [`Deck::stop`].
    pub fn stop(&mut self, playlist: usize) -> (r: SinkAction)
        requires
            old(self).wf(),
            old(self).valid_id(playlist),
        ensures
            final(self).wf(),
            final(self)@[playlist - 1] == old(self)@[playlist - 1].stopped(),
            final(self).others_unchanged(old(self)@, playlist - 1),
            r@ == old(self)@[playlist - 1].stop_effect(),
    {
        let i = playlist - 1;
        proof {
            self.lemma_wf(i as int);
        }
        let r = self.decks[i].stop();
        proof {
            self.lemma_views_after_update(old(self), i as int);
        }
        r
    }

    /// See [`Deck::skip`].
    pub fn skip(&mut self, playlist: usize) -> (r: SinkAction)
        requires
            old(self).wf(),
            old(self).valid_id(playlist),
        ensures
            final(self).wf(),
            final(self)@[playlist - 1] == old(self)@[playlist - 1].skipped(),
            final(self).others_unchanged(old(self)@, playlist - 1),
            r@ == old(self)@[playlist - 1].skip_effect(),
    {
        let i = playlist - 1;
        proof {
            self.lemma_wf(i as int);
        }
        let r = self.decks[i].skip();
        proof {
            self.lemma_views_after_update(old(self), i as int);
        }
        r
    }

    /// See [`Deck::set_volume`].
    pub fn set_volume(&mut self, playlist: usize, level: u32) -> (r: SinkAction)
        requires
            old(self).wf(),
            old(self).valid_id(playlist),
        ensures
            final(self).wf(),
            final(self)@[playlist - 1] == old(self)@[playlist - 1].volume_set(level as nat),
            final(self).others_unchanged(old(self)@, playlist - 1),
            r@ == Effect::SetVolume(DeckModel::clamped(level as nat)),
    {
        let i = playlist - 1;
        proof {
            self.lemma_wf(i as int);
        }
        let r = self.decks[i].set_volume(level);
        proof {
            self.lemma_views_after_update(old(self), i as int);
        }
        r
    }

    /// See [`Deck::toggle_loop`].
    pub fn toggle_loop(&mut self, playlist: usize)
        requires
            old(self).wf(),
            old(self).valid_id(playlist),
        ensures
            final(self).wf(),
            final(self)@[playlist - 1] == old(self)@[playlist - 1].loop_toggled(),
            final(self).others_unchanged(old(self)@, playlist - 1),
    {
        let i = playlist - 1;
        proof {
            self.lemma_wf(i as int);
        }
        self.decks[i].toggle_loop();
        proof {
            self.lemma_views_after_update(old(self), i as int);
        }
    }

    /// One round of the poller over every deck. `sink_empty[i]` tells whether
    /// the sink of the deck with identifier `i + 1` has run dry; the result
    /// holds what each sink must do, in the same order.
    pub fn update(&mut self, sink_empty: &Vec<bool>) -> (r: Vec<SinkAction>)
        requires
            old(self).wf(),
            sink_empty@.len() == old(self)@.len(),
        ensures
            final(self).wf(),
            final(self)@ == polled(old(self)@, sink_empty@),
            final(self)@.len() == old(self)@.len(),
            r@.len() == old(self)@.len(),
            forall|i: int|
                0 <= i < old(self)@.len() ==> #[trigger] final(self)@[i] == old(self)@[i].ticked(
                    sink_empty@[i],
                ),
            forall|i: int|
                0 <= i < old(self)@.len() ==> #[trigger] r@[i]@ == old(self)@[i].tick_effect(
                    sink_empty@[i],
                ),
    {
        let mut actions: Vec<SinkAction> = Vec::new();
        let n = self.decks.len();
        let mut i: usize = 0;
        while i < n
            invariant
                n == old(self)@.len(),
                self@.len() == n,
                sink_empty@.len() == n,
                i <= n,
                self.wf(),
                actions@.len() == i,
                forall|j: int|
                    0 <= j < i ==> #[trigger] self@[j] == old(self)@[j].ticked(sink_empty@[j]),
                forall|j: int| i <= j < n ==> #[trigger] self@[j] == old(self)@[j],
                forall|j: int|
                    0 <= j < i ==> #[trigger] actions@[j]@ == old(self)@[j].tick_effect(
                        sink_empty@[j],
                    ),
            decreases n - i,
        {
            proof {
                self.lemma_wf(i as int);
            }
            let ghost before = *self;
            let a = self.decks[i].tick(sink_empty[i]);
            proof {
                self.lemma_views_after_update(&before, i as int);
                assert(before@[i as int] == old(self)@[i as int]);
                assert(self@[i as int] == old(self)@[i as int].ticked(sink_empty@[i as int]));
            }
            actions.push(a);
            proof {
                assert(actions@[i as int] == a);
            }
            i = i + 1;
        }
        proof {
            assert(self@ =~= polled(old(self)@, sink_empty@));
        }
        actions
    }

    /// Takes the host's report on the last load of the deck `playlist`; see
    /// [`Deck::finish_load`].
    pub fn finish_load(&mut self, playlist: usize, outcome: Result<(), PlaybackError>) -> (r:
        Result<(), PlaybackError>)
        requires
            old(self).wf(),
            old(self).valid_id(playlist),
        ensures
            final(self).wf(),
            r == outcome,
            outcome is Ok ==> final(self)@ == old(self)@,
            outcome is Err ==> final(self)@[playlist - 1] == old(self)@[playlist
                - 1].load_failed(),
            final(self).others_unchanged(old(self)@, playlist - 1),
    {
        let i = playlist - 1;
        proof {
            self.lemma_wf(i as int);
        }
        let r = self.decks[i].finish_load(outcome);
        proof {
            self.lemma_views_after_update(old(self), i as int);
            if outcome is Ok {
                assert(self@ =~= old(self)@);
            }
        }
        r
    }

    /// Sends a command to the deck `playlist`; see [`Deck::apply`].
    pub fn dispatch(&mut self, playlist: usize, command: AudioCommand) -> (r: SinkAction)
        requires
            old(self).wf(),
            old(self).valid_id(playlist),
        ensures
            final(self).wf(),
            final(self)@[playlist - 1] == command.applied_to(old(self)@[playlist - 1]),
            final(self).others_unchanged(old(self)@, playlist - 1),
            r@ == command.effect_on(old(self)@[playlist - 1]),
    {
        let i = playlist - 1;
        proof {
            self.lemma_wf(i as int);
        }
        let r = self.decks[i].apply(command);
        proof {
            self.lemma_views_after_update(old(self), i as int);
        }
        r
    }

    pub fn get_volume(&self, playlist: usize) -> (r: u32)
        requires
            self.valid_id(playlist),
        ensures
            r as nat == self@[playlist - 1].volume,
    {
        self.decks[playlist - 1].volume()
    }

    pub fn is_playing(&self, playlist: usize) -> (r: bool)
        requires
            self.valid_id(playlist),
        ensures
            r == (self@[playlist - 1].state == PlayState::Playing),
    {
        self.decks[playlist - 1].is_playing()
    }

    pub fn is_looping(&self, playlist: usize) -> (r: bool)
        requires
            self.valid_id(playlist),
        ensures
            r == self@[playlist - 1].looping,
    {
        self.decks[playlist - 1].is_looping()
    }

    /// The path of the current track of the deck `playlist`.
    pub fn current_track(&self, playlist: usize) -> (r: Option<String>)
        requires
            self.wf(),
            self.valid_id(playlist),
        ensures
            r matches Some(p) ==> self@[playlist - 1].current matches Some(c) && p@ == self@[playlist
                - 1].queue[c as int],
            r is None ==> self@[playlist - 1].current is None,
    {
        proof {
            self.lemma_wf(playlist - 1);
        }
        self.decks[playlist - 1].current_track()
    }
}

} // verus!
