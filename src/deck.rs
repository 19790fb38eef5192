//! One playback channel: a circular queue of tracks, a cursor, a loop flag
//! and the state of its sink, as a sequential state machine.
use vstd::prelude::*;
use crate::text::texts;

verus! {

/// The largest volume level, in thousandths of full scale.
pub const MAX_VOLUME: u32 = 1000;

/// What a deck believes its sink is doing.
#[derive(Clone, Copy, Debug, PartialEq, Eq, Structural)]
pub enum PlayState {
    /// Nothing is current: the queue is empty, playback never started, or the
    /// last load failed.
    Idle,
    /// A track is current and its sink plays.
    Playing,
    /// The sink is paused; a deck stopped before anything played is paused
    /// with no current track.
    Paused,
}

/// What the host must do to a deck's sink after a command.
#[derive(Debug, PartialEq, Eq)]
pub enum SinkAction {
    /// Leave the sink as it is.
    Nothing,
    /// Pause the sink, keeping its position.
    Pause,
    /// Resume a paused sink.
    Resume,
    /// Discard whatever the sink holds.
    Stop,
    /// Discard whatever the sink holds, then open and decode the file at this
    /// path, hand it to the sink and play it. The host reports the outcome
    /// back to the deck.
    Load(String),
    /// Set the sink's volume, in thousandths of full scale.
    SetVolume(u32),
}

/// A [`SinkAction`] as a mathematical value.
pub enum Effect {
    Nothing,
    Pause,
    Resume,
    Stop,
    Load(Seq<char>),
    SetVolume(nat),
}

impl View for SinkAction {
    type V = Effect;

    open spec fn view(&self) -> Effect {
        match self {
            SinkAction::Nothing => Effect::Nothing,
            SinkAction::Pause => Effect::Pause,
            SinkAction::Resume => Effect::Resume,
            SinkAction::Stop => Effect::Stop,
            SinkAction::Load(p) => Effect::Load(p@),
            SinkAction::SetVolume(v) => Effect::SetVolume(*v as nat),
        }
    }
}

/// Why a track could not be played, or a command could not be routed.
#[derive(Clone, Copy, Debug, PartialEq, Eq, Structural)]
pub enum PlaybackError {
    FileNotFound,
    UndecodableStream,
    InvalidDeckId,
}

/// The deck's state as mathematical values.
pub struct DeckModel {
    /// The paths of the queued tracks, in the order they were enqueued.
    pub queue: Seq<Seq<char>>,
    /// The cursor: the position of the current track in the queue.
    pub current: Option<nat>,
    /// Whether the end of a track replays it instead of advancing.
    pub looping: bool,
    pub state: PlayState,
    /// In thousandths of full scale.
    pub volume: nat,
}

/// One playback channel, driven as a sequential state machine.
///
/// The queue is circular: tracks stay in it once played, and advancing past
/// the last track comes back to the first. Stopping pauses the sink, so the
/// position in the current track is kept. Each command returns the
/// [`SinkAction`] that the host performs on the deck's sink; after a
/// [`SinkAction::Load`] the host reports the outcome through
/// [`Deck::finish_load`].
pub struct Deck {
    queue: Vec<String>,
    current: Option<usize>,
    looping: bool,
    state: PlayState,
    volume: u32,
}

impl View for Deck {
    type V = DeckModel;

    closed spec fn view(&self) -> DeckModel {
        DeckModel {
            queue: texts(self.queue@),
            current: match self.current {
                Some(c) => Some(c as nat),
                None => None,
            },
            looping: self.looping,
            state: self.state,
            volume: self.volume as nat,
        }
    }
}

impl DeckModel {
    pub open spec fn fresh() -> DeckModel {
        DeckModel {
            queue: Seq::empty(),
            current: None,
            looping: false,
            state: PlayState::Idle,
            volume: MAX_VOLUME as nat,
        }
    }

    /// The cursor points into the queue; an idle deck has no current track
    /// and a playing deck has one.
    pub open spec fn wf(self) -> bool {
        &&& self.volume <= MAX_VOLUME
        &&& (self.current matches Some(c) ==> c < self.queue.len())
        &&& (self.state == PlayState::Idle ==> self.current is None)
        &&& (self.state == PlayState::Playing ==> self.current is Some)
    }

    /// The deck with the track at `i` current and playing.
    pub open spec fn started(self, i: nat) -> DeckModel {
        DeckModel { current: Some(i), state: PlayState::Playing, ..self }
    }

    /// The deck with nothing current.
    pub open spec fn cleared(self) -> DeckModel {
        DeckModel { current: None, state: PlayState::Idle, ..self }
    }

    /// The position that follows the cursor in the circular queue; the first
    /// position when nothing is current.
    pub open spec fn next_index(self) -> nat {
        match self.current {
            Some(c) => (c + 1) % self.queue.len(),
            None => 0,
        }
    }

    /// The deck starts on a new track only when it was idle with an empty queue.
    pub open spec fn starts_on_enqueue(self) -> bool {
        self.state == PlayState::Idle && self.queue.len() == 0
    }

    pub open spec fn enqueued(self, path: Seq<char>) -> DeckModel {
        let d = DeckModel { queue: self.queue.push(path), ..self };
        if self.starts_on_enqueue() {
            d.started(0)
        } else {
            d
        }
    }

    pub open spec fn enqueue_effect(self, path: Seq<char>) -> Effect {
        if self.starts_on_enqueue() {
            Effect::Load(path)
        } else {
            Effect::Nothing
        }
    }

    /// A paused deck with a current track resumes it. A deck with nothing
    /// current starts on the first track of its queue; with an empty queue it
    /// ends idle. A deck that plays is left as it is.
    pub open spec fn resumed(self) -> DeckModel {
        if self.state == PlayState::Playing {
            self
        } else if self.state == PlayState::Paused && self.current is Some {
            DeckModel { state: PlayState::Playing, ..self }
        } else if self.queue.len() > 0 {
            self.started(0)
        } else {
            self.cleared()
        }
    }

    pub open spec fn resume_effect(self) -> Effect {
        if self.state == PlayState::Playing {
            Effect::Nothing
        } else if self.state == PlayState::Paused && self.current is Some {
            Effect::Resume
        } else if self.queue.len() > 0 {
            Effect::Load(self.queue[0])
        } else if self.state == PlayState::Paused {
            Effect::Resume
        } else {
            Effect::Nothing
        }
    }

    /// Stopping pauses the sink, whatever the deck was doing: the position in
    /// the current track is kept.
    pub open spec fn stopped(self) -> DeckModel {
        DeckModel { state: PlayState::Paused, ..self }
    }

    pub open spec fn stop_effect(self) -> Effect {
        Effect::Pause
    }

    /// Moves to the next position of the circular queue and plays it; with
    /// an empty queue, nothing is current.
    pub open spec fn advanced(self) -> DeckModel {
        if self.queue.len() == 0 {
            self.cleared()
        } else {
            self.started(self.next_index())
        }
    }

    pub open spec fn advance_effect(self) -> Effect {
        if self.queue.len() == 0 {
            Effect::Nothing
        } else {
            Effect::Load(self.queue[self.next_index() as int])
        }
    }

    pub open spec fn skipped(self) -> DeckModel {
        self.advanced()
    }

    /// Skipping always discards what the sink holds.
    pub open spec fn skip_effect(self) -> Effect {
        if self.queue.len() == 0 {
            Effect::Stop
        } else {
            self.advance_effect()
        }
    }

    pub open spec fn loop_toggled(self) -> DeckModel {
        DeckModel { looping: !self.looping, ..self }
    }

    pub open spec fn clamped(level: nat) -> nat {
        if level <= MAX_VOLUME {
            level
        } else {
            MAX_VOLUME as nat
        }
    }

    pub open spec fn volume_set(self, level: nat) -> DeckModel {
        DeckModel { volume: Self::clamped(level), ..self }
    }

    /// Whether the poller finds the track over: the deck plays and its sink
    /// has run dry.
    pub open spec fn track_over(self, sink_empty: bool) -> bool {
        self.state == PlayState::Playing && sink_empty
    }

    /// The end of the current track: replay it when looping, else advance.
    /// Either way the deck plays afterwards, unless its queue is empty.
    pub open spec fn track_ended(self) -> DeckModel {
        if self.looping && self.current is Some {
            self.started(self.current->0)
        } else {
            self.advanced()
        }
    }

    pub open spec fn track_end_effect(self) -> Effect {
        if self.looping && self.current is Some {
            Effect::Load(self.queue[self.current->0 as int])
        } else {
            self.advance_effect()
        }
    }

    pub open spec fn ticked(self, sink_empty: bool) -> DeckModel {
        if self.track_over(sink_empty) {
            self.track_ended()
        } else {
            self
        }
    }

    pub open spec fn tick_effect(self, sink_empty: bool) -> Effect {
        if self.track_over(sink_empty) {
            self.track_end_effect()
        } else {
            Effect::Nothing
        }
    }

    /// The deck after the host reported that a load failed.
    pub open spec fn load_failed(self) -> DeckModel {
        self.cleared()
    }
}

impl Deck {
    pub open spec fn wf(&self) -> bool {
        self@.wf()
    }

    pub fn new() -> (d: Deck)
        ensures
            d@ == DeckModel::fresh(),
            d.wf(),
    {
        let d = Deck {
            queue: Vec::new(),
            current: None,
            looping: false,
            state: PlayState::Idle,
            volume: MAX_VOLUME,
        };
        assert(d@.queue =~= Seq::empty());
        d
    }

    /// The path of the track at `i`, as an action that plays it.
    fn load_action(&self, i: usize) -> (r: SinkAction)
        requires
            i < self.queue.len(),
        ensures
            r@ == Effect::Load(self@.queue[i as int]),
    {
        SinkAction::Load(self.queue[i].clone())
    }

    /// Makes the track at `i` current and playing.
    fn play_track(&mut self, i: usize) -> (r: SinkAction)
        requires
            old(self).wf(),
            i < old(self).queue.len(),
        ensures
            final(self)@ == old(self)@.started(i as nat),
            final(self).wf(),
            r@ == Effect::Load(old(self)@.queue[i as int]),
    {
        self.current = Some(i);
        self.state = PlayState::Playing;
        self.load_action(i)
    }

    fn next_index(&self) -> (r: usize)
        requires
            self.wf(),
            self.queue.len() > 0,
        ensures
            r as nat == self@.next_index(),
            r < self.queue.len(),
    {
        match self.current {
            Some(c) => (c + 1) % self.queue.len(),
            None => 0,
        }
    }

    /// Moves to the next position of the circular queue and plays it; with an
    /// empty queue, nothing is current afterwards.
    pub fn play_next(&mut self) -> (r: SinkAction)
        requires
            old(self).wf(),
        ensures
            final(self)@ == old(self)@.advanced(),
            final(self).wf(),
            r@ == old(self)@.advance_effect(),
    {
        if self.queue.len() == 0 {
            self.current = None;
            self.state = PlayState::Idle;
            SinkAction::Nothing
        } else {
            let i = self.next_index();
            self.play_track(i)
        }
    }

    /// Appends a track to the queue. A deck that was idle with an empty queue
    /// starts playing it at once.
    pub fn add_to_playlist(&mut self, path: String) -> (r: SinkAction)
        requires
            old(self).wf(),
        ensures
            final(self)@ == old(self)@.enqueued(path@),
            final(self).wf(),
            r@ == old(self)@.enqueue_effect(path@),
    {
        let starts = self.state == PlayState::Idle && self.queue.len() == 0;
        self.queue.push(path);
        proof {
            assert(self@.queue =~= old(self)@.queue.push(path@));
        }
        if starts {
            self.play_track(0)
        } else {
            SinkAction::Nothing
        }
    }

    /// Resumes a paused deck, or starts an idle one on the first track of its
    /// queue. A deck that is playing is left as it is.
    pub fn play_or_resume(&mut self) -> (r: SinkAction)
        requires
            old(self).wf(),
        ensures
            final(self)@ == old(self)@.resumed(),
            final(self).wf(),
            r@ == old(self)@.resume_effect(),
            old(self)@.state == PlayState::Playing ==> final(self)@ == old(self)@ && r
                == SinkAction::Nothing,
            old(self)@.queue.len() == 0 ==> final(self)@.state == PlayState::Idle,
    {
        if self.state == PlayState::Playing {
            SinkAction::Nothing
        } else if self.state == PlayState::Paused && self.current.is_some() {
            self.state = PlayState::Playing;
            SinkAction::Resume
        } else if self.queue.len() > 0 {
            self.play_track(0)
        } else {
            let was_paused = self.state == PlayState::Paused;
            self.current = None;
            self.state = PlayState::Idle;
            if was_paused {
                SinkAction::Resume
            } else {
                SinkAction::Nothing
            }
        }
    }

    /// Pauses the sink, whatever the deck was doing; the position in the
    /// current track is kept.
    pub fn stop(&mut self) -> (r: SinkAction)
        requires
            old(self).wf(),
        ensures
            final(self)@ == old(self)@.stopped(),
            final(self).wf(),
            r@ == old(self)@.stop_effect(),
    {
        self.state = PlayState::Paused;
        SinkAction::Pause
    }

    /// Discards what the sink holds and plays the next track of the circular
    /// queue; with an empty queue the deck becomes idle.
    pub fn skip(&mut self) -> (r: SinkAction)
        requires
            old(self).wf(),
        ensures
            final(self)@ == old(self)@.skipped(),
            final(self).wf(),
            r@ == old(self)@.skip_effect(),
            old(self)@.queue.len() == 0 ==> final(self)@.state == PlayState::Idle,
            old(self)@.queue.len() > 0 ==> final(self)@.state == PlayState::Playing,
            old(self)@.current matches Some(c) ==> final(self)@.current == Some(
                ((c + 1) % old(self)@.queue.len()) as nat,
            ),
    {
        if self.queue.len() == 0 {
            self.current = None;
            self.state = PlayState::Idle;
            SinkAction::Stop
        } else {
            self.play_next()
        }
    }

    pub fn toggle_loop(&mut self)
        requires
            old(self).wf(),
        ensures
            final(self)@ == old(self)@.loop_toggled(),
            final(self).wf(),
    {
        self.looping = !self.looping;
    }

    /// Sets the volume, in thousandths of full scale; a level above
    /// [`MAX_VOLUME`] is clamped to it.
    pub fn set_volume(&mut self, level: u32) -> (r: SinkAction)
        requires
            old(self).wf(),
        ensures
            final(self)@ == old(self)@.volume_set(level as nat),
            final(self).wf(),
            r@ == Effect::SetVolume(DeckModel::clamped(level as nat)),
    {
        let v = if level <= MAX_VOLUME {
            level
        } else {
            MAX_VOLUME
        };
        self.volume = v;
        SinkAction::SetVolume(v)
    }

    /// The end of the current track: replays it when looping, else plays the
    /// next track of the circular queue. The deck plays afterwards, unless
    /// its queue is empty.
    pub fn handle_track_end(&mut self) -> (r: SinkAction)
        requires
            old(self).wf(),
        ensures
            final(self)@ == old(self)@.track_ended(),
            final(self).wf(),
            r@ == old(self)@.track_end_effect(),
    {
        match self.current {
            Some(c) if self.looping => self.play_track(c),
            _ => self.play_next(),
        }
    }

    /// One round of the poller: when the deck plays and its sink has run dry,
    /// the track is over and the deck moves on.
    pub fn tick(&mut self, sink_empty: bool) -> (r: SinkAction)
        requires
            old(self).wf(),
        ensures
            final(self)@ == old(self)@.ticked(sink_empty),
            final(self).wf(),
            r@ == old(self)@.tick_effect(sink_empty),
    {
        if self.state == PlayState::Playing && sink_empty {
            self.handle_track_end()
        } else {
            SinkAction::Nothing
        }
    }

    /// Takes the host's report on the last [`SinkAction::Load`]. After a
    /// failure nothing is current and the deck is idle, so that a broken file
    /// is not retried; the error is handed back.
    pub fn finish_load(&mut self, outcome: Result<(), PlaybackError>) -> (r: Result<
        (),
        PlaybackError,
    >)
        requires
            old(self).wf(),
        ensures
            r == outcome,
            outcome is Ok ==> final(self)@ == old(self)@,
            outcome is Err ==> final(self)@ == old(self)@.load_failed(),
            final(self).wf(),
    {
        if outcome.is_err() {
            self.current = None;
            self.state = PlayState::Idle;
        }
        outcome
    }

    pub fn is_playing(&self) -> (r: bool)
        ensures
            r == (self@.state == PlayState::Playing),
    {
        self.state == PlayState::Playing
    }

    pub fn is_looping(&self) -> (r: bool)
        ensures
            r == self@.looping,
    {
        self.looping
    }

    pub fn state(&self) -> (r: PlayState)
        ensures
            r == self@.state,
    {
        self.state
    }

    pub fn volume(&self) -> (r: u32)
        ensures
            r as nat == self@.volume,
    {
        self.volume
    }

    pub fn current_index(&self) -> (r: Option<usize>)
        ensures
            r matches Some(c) ==> self@.current == Some(c as nat),
            r is None ==> self@.current is None,
    {
        self.current
    }

    /// The path of the current track.
    pub fn current_track(&self) -> (r: Option<String>)
        requires
            self.wf(),
        ensures
            r matches Some(p) ==> self@.current matches Some(c) && p@ == self@.queue[c as int],
            r is None ==> self@.current is None,
    {
        match self.current {
            Some(c) => Some(self.queue[c].clone()),
            None => None,
        }
    }

    pub fn queue_len(&self) -> (r: usize)
        ensures
            r == self@.queue.len(),
    {
        self.queue.len()
    }
}

impl DeckModel {
    /// The deck after each of `paths` was enqueued, in order.
    pub open spec fn enqueued_all(self, paths: Seq<Seq<char>>) -> DeckModel
        decreases paths.len(),
    {
        if paths.len() == 0 {
            self
        } else {
            self.enqueued_all(paths.drop_last()).enqueued(paths.last())
        }
    }

    /// The deck after `k` rounds of the poller that each found its sink dry.
    pub open spec fn ticked_dry(self, k: nat) -> DeckModel
        decreases k,
    {
        if k == 0 {
            self
        } else {
            self.ticked_dry((k - 1) as nat).ticked(true)
        }
    }
}

proof fn lemma_enqueued_all_fresh(paths: Seq<Seq<char>>)
    ensures
        ({
            let d = DeckModel::fresh().enqueued_all(paths);
            &&& d.queue == paths
            &&& !d.looping
            &&& d.wf()
            &&& paths.len() == 0 ==> d == DeckModel::fresh()
            &&& paths.len() > 0 ==> d.state == PlayState::Playing && d.current == Some(0nat)
        }),
    decreases paths.len(),
{
    if paths.len() > 0 {
        lemma_enqueued_all_fresh(paths.drop_last());
        assert(paths.drop_last().push(paths.last()) =~= paths);
    } else {
        assert(DeckModel::fresh().queue =~= paths);
    }
}

/// Enqueueing tracks on a fresh deck and letting each run out plays them one
/// after the other in the order they were enqueued: after `k` tracks ran out,
/// the cursor stands at `k` modulo the number of tracks, and the sink is told
/// to load the next one. The queue being circular, the first track follows
/// the last. With nothing enqueued the deck stays fresh and idle.
pub proof fn lemma_tracks_play_in_enqueue_order(paths: Seq<Seq<char>>, k: nat)
    ensures
        ({
            let d = DeckModel::fresh().enqueued_all(paths).ticked_dry(k);
            &&& paths.len() == 0 ==> d == DeckModel::fresh()
            &&& paths.len() > 0 ==> {
                &&& d.queue == paths
                &&& d.state == PlayState::Playing
                &&& d.current == Some(k % paths.len())
                &&& d.tick_effect(true) == Effect::Load(paths[((k + 1) % paths.len()) as int])
            }
        }),
    decreases k,
{
    lemma_enqueued_all_fresh(paths);
    let n = paths.len();
    if k > 0 {
        lemma_tracks_play_in_enqueue_order(paths, (k - 1) as nat);
    }
    if n > 0 {
        let d = DeckModel::fresh().enqueued_all(paths).ticked_dry(k);
        assert(!d.looping && d.wf()) by {
            lemma_ticked_dry_keeps(DeckModel::fresh().enqueued_all(paths), k);
        }
        vstd::arithmetic::div_mod::lemma_add_mod_noop_right(1, k as int, n as int);
        if k > 0 {
            vstd::arithmetic::div_mod::lemma_add_mod_noop_right(1, (k - 1) as int, n as int);
        }
    }
}

/// Rounds of the poller keep the queue, the loop flag and the invariant.
proof fn lemma_ticked_dry_keeps(d: DeckModel, k: nat)
    requires
        d.wf(),
    ensures
        d.ticked_dry(k).wf(),
        d.ticked_dry(k).queue == d.queue,
        d.ticked_dry(k).looping == d.looping,
    decreases k,
{
    if k > 0 {
        lemma_ticked_dry_keeps(d, (k - 1) as nat);
    }
}

/// Asking a deck to play twice in a row does no more than asking once; a deck
/// that already plays is left exactly as it was, and its sink is left alone.
pub proof fn lemma_play_or_resume_idempotent(d: DeckModel)
    requires
        d.wf(),
    ensures
        d.resumed().resumed() == d.resumed(),
        d.resumed().resume_effect() == Effect::Nothing,
        d.state == PlayState::Playing ==> d.resumed() == d,
{
}

/// A looping deck with a current track is a fixed point of the poller: every
/// round leaves it exactly as it is and, while it plays, has the sink replay
/// the current track.
pub proof fn lemma_looping_deck_is_fixed(d: DeckModel, k: nat)
    requires
        d.wf(),
        d.looping,
        d.current is Some,
    ensures
        d.ticked_dry(k) == d,
        d.state == PlayState::Playing ==> d.ticked_dry(k).tick_effect(true) == Effect::Load(
            d.queue[d.current->0 as int],
        ),
    decreases k,
{
    if k > 0 {
        lemma_looping_deck_is_fixed(d, (k - 1) as nat);
    }
}

/// Once looping is switched on while a track is current, every round of the
/// poller that finds the sink dry replays that same track: the deck, its
/// cursor included, never changes.
pub proof fn lemma_loop_replays_current(d: DeckModel, k: nat)
    requires
        d.wf(),
        d.current is Some,
        !d.looping,
    ensures
        ({
            let e = d.loop_toggled();
            &&& e.looping
            &&& e.ticked_dry(k) == e
            &&& e.ticked_dry(k).current == d.current
            &&& e.state == PlayState::Playing ==> e.ticked_dry(k).tick_effect(true) == Effect::Load(
                d.queue[d.current->0 as int],
            )
        }),
{
    lemma_looping_deck_is_fixed(d.loop_toggled(), k);
}

/// Enqueueing tracks one by one on a fresh deck hands the sink the first
/// track only: every later enqueue leaves the sink alone.
pub proof fn lemma_enqueue_loads_first_only(paths: Seq<Seq<char>>, j: int)
    requires
        0 <= j < paths.len(),
    ensures
        DeckModel::fresh().enqueued_all(paths.take(j + 1)) == DeckModel::fresh().enqueued_all(
            paths.take(j),
        ).enqueued(paths[j]),
        DeckModel::fresh().enqueued_all(paths.take(j)).enqueue_effect(paths[j]) == if j == 0 {
            Effect::Load(paths[0])
        } else {
            Effect::Nothing
        },
{
    assert(paths.take(j + 1).drop_last() =~= paths.take(j));
    lemma_enqueued_all_fresh(paths.take(j));
}

/// After a failed load the deck is idle and the poller leaves it alone: no
/// number of rounds issues another load until a command arrives.
pub proof fn lemma_failed_load_not_retried(d: DeckModel, k: nat)
    ensures
        d.load_failed().state == PlayState::Idle,
        d.load_failed().ticked_dry(k) == d.load_failed(),
        d.load_failed().ticked_dry(k).tick_effect(true) == Effect::Nothing,
    decreases k,
{
    if k > 0 {
        lemma_failed_load_not_retried(d, (k - 1) as nat);
    }
}

} // verus!
