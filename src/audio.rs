//! Commands for a deck, as sent by a front end to the thread that owns it.
use vstd::prelude::*;
use crate::deck::{Deck, DeckModel, Effect, SinkAction};

verus! {

pub enum AudioCommand {
    /// Add a track to the deck's queue.
    Play(String),
    /// Stop playback; stopping pauses, as [`Deck::stop`] does.
    Stop,
    Pause,
    Resume,
}

impl AudioCommand {
    /// The deck after this command.
    pub open spec fn applied_to(&self, d: DeckModel) -> DeckModel {
        match self {
            AudioCommand::Play(p) => d.enqueued(p@),
            AudioCommand::Stop | AudioCommand::Pause => d.stopped(),
            AudioCommand::Resume => d.resumed(),
        }
    }

    /// What the sink must do after this command.
    pub open spec fn effect_on(&self, d: DeckModel) -> Effect {
        match self {
            AudioCommand::Play(p) => d.enqueue_effect(p@),
            AudioCommand::Stop | AudioCommand::Pause => d.stop_effect(),
            AudioCommand::Resume => d.resume_effect(),
        }
    }
}

impl Deck {
    pub fn apply(&mut self, command: AudioCommand) -> (r: SinkAction)
        requires
            old(self).wf(),
        ensures
            final(self)@ == command.applied_to(old(self)@),
            final(self).wf(),
            r@ == command.effect_on(old(self)@),
    {
        match command {
            AudioCommand::Play(path) => self.add_to_playlist(path),
            AudioCommand::Stop | AudioCommand::Pause => self.stop(),
            AudioCommand::Resume => self.play_or_resume(),
        }
    }
}

} // verus!
