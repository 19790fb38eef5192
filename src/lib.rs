//! A multi-deck playback engine for a music library, together with the
//! library-side logic around it: track records, tag filtering and playlists.
//!
//! The engine ([`deck`], [`player`], [`audio`]) is a set of decks. Each deck
//! is a sequential state machine that owns a circular queue of track paths, a
//! cursor and a loop flag; every command returns the [`deck::SinkAction`] that
//! the host must carry out on the deck's audio sink. Opening and decoding
//! files, the sinks themselves and the poller's clock belong to the host,
//! which reports back what it observed: whether a sink ran dry, and whether a
//! load succeeded. A host that shares a deck between threads holds it under
//! one lock per deck; decks share nothing with each other.
//!
//! Around it: [`track`] and [`tracks`] hold the track records, [`stage`] and
//! [`tracks::filter`] select tracks by tag or comment, [`playlist`] and
//! [`state`] hold what the user assembled and selected, and [`text`] the text
//! handling they share.

pub mod text;
pub mod track;
pub mod stage;
pub mod tracks;
pub mod playlist;
pub mod state;
pub mod deck;
pub mod audio;
pub mod player;
