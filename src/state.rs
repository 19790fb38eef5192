//! What the user selected in a playlist panel.
use vstd::prelude::*;

verus! {

pub struct State {
    pub selected_track: Option<usize>,
}

impl State {
    pub fn new() -> (s: State)
        ensures
            s.selected_track is None,
    {
        State { selected_track: None }
    }
}

/// One state for each of the two playlist panels, nothing selected.
pub fn initialize_state() -> (r: (State, State))
    ensures
        r.0.selected_track is None,
        r.1.selected_track is None,
{
    let state_1 = State::new();
    let state_2 = State::new();
    (state_1, state_2)
}

} // verus!
