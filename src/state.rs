use vstd::prelude::*;

use crate::effect::BallData;
use crate::error::Error;

verus! {

/// The phases of a turn.
#[derive(Clone, Copy, Debug, PartialEq, Eq, Structural)]
pub enum State {
    Aiming,
    Falling,
    InInventory,
    Counting { bucketed: Option<BallData> },
}

/// The current phase, and the one before the last change.
pub struct StateManager {
    current: State,
    previous: Option<State>,
}

impl StateManager {
    pub closed spec fn current_spec(&self) -> State {
        self.current
    }

    pub closed spec fn previous_spec(&self) -> Option<State> {
        self.previous
    }

    pub fn new() -> (r: StateManager)
        ensures
            r.current_spec() == State::Aiming,
            r.previous_spec() is None,
    {
        StateManager { current: State::Aiming, previous: None }
    }

    pub fn current(&self) -> (r: State)
        ensures
            r == self.current_spec(),
    {
        self.current
    }

    pub fn previous(&self) -> (r: Option<State>)
        ensures
            r == self.previous_spec(),
    {
        self.previous
    }

    /// Moves to `new_state`; the state left is remembered when it differs.
    pub fn transition_to(&mut self, new_state: State)
        ensures
            final(self).current_spec() == new_state,
            new_state != old(self).current_spec() ==> final(self).previous_spec() == Some(
                old(self).current_spec(),
            ),
            new_state == old(self).current_spec() ==> final(self).previous_spec() == old(
                self,
            ).previous_spec(),
    {
        if new_state != self.current {
            self.previous = Some(self.current);
        }
        self.current = new_state;
    }

    /// The remembered state, or an error when there is none.
    pub fn return_to_previous(&self) -> (r: Result<State, Error>)
        ensures
            self.previous_spec() matches Some(s) ==> r == Ok::<State, Error>(s),
            self.previous_spec() is None ==> r == Err::<State, Error>(Error::NoLastState),
    {
        match self.previous {
            Some(s) => Ok(s),
            None => Err(Error::NoLastState),
        }
    }
}

} // verus!
