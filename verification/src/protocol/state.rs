//! The states that a connection can be in.

use vstd::prelude::*;

verus! {

/// State is the desired state that the connection should be in after the initial handshake.
#[derive(Clone, Copy, Debug)]
pub enum State {
    /// The status state that is used to query server information without connecting.
    Status,
}

impl State {
    /// The number that stands for the state on the wire.
    pub open spec fn number(self) -> usize {
        match self {
            State::Status => 1,
        }
    }
}

impl From<State> for usize {
    fn from(state: State) -> Self {
        match state {
            State::Status => 1,
        }
    }
}

impl vstd::std_specs::convert::FromSpecImpl<State> for usize {
    open spec fn obeys_from_spec() -> bool {
        true
    }

    open spec fn from_spec(state: State) -> usize {
        state.number()
    }
}

} // verus!
