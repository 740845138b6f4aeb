//! A discrete-event simulation engine.
//!
//! A [`Scenario`] pairs an initial state with a timeline of events. A [`Simulation`] replays
//! that timeline one event at a time against a working copy of the state, and lets its owner
//! move backwards and forwards through the history by re-deriving it. Events may stage further
//! events through the [`Queue`] they are handed. Scenarios can be flattened into a
//! persistence-friendly form and rebuilt through a name-keyed [`Decoder`].

pub mod event;
pub mod persistence;
pub mod prompt;
pub mod sim;

pub use event::{
    process_insertions, Decoder, Event, InvalidEventParserSpec, Named, NamedEventParser,
    ParseEventError, Queue, Scenario, StaticNamed, TransitionError,
};
pub use sim::{Simulation, SimulationError, SimulationView};
