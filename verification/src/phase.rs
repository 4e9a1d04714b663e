//! The steps from a constraint text to the transform, and what each outcome
//! of the parser and of the witness builder leads to.

use vstd::prelude::*;
use crate::constraint::Constraint;
use crate::error::TransformError;

verus! {

/// Where the preparation of a constraint text stands, and so what is to be
/// done next.
pub enum Phase {
    /// The text is to be parsed.
    Parse,
    /// The text was parsed; a witness is to be built for it.
    Witness(Vec<Constraint>),
    /// Constraints and witness are at hand and are to be transformed.
    Transform(Vec<Constraint>, Vec<Vec<u8>>),
    /// The preparation has failed; nothing is to be done.
    Failed(TransformError),
}

/// What the parser or the witness builder came back with; `None` where it
/// failed.
pub enum Event {
    Parsed(Option<Vec<Constraint>>),
    Built(Option<Vec<Vec<u8>>>),
}

/// The phase that follows on an event. A text that does not parse is a
/// parse error, and no witness is asked for; a witness that cannot be
/// built, or has no slot for the constant, is a witness-build error. An
/// event that the phase does not wait for changes nothing.
pub open spec fn next_phase(phase: Phase, event: Event) -> Phase {
    match phase {
        Phase::Parse => match event {
            Event::Parsed(Some(constraints)) => Phase::Witness(constraints),
            Event::Parsed(None) => Phase::Failed(TransformError::Parse),
            Event::Built(_) => phase,
        },
        Phase::Witness(constraints) => match event {
            Event::Built(Some(witness)) => if witness@.len() >= 1 {
                Phase::Transform(constraints, witness)
            } else {
                Phase::Failed(TransformError::WitnessBuild)
            },
            Event::Built(None) => Phase::Failed(TransformError::WitnessBuild),
            Event::Parsed(_) => phase,
        },
        Phase::Transform(_, _) => phase,
        Phase::Failed(_) => phase,
    }
}

/// Takes the preparation one step further on what the parser or the witness
/// builder came back with.
pub fn advance(phase: Phase, event: Event) -> (r: Phase)
    ensures
        r == next_phase(phase, event),
{
    match phase {
        Phase::Parse => match event {
            Event::Parsed(Some(constraints)) => Phase::Witness(constraints),
            Event::Parsed(None) => Phase::Failed(TransformError::Parse),
            Event::Built(_) => Phase::Parse,
        },
        Phase::Witness(constraints) => match event {
            Event::Built(Some(witness)) => {
                if witness.len() >= 1 {
                    Phase::Transform(constraints, witness)
                } else {
                    Phase::Failed(TransformError::WitnessBuild)
                }
            },
            Event::Built(None) => Phase::Failed(TransformError::WitnessBuild),
            Event::Parsed(_) => Phase::Witness(constraints),
        },
        Phase::Transform(constraints, witness) => Phase::Transform(constraints, witness),
        Phase::Failed(e) => Phase::Failed(e),
    }
}

/// Parsing comes first. A witness is asked for only after a text has
/// parsed; a text that does not parse ends in a parse error whatever comes
/// after; and the transform is reached only with a witness of at least one
/// slot, built after the parse.
pub proof fn parse_comes_first(phase: Phase, event: Event, later: Event)
    ensures
        next_phase(phase, event) is Witness ==> phase is Witness || (phase is Parse
            && event is Parsed),
        next_phase(phase, event) is Transform ==> phase is Transform || (phase is Witness
            && event is Built),
        next_phase(phase, event) matches Phase::Transform(_, witness) ==> phase is Transform
            || witness@.len() >= 1,
        next_phase(Phase::Parse, Event::Parsed(None)) == Phase::Failed(TransformError::Parse),
        next_phase(next_phase(Phase::Parse, Event::Parsed(None)), later) == Phase::Failed(
            TransformError::Parse,
        ),
        !(next_phase(Phase::Parse, event) is Transform),
{
}

} // verus!
