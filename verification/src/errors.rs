//! Error taxonomy of the pipeline.
//!
//! Configuration, data-format and state-store failures are fatal for an
//! invocation and abort it with no partial work; an individual submission
//! failure is recovered at the unit level and never surfaces here.  An
//! incomplete segment set is a normal deferred outcome, not an error.

use vstd::prelude::*;

verus! {

/// The required configuration values, named so a missing one can be
/// reported precisely.
#[derive(Clone, Copy, Debug, PartialEq, Eq, Structural)]
pub enum ConfigField {
    /// Identifier of the harvest state table.
    StateTable,
    /// Identifier of the packaging endpoint harvests are cut from.
    EndpointId,
    /// Destination storage location for harvested clips.
    DestinationBucket,
    /// Execution role passed along with each harvest job.
    HarvestRole,
    /// Selector naming the harvest decision processor.
    EventType,
    /// Field naming the per-key state row to use.
    EventKey,
}

/// The fields a state record must carry.
#[derive(Clone, Copy, Debug, PartialEq, Eq, Structural)]
pub enum StateField {
    /// The last harvested sequence number, stored as decimal digits.
    Sequence,
    /// The last harvested kind tag.
    Kind,
}

/// A fatal failure of one invocation.
#[derive(Clone, Copy, Debug, PartialEq, Eq, Structural)]
pub enum HarvestError {
    /// A required configuration value was absent: nothing was done.
    MissingConfig(ConfigField),
    /// A state record lacked a required field.
    MissingStateField(StateField),
    /// A stored sequence counter was not a decimal number in range.
    MalformedSequence,
    /// An expected segment count in a manifest key was out of range.
    MalformedCount,
    /// The inbound event matched no known payload shape.
    UnknownPayload,
    /// The state store could not be read or written.
    StateStoreFailure,
    /// The configured event type names no known processor.
    UnsupportedEventType,
    /// A conditional state update kept losing against concurrent writers.
    Contention,
}

} // verus!
