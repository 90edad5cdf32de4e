//! Invocation configuration.
//!
//! All required configuration is collected into one structure, validated
//! once at the invocation boundary, and passed down by reference; no other
//! component reads process-wide state.  A missing value is a fatal
//! configuration error naming the absent field, and no partial work is
//! performed.

use vstd::prelude::*;

use crate::errors::{ConfigField, HarvestError};

verus! {

/// Validated configuration of one harvester invocation.
pub struct Config {
    /// Identifier of the harvest state table.
    pub state_table: Vec<u8>,
    /// Identifier of the packaging endpoint harvests are cut from.
    pub endpoint_id: Vec<u8>,
    /// Destination storage location for harvested clips.
    pub destination_bucket: Vec<u8>,
    /// Execution role passed along with each harvest job.
    pub harvest_role: Vec<u8>,
    /// Selector naming the harvest decision processor.
    pub event_type: Vec<u8>,
    /// Key of the per-invocation state row.
    pub event_key: Vec<u8>,
}

/// Validated configuration of one transcode invocation.
pub struct ConvertConfig {
    /// Execution role passed along with each transcode job.
    pub convert_role: Vec<u8>,
    /// Destination storage location for transcoded clips.
    pub destination_bucket: Vec<u8>,
}

/// The first harvester configuration field, in declaration order, that is
/// absent from the supplied values.
pub open spec fn first_missing_field(
    state_table: Option<Vec<u8>>,
    endpoint_id: Option<Vec<u8>>,
    destination_bucket: Option<Vec<u8>>,
    harvest_role: Option<Vec<u8>>,
    event_type: Option<Vec<u8>>,
    event_key: Option<Vec<u8>>,
) -> Option<ConfigField> {
    if state_table is None {
        Some(ConfigField::StateTable)
    } else if endpoint_id is None {
        Some(ConfigField::EndpointId)
    } else if destination_bucket is None {
        Some(ConfigField::DestinationBucket)
    } else if harvest_role is None {
        Some(ConfigField::HarvestRole)
    } else if event_type is None {
        Some(ConfigField::EventType)
    } else if event_key is None {
        Some(ConfigField::EventKey)
    } else {
        None
    }
}

/// Validates the harvester configuration: succeeds exactly when every
/// value is present, and otherwise reports the first missing field.
pub fn build_config(
    state_table: Option<Vec<u8>>,
    endpoint_id: Option<Vec<u8>>,
    destination_bucket: Option<Vec<u8>>,
    harvest_role: Option<Vec<u8>>,
    event_type: Option<Vec<u8>>,
    event_key: Option<Vec<u8>>,
) -> (r: Result<Config, HarvestError>)
    ensures
        r is Ok <==> (state_table is Some && endpoint_id is Some && destination_bucket is Some
            && harvest_role is Some && event_type is Some && event_key is Some),
        r matches Ok(c) ==> {
            &&& c.state_table@ == state_table->Some_0@
            &&& c.endpoint_id@ == endpoint_id->Some_0@
            &&& c.destination_bucket@ == destination_bucket->Some_0@
            &&& c.harvest_role@ == harvest_role->Some_0@
            &&& c.event_type@ == event_type->Some_0@
            &&& c.event_key@ == event_key->Some_0@
        },
        r matches Err(e) ==> e == HarvestError::MissingConfig(
            first_missing_field(
                state_table,
                endpoint_id,
                destination_bucket,
                harvest_role,
                event_type,
                event_key,
            )->Some_0,
        ),
{
    let st = match state_table {
        Some(v) => v,
        None => {
            return Err(HarvestError::MissingConfig(ConfigField::StateTable));
        },
    };
    let ep = match endpoint_id {
        Some(v) => v,
        None => {
            return Err(HarvestError::MissingConfig(ConfigField::EndpointId));
        },
    };
    let db = match destination_bucket {
        Some(v) => v,
        None => {
            return Err(HarvestError::MissingConfig(ConfigField::DestinationBucket));
        },
    };
    let hr = match harvest_role {
        Some(v) => v,
        None => {
            return Err(HarvestError::MissingConfig(ConfigField::HarvestRole));
        },
    };
    let et = match event_type {
        Some(v) => v,
        None => {
            return Err(HarvestError::MissingConfig(ConfigField::EventType));
        },
    };
    let ek = match event_key {
        Some(v) => v,
        None => {
            return Err(HarvestError::MissingConfig(ConfigField::EventKey));
        },
    };
    Ok(
        Config {
            state_table: st,
            endpoint_id: ep,
            destination_bucket: db,
            harvest_role: hr,
            event_type: et,
            event_key: ek,
        },
    )
}

/// Validates the transcode configuration: succeeds exactly when both
/// values are present, and otherwise reports the first missing field.
pub fn build_convert_config(convert_role: Option<Vec<u8>>, destination_bucket: Option<Vec<u8>>) -> (r:
    Result<ConvertConfig, HarvestError>)
    ensures
        r is Ok <==> (convert_role is Some && destination_bucket is Some),
        r matches Ok(c) ==> {
            &&& c.convert_role@ == convert_role->Some_0@
            &&& c.destination_bucket@ == destination_bucket->Some_0@
        },
        r matches Err(e) ==> e == HarvestError::MissingConfig(
            if convert_role is None {
                ConfigField::HarvestRole
            } else {
                ConfigField::DestinationBucket
            },
        ),
{
    let cr = match convert_role {
        Some(v) => v,
        None => {
            return Err(HarvestError::MissingConfig(ConfigField::HarvestRole));
        },
    };
    let db = match destination_bucket {
        Some(v) => v,
        None => {
            return Err(HarvestError::MissingConfig(ConfigField::DestinationBucket));
        },
    };
    Ok(ConvertConfig { convert_role: cr, destination_bucket: db })
}

} // verus!
