//! The schema's numeric bounds, one constant per annotation.
//!
//! Public so that code projecting source fields into this model enforces the
//! schema's number rather than a copy of it.

use vstd::prelude::*;

verus! {

pub const ACQUISITIONSTATUS_ENDPOINT_ID_MAX_LEN: u32 = 256u32;

pub const ACQUISITIONSTATUS_PROVIDER_MAX_LEN: u32 = 128u32;

pub const ACQUISITIONSTATUS_REQUEST_CLASS_MAX_LEN: u32 = 128u32;

pub const ACQUISITIONSTATUS_DETAIL_MAX_LEN: u32 = 4096u32;

pub const ORIGIN_PROVIDER_MAX_LEN: u32 = 128u32;

pub const ORIGIN_REQUEST_CLASS_MAX_LEN: u32 = 128u32;

pub const RESOURCERELATION_KIND_MAX_LEN: u32 = 128u32;

pub const SIGNALKEY_FACET_MAX_LEN: u32 = 256u32;

pub const SUBJECT_KIND_MAX_LEN: u32 = 128u32;

pub const SUBJECT_SCOPE_MAX_ITEMS: u32 = 16u32;

pub const SUBJECT_SCOPE_MAX_LEN: u32 = 256u32;

pub const SUBJECT_ID_MAX_LEN: u32 = 512u32;

pub const UNRESOLVEDREFERENCE_LOCATION_MAX_LEN: u32 = 2048u32;

pub const UNRESOLVEDREFERENCE_PROPERTY_MAX_LEN: u32 = 256u32;

pub const VALUE_MAX_DEPTH: u32 = 16u32;

pub const VALUE_STRING_VALUE_MAX_LEN: u32 = 65536u32;

pub const VALUE_BYTES_VALUE_MAX_LEN: u32 = 65536u32;

pub const VALUE_LIST_VALUES_MAX_ITEMS: u32 = 1024u32;

pub const VALUE_MAP_ENTRY_KEY_MAX_LEN: u32 = 256u32;

pub const VALUE_MAP_ENTRIES_MAX_ITEMS: u32 = 1024u32;

pub const ENDPOINTCONTEXT_ENDPOINT_ID_MAX_LEN: u32 = 256u32;

pub const INVENTORY_ITEMS_MAX_ITEMS: u32 = 65536u32;

pub const INVENTORYITEM_SOURCE_KEY_MAX_LEN: u32 = 2048u32;

pub const LOGRECORD_MESSAGE_MAX_LEN: u32 = 65536u32;

pub const LOGRECORD_ENTRY_ID_MAX_LEN: u32 = 256u32;

pub const LOGS_RECORDS_MAX_ITEMS: u32 = 65536u32;

pub const OBSERVEDRESOURCE_SOURCE_KEY_MAX_LEN: u32 = 2048u32;

pub const OBSERVEDRESOURCE_SOURCE_SCHEMA_MAX_LEN: u32 = 256u32;

pub const OBSERVEDRESOURCE_ENTITY_TAG_MAX_LEN: u32 = 256u32;

pub const OBSERVEDRESOURCE_UNRESOLVED_MAX_ITEMS: u32 = 1024u32;

pub const READINGS_DESCRIPTORS_MAX_ITEMS: u32 = 65536u32;

pub const READINGS_SAMPLES_MAX_ITEMS: u32 = 65536u32;

pub const RESOURCEGRAPH_RESOURCES_MAX_ITEMS: u32 = 100000u32;

pub const RESOURCEGRAPH_RELATIONS_MAX_ITEMS: u32 = 500000u32;

pub const SIGNALDESCRIPTOR_KIND_MAX_LEN: u32 = 128u32;

pub const SIGNALDESCRIPTOR_UNIT_MAX_LEN: u32 = 64u32;

pub const STATEOBSERVATION_NAME_MAX_LEN: u32 = 256u32;

pub const STATES_OBSERVATIONS_MAX_ITEMS: u32 = 65536u32;

} // verus!
