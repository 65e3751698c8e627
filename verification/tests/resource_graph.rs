//! Resource graphs: properties, canonical order, limits, lookup, traversal
//! and scope.

use std::collections::hash_map::DefaultHasher;
use std::hash::Hash;
use std::hash::Hasher;
use std::sync::Arc;

use nv_telemetry::telemetry::attributes::{Attribute, Attributes};
use nv_telemetry::telemetry::batch::{BatchError, ObservationBatch, Payload};
use nv_telemetry::telemetry::context::{Completeness, Coverage, EndpointContext, ObservationScope, Origin, Subject};
use nv_telemetry::telemetry::property::{
    Property, PropertyArray, PropertyArrayError, PropertyMap, PropertyMapError, PropertyValue, ResourceReference, MAX_DEPTH,
};
use nv_telemetry::telemetry::resource::{
    GraphLimits, ObservedResource, Reachability, ResourceCompleteness, ResourceGraph, ResourceGraphError, ResourceRelation,
    DEFAULT_MAX_RELATIONS, DEFAULT_MAX_RESOURCES,
};
use nv_telemetry::telemetry::time::{DurationValue, ObservationWindow, Timestamp};
use nv_telemetry::telemetry::vocabulary::SourceKey;

/// The Unix second the fixtures are taken to have been observed at.
const OBSERVED_AT: i64 = 1_721_000_000;

fn timestamp(seconds: i64) -> Timestamp {
    Timestamp::new(seconds, 0).expect("valid timestamp")
}

fn endpoint() -> Arc<EndpointContext> {
    Arc::new(EndpointContext::new(
        "bmc-00:11:22:33:44:55".into(),
        Attributes::new(vec![
            Attribute::new("device_class".into(), "compute_node".into()),
            Attribute::new("rack".into(), "rack-1".into()),
        ])
        .expect("unique attributes"),
    ))
}

fn hash_of<T: Hash>(value: &T) -> u64 {
    let mut hasher = DefaultHasher::new();
    value.hash(&mut hasher);
    hasher.finish()
}

fn subject(kind: &str, id: &str) -> Subject {
    Subject::new(kind.into(), id.into())
}

fn source_key(value: &str) -> SourceKey {
    value.into()
}

fn relation(source: Subject, kind: &str, target: Subject) -> ResourceRelation {
    ResourceRelation::new(source, kind.into(), target)
}

fn host_subject() -> Subject {
    subject("computer_system", "host-1")
}

fn dpu_subject() -> Subject {
    subject("dpu", "dpu-0")
}

fn properties(values: Vec<Property>) -> PropertyMap {
    PropertyMap::new(values).expect("unique property names")
}

fn host_resource() -> ObservedResource {
    let firmware = properties(vec![
        Property::new("bios".into(), "2.4.1".into()),
        Property::new("bmc".into(), "1.8.0".into()),
    ]);
    let network = properties(vec![
        Property::new(
            "addresses".into(),
            PropertyValue::array(vec![PropertyValue::from("192.0.2.10"), PropertyValue::from("2001:db8::10")])
                .expect("shallow property array"),
        ),
        Property::new("connected".into(), true.into()),
    ]);
    ObservedResource::complete(
        host_subject(),
        source_key("/redfish/v1/Systems/host-1"),
        properties(vec![
            Property::new("bios_settings_hash".into(), "sha256:abc".into()),
            Property::new("firmware".into(), firmware.into()),
            Property::new("network".into(), network.into()),
            Property::new("power_state".into(), "on".into()),
            Property::new("nullable_oem_value".into(), PropertyValue::Null),
            Property::new("uptime".into(), DurationValue::new(86_400, 250_000_000).expect("valid duration").into()),
        ]),
    )
    .with_schema("#ComputerSystem.v1_20_0.ComputerSystem".into())
    .with_version("W/\"etag-7\"".into())
    .with_observed_at(timestamp(OBSERVED_AT))
}

fn dpu_resource() -> ObservedResource {
    ObservedResource::complete(
        dpu_subject(),
        source_key("/redfish/v1/Systems/host-1/Processors/DPU0"),
        properties(vec![
            Property::new("agent_version".into(), "3.2.1".into()),
            Property::new(
                "manager".into(),
                ResourceReference::new(source_key("/redfish/v1/Managers/BMC")).with_subject(subject("manager", "bmc")).into(),
            ),
            Property::new("mode".into(), "nic".into()),
        ]),
    )
}

/// Reads a nested object out of a map, failing rather than reading as absent.
fn nested<'map>(map: &'map PropertyMap, name: &str) -> &'map PropertyMap {
    match map.get(name) {
        Some(PropertyValue::Object(nested)) => nested,
        other => panic!("expected a nested object at {name}, got {other:?}"),
    }
}

#[test]
fn property_maps_preserve_nested_values_and_nulls() {
    let resource = host_resource();
    let map = &resource.properties;

    assert_eq!(map.get("power_state"), Some(&PropertyValue::from("on")));
    assert_eq!(map.get("nullable_oem_value"), Some(&PropertyValue::Null));
    assert!(matches!(
        map.get("uptime"),
        Some(PropertyValue::Duration(uptime)) if uptime.seconds() == 86_400
    ));
    assert_eq!(map.as_slice()[0].name.as_str(), "bios_settings_hash");
    assert!(matches!(map.get("firmware"), Some(PropertyValue::Object(_))));
    assert!(matches!(map.get("network"), Some(PropertyValue::Object(_))));

    let addresses = match nested(map, "network").get("addresses") {
        Some(PropertyValue::Array(addresses)) => addresses,
        other => panic!("expected an array of addresses, got {other:?}"),
    };
    let expected = [PropertyValue::from("192.0.2.10"), PropertyValue::from("2001:db8::10")];

    assert_eq!(addresses.len(), 2);
    assert!(!addresses.is_empty());
    assert_eq!(addresses.as_slice(), expected);
    assert!(addresses.as_slice().iter().all(|address| matches!(address, PropertyValue::String(_))));

    assert!(PropertyArray::new(Vec::new()).expect("no values to nest").is_empty());
    let rebuilt = PropertyArray::new(vec![PropertyValue::from("192.0.2.10"), PropertyValue::from("2001:db8::10")])
        .expect("a shallow array");
    assert_eq!(rebuilt.into_vec().as_slice(), expected);
    assert_eq!(
        PropertyArray::new(vec![nested_array(MAX_DEPTH).expect("arrays at the limit")]),
        Err(PropertyArrayError::DepthExceeded { limit: MAX_DEPTH })
    );
}

#[test]
fn property_maps_reject_duplicate_names() {
    let duplicate = PropertyMap::new(vec![
        Property::new("state".into(), "enabled".into()),
        Property::new("state".into(), "disabled".into()),
    ]);

    assert!(matches!(
        duplicate,
        Err(PropertyMapError::DuplicateName(name)) if name.as_str() == "state"
    ));
}

#[test]
fn property_nesting_is_bounded() {
    // A bare value may nest through the whole budget, whichever container
    // spends it.
    assert!(nested_array(MAX_DEPTH).is_ok());
    assert_eq!(nested_array(MAX_DEPTH + 1), Err(PropertyArrayError::DepthExceeded { limit: MAX_DEPTH }));
    assert!(nested_object(MAX_DEPTH).is_ok());
    assert!(matches!(
        nested_object(MAX_DEPTH + 1),
        Err(PropertyMapError::DepthExceeded { name, .. }) if name.as_str() == "n"
    ));

    // The map a value is stored in spends one of those levels itself, so what
    // it accepts is one shallower.
    assert!(nest_arrays(MAX_DEPTH - 1).is_ok());
    assert!(matches!(
        nest_arrays(MAX_DEPTH),
        Err(PropertyMapError::DepthExceeded { name, .. }) if name.as_str() == "oem"
    ));
    assert!(nest_objects(MAX_DEPTH - 1).is_ok());
    assert!(matches!(
        nest_objects(MAX_DEPTH),
        Err(PropertyMapError::DepthExceeded { name, .. }) if name.as_str() == "oem"
    ));

    assert!(nested_array(500_000).is_err());

    let mixed = PropertyValue::Object(
        PropertyMap::new(vec![Property::new("inner".into(), "leaf".into())]).expect("a one-level map"),
    );
    assert_eq!(nested_array_from(mixed, 500_000), Err(PropertyArrayError::DepthExceeded { limit: MAX_DEPTH }));
}

fn nest_arrays(depth: u32) -> Result<PropertyMap, PropertyMapError> {
    let value = nested_array(depth).expect("requested depth is within the property limit");
    PropertyMap::new(vec![Property::new("oem".into(), value)])
}

fn nested_array(depth: u32) -> Result<PropertyValue, PropertyArrayError> {
    nested_array_from(PropertyValue::from("leaf"), depth)
}

fn nested_array_from(mut value: PropertyValue, depth: u32) -> Result<PropertyValue, PropertyArrayError> {
    for _ in 0..depth {
        value = PropertyValue::array(vec![value])?;
    }
    Ok(value)
}

fn nest_objects(depth: u32) -> Result<PropertyMap, PropertyMapError> {
    let value = nested_object(depth).expect("requested depth is within the property limit");
    PropertyMap::new(vec![Property::new("oem".into(), value)])
}

fn nested_object(depth: u32) -> Result<PropertyValue, PropertyMapError> {
    let mut value = PropertyValue::from("leaf");
    for _ in 0..depth {
        value = PropertyValue::Object(PropertyMap::new(vec![Property::new("n".into(), value)])?);
    }
    Ok(value)
}

#[test]
fn graph_size_is_bounded_and_the_bound_is_configurable() {
    let oversized = ResourceGraph::with_limits(
        vec![host_resource(), dpu_resource()],
        Vec::new(),
        GraphLimits::default().with_max_resources(1).with_max_relations(0),
    );
    assert!(matches!(oversized, Err(ResourceGraphError::TooManyResources { count: 2, limit: 1 })));

    let too_many_relations = ResourceGraph::with_limits(
        vec![host_resource(), dpu_resource()],
        vec![relation(host_subject(), "contains", dpu_subject())],
        GraphLimits::default().with_max_resources(10).with_max_relations(0),
    );
    assert!(matches!(too_many_relations, Err(ResourceGraphError::TooManyRelations { count: 1, limit: 0 })));

    // A graph exactly at the limit is within it.
    assert!(ResourceGraph::with_limits(
        vec![host_resource(), dpu_resource()],
        vec![relation(host_subject(), "contains", dpu_subject())],
        GraphLimits::default().with_max_resources(2).with_max_relations(1),
    )
    .is_ok());

    // A limit looser than the default is clamped to it, so the model cannot
    // build a graph that its own deserialization would then reject. The
    // clamped value is what the accessors report, too.
    let beyond_default = GraphLimits::default().with_max_resources(usize::MAX).with_max_relations(usize::MAX);
    assert_eq!(beyond_default.max_resources(), GraphLimits::default().max_resources());
    assert_eq!(beyond_default.max_relations(), GraphLimits::default().max_relations());
    assert_eq!(beyond_default.max_resources(), DEFAULT_MAX_RESOURCES);
    assert_eq!(beyond_default.max_relations(), DEFAULT_MAX_RELATIONS);
    assert!(ResourceGraph::with_limits(vec![host_resource(), dpu_resource()], Vec::new(), beyond_default).is_ok());
    assert!(matches!(
        ResourceGraph::with_limits(
            (0..=DEFAULT_MAX_RESOURCES)
                .map(|index| ObservedResource::complete(
                    subject("node", &format!("n{index}")),
                    source_key(&format!("/nodes/{index}")),
                    PropertyMap::empty(),
                ))
                .collect(),
            Vec::new(),
            beyond_default,
        ),
        Err(ResourceGraphError::TooManyResources { limit, .. }) if limit == DEFAULT_MAX_RESOURCES
    ));

    // The relation ceiling is clamped the same way. Size is checked before
    // anything is sorted, so the edges need not be distinct or resolvable.
    assert!(matches!(
        ResourceGraph::with_limits(
            vec![host_resource(), dpu_resource()],
            (0..=DEFAULT_MAX_RELATIONS).map(|_| relation(host_subject(), "contains", dpu_subject())).collect(),
            beyond_default,
        ),
        Err(ResourceGraphError::TooManyRelations { limit, .. }) if limit == DEFAULT_MAX_RELATIONS
    ));
}

#[test]
fn graph_sorts_resources_and_relations_and_supports_external_targets() {
    let external_switch = subject("switch", "leaf-1");
    let graph = ResourceGraph::new(
        vec![dpu_resource(), host_resource()],
        vec![
            relation(host_subject(), "connected_to", external_switch),
            relation(host_subject(), "contains", dpu_subject()),
        ],
    )
    .expect("valid graph");

    assert_eq!(&graph.resources()[0].subject, &host_subject());
    assert_eq!(&graph.resources()[1].subject, &dpu_subject());
    assert_eq!(graph.relations()[0].kind.as_str(), "connected_to");
    assert_eq!(graph.relations_from(&host_subject()).len(), 2);
    assert!(graph.relations_from(&dpu_subject()).is_empty());
    assert_eq!(graph.relations_to(&dpu_subject()).len(), 1);
    assert!(graph.get(&dpu_subject()).is_some());
}

#[test]
fn relation_lookup_isolates_each_source_and_traverses_cycles() {
    let manager = subject("manager", "bmc");
    let manager_resource =
        ObservedResource::complete(manager.clone(), source_key("/redfish/v1/Managers/BMC"), PropertyMap::empty());
    let graph = ResourceGraph::new(
        vec![host_resource(), dpu_resource(), manager_resource],
        vec![
            relation(host_subject(), "contains", dpu_subject()),
            relation(host_subject(), "managed_by", manager.clone()),
            // Closes a cycle, which traversal must terminate on.
            relation(manager.clone(), "manages", host_subject()),
        ],
    )
    .expect("valid graph");

    assert_eq!(graph.relations_from(&host_subject()).len(), 2);
    assert_eq!(graph.relations_from(&manager).len(), 1);
    assert_eq!(graph.relations_from(&manager)[0].kind.as_str(), "manages");
    assert!(graph.relations_from(&dpu_subject()).is_empty());

    let mut reachable: Vec<(String, String)> = graph
        .reachable_from(&host_subject())
        .into_iter()
        .map(|subject| (subject.kind.as_str().to_string(), subject.id.as_str().to_string()))
        .collect();
    reachable.sort();
    assert_eq!(
        reachable,
        vec![
            ("computer_system".to_string(), "host-1".to_string()),
            ("dpu".to_string(), "dpu-0".to_string()),
            ("manager".to_string(), "bmc".to_string()),
        ]
    );

    assert_eq!(graph.reachable_from(&dpu_subject()), vec![&dpu_subject()]);
    assert!(graph.reachable_from(&subject("switch", "absent")).is_empty());
}

#[test]
fn traversal_reports_a_detached_resource_beside_a_cycle() {
    let manager = subject("manager", "detached");
    let graph = ResourceGraph::new(
        vec![
            host_resource(),
            dpu_resource(),
            ObservedResource::complete(manager.clone(), source_key("/redfish/v1/Managers/detached"), PropertyMap::empty()),
        ],
        vec![relation(host_subject(), "contains", dpu_subject()), relation(dpu_subject(), "part_of", host_subject())],
    )
    .expect("cycle and detached resource form a valid graph");

    assert_eq!(graph.reachability_from(&host_subject()), Reachability::Unreachable(&manager));
}

#[test]
fn relation_lookup_holds_for_every_shape_of_source_run() {
    let first = subject("chassis", "a");
    let middle = subject("chassis", "m");
    let last = subject("chassis", "z");
    let resource = |subject: &Subject, key: &str| ObservedResource::complete(subject.clone(), source_key(key), PropertyMap::empty());
    let resources = || vec![resource(&first, "/a"), resource(&middle, "/m"), resource(&last, "/z")];

    let graph = ResourceGraph::new(
        resources(),
        vec![
            relation(first.clone(), "contains", middle.clone()),
            relation(last.clone(), "contains", first.clone()),
            relation(last.clone(), "peer_of", middle.clone()),
        ],
    )
    .expect("a valid graph");

    assert_eq!(graph.relations_from(&first).len(), 1);
    assert!(graph.relations_from(&middle).is_empty());
    assert_eq!(graph.relations_from(&last).len(), 2);
    assert_eq!(graph.reachable_from(&last), vec![&first, &middle, &last]);
    assert_eq!(graph.reachability_from(&first), Reachability::Unreachable(&last));
    assert_eq!(graph.reachability_from(&last), Reachability::FullyReachable);

    let edgeless = ResourceGraph::new(resources(), Vec::new()).expect("a valid graph");
    assert!(edgeless.relations_from(&first).is_empty());
    assert!(edgeless.relations_from(&last).is_empty());
    assert_eq!(edgeless.reachability_from(&middle), Reachability::Unreachable(&first));

    let empty = ResourceGraph::empty();
    assert!(empty.relations_from(&first).is_empty());
    assert_eq!(empty.reachability_from(&first), Reachability::MissingRoot);
}

#[test]
fn traversal_steps_over_relations_leaving_the_graph() {
    let external = subject("switch", "leaf-1");
    let graph = ResourceGraph::new(
        vec![host_resource(), dpu_resource()],
        vec![relation(host_subject(), "connected_to", external), relation(host_subject(), "contains", dpu_subject())],
    )
    .expect("a valid graph");

    assert_eq!(graph.reachable_from(&host_subject()), vec![&host_subject(), &dpu_subject()]);
    assert_eq!(graph.reachability_from(&host_subject()), Reachability::FullyReachable);
}

#[test]
fn identical_graphs_compare_and_hash_equally_regardless_of_insertion_order() {
    let forward = ResourceGraph::new(vec![host_resource(), dpu_resource()], Vec::new()).expect("valid forward graph");
    let reversed = ResourceGraph::new(vec![dpu_resource(), host_resource()], Vec::new()).expect("valid reversed graph");

    assert_eq!(forward, reversed);
    assert_eq!(hash_of(&forward), hash_of(&reversed));
}

#[test]
fn completeness_records_whether_a_missing_property_is_meaningful() {
    let complete = host_resource();
    assert_eq!(complete.completeness, ResourceCompleteness::Complete);
    assert!(complete.completeness.establishes_absence());

    let selected = ObservedResource::partial(
        host_subject(),
        source_key("/redfish/v1/Systems/host-1"),
        properties(vec![Property::new("power_state".into(), "on".into())]),
    );
    assert!(!selected.completeness.establishes_absence());
    assert!(selected.properties.get("bios_settings_hash").is_none());
}

#[test]
fn one_source_location_may_only_back_one_resource() {
    let merged = ResourceGraph::new(
        vec![
            host_resource(),
            ObservedResource::complete(
                subject("computer_system", "host-1-environment"),
                source_key("/redfish/v1/Systems/host-1"),
                PropertyMap::empty(),
            ),
        ],
        Vec::new(),
    );

    assert!(matches!(
        merged,
        Err(ResourceGraphError::DuplicateSourceKey(source_key)) if source_key.as_str() == "/redfish/v1/Systems/host-1"
    ));
}

#[test]
fn graph_rejects_duplicate_resources_relations_and_unknown_sources() {
    let duplicate_resource = ResourceGraph::new(vec![host_resource(), host_resource()], Vec::new());
    assert!(matches!(
        duplicate_resource,
        Err(ResourceGraphError::DuplicateResource(subject)) if subject == host_subject()
    ));

    let duplicate_relation = ResourceGraph::new(
        vec![host_resource(), dpu_resource()],
        vec![relation(host_subject(), "contains", dpu_subject()), relation(host_subject(), "contains", dpu_subject())],
    );
    assert!(matches!(duplicate_relation, Err(ResourceGraphError::DuplicateRelation { .. })));

    let unknown_source =
        ResourceGraph::new(vec![host_resource()], vec![relation(subject("manager", "missing"), "manages", host_subject())]);
    assert!(matches!(
        unknown_source,
        Err(ResourceGraphError::UnknownRelationSource(missing)) if missing == subject("manager", "missing")
    ));
}

fn graph_batch(scope: ObservationScope, graph: ResourceGraph) -> Result<ObservationBatch, BatchError> {
    ObservationBatch::new(
        endpoint(),
        Origin::new("redfish".into(), "resource-graph".into()),
        ObservationWindow::point(timestamp(OBSERVED_AT)),
        Coverage::new(scope, Completeness::Complete),
        Payload::Resources(graph),
    )
}

fn host_contains_dpu() -> ResourceGraph {
    ResourceGraph::new(vec![host_resource(), dpu_resource()], vec![relation(host_subject(), "contains", dpu_subject())])
        .expect("valid graph")
}

#[test]
fn payload_length_counts_relations_as_well_as_resources() {
    let batch = graph_batch(ObservationScope::Endpoint, host_contains_dpu()).expect("endpoint scope accepts any graph");

    assert_eq!(batch.payload().len(), 3);
}

#[test]
fn subject_scope_accepts_the_subtree_rooted_at_the_scope_subject() {
    let batch = graph_batch(ObservationScope::Subject(host_subject()), host_contains_dpu())
        .expect("the dpu is reachable from the host root");

    assert_eq!(batch.coverage().scope, ObservationScope::Subject(host_subject()));
}

#[test]
fn subject_scope_rejects_resources_outside_the_rooted_subtree() {
    let disconnected = ResourceGraph::new(vec![host_resource(), dpu_resource()], Vec::new()).expect("valid graph");

    assert!(matches!(
        graph_batch(ObservationScope::Subject(host_subject()), disconnected),
        Err(BatchError::UnreachableFromScopeRoot { subject, .. }) if subject == dpu_subject()
    ));
}

#[test]
fn rejecting_a_large_graph_names_the_unreachable_resource() {
    const RESOURCES: usize = 20_000;

    let root = subject("chassis", "root");
    let node = |index: usize| subject("node", &format!("n{index:06}"));
    let mut resources = vec![ObservedResource::complete(root.clone(), source_key("/redfish/v1/Chassis/root"), PropertyMap::empty())];
    let mut relations = Vec::new();
    for index in 0..RESOURCES {
        resources.push(ObservedResource::complete(
            node(index),
            source_key(&format!("/redfish/v1/Chassis/root/Nodes/{index}")),
            PropertyMap::empty(),
        ));
        // Every node but the last hangs off the root.
        if index + 1 < RESOURCES {
            relations.push(relation(root.clone(), "contains", node(index)));
        }
    }
    let graph = ResourceGraph::new(resources, relations).expect("a valid graph");

    assert!(matches!(
        graph_batch(ObservationScope::Subject(root), graph),
        Err(BatchError::UnreachableFromScopeRoot { subject, .. }) if subject == node(RESOURCES - 1)
    ));
}

#[test]
fn an_unresolved_link_stays_a_reference_until_its_subject_is_known() {
    const LINK: &str = "/redfish/v1/Chassis/1/NetworkAdapters/1";

    let unresolved = ResourceGraph::new(
        vec![ObservedResource::complete(
            host_subject(),
            source_key("/redfish/v1/Systems/host-1"),
            PropertyMap::new(vec![Property::new("network_adapter".into(), ResourceReference::new(source_key(LINK)).into())])
                .expect("unique property names"),
        )],
        Vec::new(),
    )
    .expect("a valid graph");

    let reference = match unresolved.get(&host_subject()).expect("the host is in the graph").properties.get("network_adapter") {
        Some(PropertyValue::Reference(reference)) => reference,
        other => panic!("expected a reference, got {other:?}"),
    };
    assert_eq!(reference.source_key.as_str(), LINK);
    assert_eq!(reference.subject, None, "nothing has resolved it yet");
    assert_eq!(unresolved.relation_count(), 0);

    let adapter = subject("network_adapter", "1");
    let resolved = ResourceGraph::new(
        vec![ObservedResource::complete(
            host_subject(),
            source_key("/redfish/v1/Systems/host-1"),
            PropertyMap::new(vec![Property::new(
                "network_adapter".into(),
                ResourceReference::new(source_key(LINK)).with_subject(adapter.clone()).into(),
            )])
            .expect("unique property names"),
        )],
        vec![relation(host_subject(), "contains", adapter.clone())],
    )
    .expect("an external target is allowed");

    assert_eq!(resolved.relations_from(&host_subject()).len(), 1);
    assert_eq!(resolved.relations_from(&host_subject())[0].target, adapter);
    assert!(resolved.get(&adapter).is_none(), "the edge names the adapter without the graph holding it");
}

#[test]
fn subject_scope_requires_its_root_to_be_present() {
    let without_root = ResourceGraph::new(vec![dpu_resource()], Vec::new()).expect("valid graph");

    assert!(matches!(
        graph_batch(ObservationScope::Subject(host_subject()), without_root),
        Err(BatchError::MissingScopeRoot(root)) if root == host_subject()
    ));

    // An empty graph observes nothing, so it cannot contradict a scope.
    graph_batch(ObservationScope::Subject(host_subject()), ResourceGraph::empty()).expect("an empty graph is in scope everywhere");
}

#[test]
fn relation_identity_ignores_relation_properties() {
    let labelled = |label: &str| {
        relation(host_subject(), "contains", dpu_subject())
            .with_properties(properties(vec![Property::new("discovered_by".into(), label.into())]))
    };

    let graph = ResourceGraph::new(vec![host_resource(), dpu_resource()], vec![labelled("chassis-walk"), labelled("systems-walk")]);

    assert!(matches!(
        graph,
        Err(ResourceGraphError::DuplicateRelation { kind, .. }) if kind.as_str() == "contains"
    ));

    let single = ResourceGraph::new(vec![host_resource(), dpu_resource()], vec![labelled("chassis-walk")])
        .expect("one edge is not a duplicate");
    assert_eq!(single.relations()[0].properties.get("discovered_by"), Some(&PropertyValue::from("chassis-walk")));

    assert_ne!(
        labelled("chassis-walk"),
        labelled("systems-walk"),
        "edge properties participate in value equality even though they are not identity"
    );
}

#[test]
fn a_graph_error_names_the_least_offender() {
    let duplicate_key = ResourceGraph::new(
        vec![
            ObservedResource::complete(subject("a", "1"), source_key("/z"), PropertyMap::empty()),
            ObservedResource::complete(subject("a", "2"), source_key("/z"), PropertyMap::empty()),
            ObservedResource::complete(subject("a", "3"), source_key("/b"), PropertyMap::empty()),
            ObservedResource::complete(subject("a", "4"), source_key("/b"), PropertyMap::empty()),
        ],
        Vec::new(),
    );
    assert!(matches!(
        duplicate_key,
        Err(ResourceGraphError::DuplicateSourceKey(key)) if key.as_str() == "/b"
    ));

    let unknown = ResourceGraph::new(
        vec![host_resource()],
        vec![
            relation(subject("zebra", "1"), "links", host_subject()),
            relation(subject("ant", "1"), "links", host_subject()),
        ],
    );
    assert!(matches!(
        unknown,
        Err(ResourceGraphError::UnknownRelationSource(missing)) if missing == subject("ant", "1")
    ));
}
