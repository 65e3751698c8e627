//! The validated observation batch: provenance, window, coverage and one
//! payload, with the rule that a complete claim about a subject's subtree is
//! backed by a graph hanging off that subject.

use vstd::prelude::*;

use crate::schema::enums::{Completeness, completeness_of, completeness_of_number};
use crate::schema::graph::{
    RelationView, ResourceGraph, graph_decodes, graph_fault, relation_views, resource_subjects, wire_graph_fault,
    wire_relation_views, wire_resource_subjects,
};
use crate::schema::identity::Subject;
use crate::schema::invalid::{
    Fault, Invalid, Violation, element_path, fault_at, first_fault, lemma_missing_none, lemma_repeat_none, nested_path,
    repeats_earlier, reports,
};
use crate::schema::messages::{
    Coverage, ObservationWindow, Origin, ResourceRelation, optional_subject_decodes, origin_parts_fault, window_decodes,
    wire_coverage_fault, wire_window_fault,
};
use crate::schema::identity::{optional_text, wire_subject_view};
use crate::schema::readings::{Readings, readings_decodes, wire_readings_fault};
use crate::schema::records::{
    EndpointContext, Inventory, Logs, States, SubjectView, endpoint_decodes, severity_canonical, inventory_decodes, logs_decodes, states_decodes,
    wire_endpoint_fault, wire_inventory_fault, wire_logs_fault, wire_states_fault,
};
use crate::schema::wire;
use crate::telemetry::resource::{count_set, lemma_count_set_bound, lemma_count_set_update, lemma_count_zero};

verus! {

/// The rule that a complete scoped graph holds its root.
pub const SCOPE_ROOT_PRESENT: &'static str = "a complete graph scoped to a subject holds that subject";

/// The rule that a complete scoped graph is one subtree.
pub const SCOPE_ROOT_REACHES: &'static str = "a complete graph scoped to a subject reaches every resource from it";

/// `to` is reached from `from` by following at most `steps` relations from
/// source to target.
pub open spec fn reaches_within(relations: Seq<RelationView>, from: SubjectView, to: SubjectView, steps: nat) -> bool
    decreases steps,
{
    if steps == 0 {
        from == to
    } else {
        reaches_within(relations, from, to, (steps - 1) as nat) || exists|r: int|
            #![trigger relations[r]]
            0 <= r < relations.len() && reaches_within(relations, from, relations[r].0, (steps - 1) as nat) && relations[r].1 == to
    }
}

/// `to` is reached from `from` by following relations from source to target.
pub open spec fn reaches(relations: Seq<RelationView>, from: SubjectView, to: SubjectView) -> bool {
    exists|steps: nat| #[trigger] reaches_within(relations, from, to, steps)
}

/// The first resource, from `from` on, that `root` does not reach.
pub open spec fn unreached_fault(subjects: Seq<SubjectView>, relations: Seq<RelationView>, root: SubjectView, from: int) -> Option<Fault>
    decreases subjects.len() - from,
{
    if from < 0 || from >= subjects.len() {
        None
    } else if !reaches(relations, root, subjects[from]) {
        Some((nested_path("payload"@, element_path("resources"@, from as nat)), Violation::Rule(SCOPE_ROOT_REACHES)))
    } else {
        unreached_fault(subjects, relations, root, from + 1)
    }
}

proof fn lemma_unreached_skip(subjects: Seq<SubjectView>, relations: Seq<RelationView>, root: SubjectView, from: int, to: int)
    requires
        0 <= from <= to <= subjects.len(),
        forall|k: int| from <= k < to ==> reaches(relations, root, #[trigger] subjects[k]),
    ensures
        unreached_fault(subjects, relations, root, from) == unreached_fault(subjects, relations, root, to),
    decreases to - from,
{
    if from < to {
        lemma_unreached_skip(subjects, relations, root, from + 1, to);
    }
}

/// What a graph claimed complete for the subtree under `root` reports, if
/// anything: an empty graph claims nothing; otherwise the root must be one
/// of its resources and must reach every resource.
pub open spec fn subtree_fault(subjects: Seq<SubjectView>, relations: Seq<RelationView>, root: SubjectView) -> Option<Fault> {
    if subjects.len() == 0 {
        None
    } else if !subjects.contains(root) {
        Some(("coverage.scope"@, Violation::Rule(SCOPE_ROOT_PRESENT)))
    } else {
        unreached_fault(subjects, relations, root, 0)
    }
}

/// Whether, for the relation at `l`, a reached source means every resource
/// at its target is reached.
pub open spec fn closed_at(subjects: Seq<SubjectView>, relations: Seq<RelationView>, reached: Seq<bool>, l: int) -> bool {
    (exists|a: int| 0 <= a < subjects.len() && reached[a] && #[trigger] subjects[a] == relations[l].0) ==> forall|b: int|
        0 <= b < subjects.len() && #[trigger] subjects[b] == relations[l].1 ==> reached[b]
}

/// A set of resources holding the root and closed under relations holds
/// everything the root reaches.
proof fn lemma_closed_complete(
    subjects: Seq<SubjectView>,
    relations: Seq<RelationView>,
    reached: Seq<bool>,
    root: int,
    to: SubjectView,
    steps: nat,
)
    requires
        reached.len() == subjects.len(),
        0 <= root < subjects.len(),
        reached[root],
        forall|i: int, j: int| 0 <= i < j < subjects.len() ==> #[trigger] subjects[i] != #[trigger] subjects[j],
        forall|l: int| 0 <= l < relations.len() ==> subjects.contains(#[trigger] relations[l].0),
        forall|l: int| 0 <= l < relations.len() ==> #[trigger] closed_at(subjects, relations, reached, l),
        reaches_within(relations, subjects[root], to, steps),
    ensures
        forall|b: int| 0 <= b < subjects.len() && #[trigger] subjects[b] == to ==> reached[b],
    decreases steps,
{
    if steps == 0 {
        assert forall|b: int| 0 <= b < subjects.len() && #[trigger] subjects[b] == to implies reached[b] by {
            if b != root {
                if b < root {
                    assert(subjects[b] != subjects[root]);
                } else {
                    assert(subjects[root] != subjects[b]);
                }
            }
        }
    } else if reaches_within(relations, subjects[root], to, (steps - 1) as nat) {
        lemma_closed_complete(subjects, relations, reached, root, to, (steps - 1) as nat);
    } else {
        let prev = (steps - 1) as nat;
        let r = choose|r: int|
            #![trigger relations[r]]
            0 <= r < relations.len() && reaches_within(relations, subjects[root], relations[r].0, prev) && relations[r].1 == to;
        lemma_closed_complete(subjects, relations, reached, root, relations[r].0, prev);
        assert(subjects.contains(relations[r].0));
        let a = choose|a: int| 0 <= a < subjects.len() && subjects[a] == relations[r].0;
        assert(reached[a]);
        assert(closed_at(subjects, relations, reached, r));
    }
}

/// Whether some reached resource holds `subject`.
fn reached_holds(subjects: &Vec<&Subject>, reached: &Vec<bool>, subject: &Subject) -> (found: bool)
    requires
        reached@.len() == subjects@.len(),
    ensures
        found == exists|a: int| 0 <= a < subjects@.len() && reached@[a] && #[trigger] subjects@[a]@ == subject@,
{
    let mut a: usize = 0;
    while a < subjects.len()
        invariant
            0 <= a <= subjects@.len(),
            reached@.len() == subjects@.len(),
            forall|k: int| 0 <= k < a ==> !(reached@[k] && #[trigger] subjects@[k]@ == subject@),
        decreases subjects@.len() - a,
    {
        if reached[a] && subjects[a].same(subject) {
            return true;
        }
        a = a + 1;
    }
    false
}

/// Which resources `root` reaches, by marking along relations until nothing
/// more is marked.
fn reached_from(subjects: &Vec<&Subject>, relations: &[ResourceRelation], root: usize) -> (reached: Vec<bool>)
    requires
        root < subjects@.len(),
        forall|i: int, j: int|
            0 <= i < j < subjects@.len() ==> #[trigger] subjects@[i]@ != #[trigger] subjects@[j]@,
        forall|l: int|
            0 <= l < relations@.len() ==> Seq::new(subjects@.len(), |i: int| subjects@[i]@).contains(
                #[trigger] relation_views(relations@)[l].0,
            ),
    ensures
        reached@.len() == subjects@.len(),
        forall|i: int|
            0 <= i < subjects@.len() ==> #[trigger] reached@[i] == reaches(
                relation_views(relations@),
                subjects@[root as int]@,
                subjects@[i]@,
            ),
{
    let ghost views = Seq::new(subjects@.len(), |i: int| subjects@[i]@);
    let ghost rels = relation_views(relations@);
    let ghost start = views[root as int];
    let n = subjects.len();
    let mut reached: Vec<bool> = Vec::new();
    while reached.len() < n
        invariant
            reached@.len() <= n,
            n == subjects@.len(),
            forall|i: int| 0 <= i < reached@.len() ==> !#[trigger] reached@[i],
        decreases n - reached@.len(),
    {
        reached.push(false);
    }
    proof {
        assert(count_set(reached@) == 0) by {
            assert forall|len: int| 0 <= len <= reached@.len() implies #[trigger] count_set(reached@.subrange(0, len)) == 0 by {
                lemma_count_zero(reached@, len);
            }
            assert(reached@.subrange(0, reached@.len() as int) =~= reached@);
        }
        lemma_count_set_update(reached@, root as int);
        assert(reaches_within(rels, start, start, 0));
    }
    let ghost unset = reached@;
    reached.set(root, true);
    proof {
        assert forall|i: int| 0 <= i < n && #[trigger] reached@[i] implies reaches(rels, start, views[i]) by {
            if i != root {
                assert(!unset[i]);
            }
            assert(reaches_within(rels, start, views[i], 0));
        }
    }
    let mut changed = true;
    while changed
        invariant
            n == subjects@.len(),
            views == Seq::new(subjects@.len(), |i: int| subjects@[i]@),
            rels == relation_views(relations@),
            start == views[root as int],
            root < n,
            reached@.len() == n,
            reached@[root as int],
            forall|i: int| 0 <= i < n && #[trigger] reached@[i] ==> reaches(rels, start, views[i]),
            !changed ==> forall|l: int| 0 <= l < rels.len() ==> #[trigger] closed_at(views, rels, reached@, l),
        decreases n - count_set(reached@), if changed {
            1nat
        } else {
            0nat
        },
    {
        let ghost at_start = reached@;
        proof {
            lemma_count_set_bound(reached@);
        }
        changed = false;
        let mut l: usize = 0;
        while l < relations.len()
            invariant
                n == subjects@.len(),
                views == Seq::new(subjects@.len(), |i: int| subjects@[i]@),
                rels == relation_views(relations@),
                start == views[root as int],
                root < n,
                0 <= l <= relations@.len(),
                reached@.len() == n,
                reached@[root as int],
                forall|i: int| 0 <= i < n && #[trigger] reached@[i] ==> reaches(rels, start, views[i]),
                changed ==> count_set(reached@) > count_set(at_start),
                !changed ==> reached@ == at_start,
                !changed ==> forall|k: int| 0 <= k < l ==> #[trigger] closed_at(views, rels, reached@, k),
                count_set(reached@) <= n,
            decreases relations@.len() - l,
        {
            let relation = &relations[l];
            proof {
                assert(rels[l as int] == (relation.source_of(), relation.target_of(), relation.kind_of()));
            }
            if reached_holds(subjects, &reached, relation.source()) {
                proof {
                    let a = choose|a: int| 0 <= a < subjects@.len() && reached@[a] && #[trigger] subjects@[a]@ == relation.source_of();
                    assert(views[a] == rels[l as int].0);
                    assert(reaches(rels, start, views[a]));
                }
                let ghost before_targets = reached@;
                let ghost changed_before = changed;
                let mut b: usize = 0;
                while b < n
                    invariant
                        n == subjects@.len(),
                        views == Seq::new(subjects@.len(), |i: int| subjects@[i]@),
                        rels == relation_views(relations@),
                        start == views[root as int],
                        root < n,
                        0 <= l < relations@.len(),
                        relation == &relations@[l as int],
                        reaches(rels, start, rels[l as int].0),
                        0 <= b <= n,
                        reached@.len() == n,
                        reached@[root as int],
                        forall|i: int| 0 <= i < n && #[trigger] reached@[i] ==> reaches(rels, start, views[i]),
                        forall|i: int| 0 <= i < n && #[trigger] before_targets[i] ==> reached@[i],
                        changed ==> count_set(reached@) > count_set(at_start),
                        !changed ==> reached@ == at_start,
                        changed_before ==> changed,
                        !changed_before ==> before_targets == at_start,
                        count_set(reached@) >= count_set(before_targets),
                        count_set(reached@) <= n,
                        forall|k: int| 0 <= k < b && #[trigger] views[k] == rels[l as int].1 ==> reached@[k],
                    decreases n - b,
                {
                    if !reached[b] && subjects[b].same(relation.target()) {
                        proof {
                            lemma_count_set_update(reached@, b as int);
                            lemma_count_set_bound(reached@.update(b as int, true));
                            let steps = choose|steps: nat| #[trigger] reaches_within(rels, start, rels[l as int].0, steps);
                            let next: nat = steps + 1;
                            assert((next - 1) as nat == steps);
                            assert(reaches_within(rels, start, rels[l as int].0, (next - 1) as nat));
                            assert(reaches_within(rels, start, rels[l as int].1, next));
                            assert(views[b as int] == rels[l as int].1);
                        }
                        reached.set(b, true);
                        changed = true;
                    }
                    b = b + 1;
                }
                proof {
                    if !changed {
                        assert forall|k: int| 0 <= k <= l implies #[trigger] closed_at(views, rels, reached@, k) by {
                            if k == l {
                            }
                        }
                    }
                }
            } else {
                proof {
                    if !changed {
                        assert(closed_at(views, rels, reached@, l as int));
                    }
                }
            }
            l = l + 1;
        }
    }
    proof {
        assert forall|i: int| 0 <= i < n implies #[trigger] reached@[i] == reaches(rels, start, views[i]) by {
            if reaches(rels, start, views[i]) {
                let steps = choose|steps: nat| #[trigger] reaches_within(rels, start, views[i], steps);
                assert forall|x: int, y: int| 0 <= x < y < views.len() implies #[trigger] views[x] != #[trigger] views[y] by {
                    assert(subjects@[x]@ != subjects@[y]@);
                }
                assert forall|k: int| 0 <= k < rels.len() implies views.contains(#[trigger] rels[k].0) by {
                    assert(views.contains(relation_views(relations@)[k].0));
                }
                lemma_closed_complete(views, rels, reached@, root as int, views[i], steps);
            }
        }
    }
    reached
}

/// Checks that a graph claimed complete for the subtree under `root` holds
/// `root` and reaches every resource from it, naming the first that it does
/// not reach.
fn check_subtree(graph: &ResourceGraph, root: &Subject) -> (checked: Result<(), Invalid>)
    ensures
        reports(checked, subtree_fault(resource_subjects(graph.resources_of()), relation_views(graph.relations_of()), root@)),
{
    let resources = graph.resources();
    let relations = graph.relations();
    let ghost views = resource_subjects(graph.resources_of());
    let ghost rels = relation_views(graph.relations_of());
    if resources.len() == 0 {
        return Ok(());
    }
    let mut subjects: Vec<&Subject> = Vec::new();
    let mut i: usize = 0;
    while i < resources.len()
        invariant
            0 <= i <= resources@.len(),
            subjects@.len() == i,
            forall|k: int| 0 <= k < i ==> (#[trigger] subjects@[k])@ == resources@[k].subject_of(),
        decreases resources@.len() - i,
    {
        subjects.push(resources[i].subject());
        i = i + 1;
    }
    proof {
        assert(Seq::new(subjects@.len(), |i: int| subjects@[i]@) =~= views);
    }
    let mut root_index: usize = 0;
    let mut found = false;
    while !found && root_index < subjects.len()
        invariant
            0 <= root_index <= subjects@.len(),
            views == Seq::new(subjects@.len(), |i: int| subjects@[i]@),
            found ==> root_index < subjects@.len() && views[root_index as int] == root@,
            forall|k: int| 0 <= k < root_index ==> #[trigger] views[k] != root@,
        decreases subjects@.len() - root_index, if found {
            0nat
        } else {
            1nat
        },
    {
        if subjects[root_index].same(root) {
            found = true;
        } else {
            root_index = root_index + 1;
        }
    }
    if !found {
        proof {
            assert(views.len() == subjects@.len());
            assert forall|k: int| 0 <= k < views.len() implies #[trigger] views[k] != root@ by {}
        }
        return Err(Invalid::field("coverage.scope", Violation::Rule(SCOPE_ROOT_PRESENT)));
    }
    proof {
        assert(views[root_index as int] == root@);
        assert(views.contains(root@));
        lemma_repeat_none("resources"@, views, 0);
        assert forall|x: int, y: int| 0 <= x < y < subjects@.len() implies #[trigger] subjects@[x]@ != #[trigger] subjects@[y]@ by {
            assert(views[x] == subjects@[x]@);
            assert(views[y] == subjects@[y]@);
            if views[x] == views[y] {
                assert(repeats_earlier(views, y));
            }
        }
        lemma_missing_none("relations"@, crate::schema::graph::RELATION_SOURCE_PRESENT, crate::schema::graph::relation_sources(rels), views, 0);
        assert forall|l: int| 0 <= l < relations@.len() implies Seq::new(subjects@.len(), |i: int| subjects@[i]@).contains(
            #[trigger] relation_views(relations@)[l].0,
        ) by {
            assert(crate::schema::graph::relation_sources(rels)[l] == rels[l].0);
        }
    }
    let reached = reached_from(&subjects, relations, root_index);
    let mut k: usize = 0;
    while k < subjects.len()
        invariant
            0 <= k <= subjects@.len(),
            reached@.len() == subjects@.len(),
            views == Seq::new(subjects@.len(), |i: int| subjects@[i]@),
            rels == relation_views(relations@),
            views[root_index as int] == root@,
            views.len() == subjects@.len(),
            views.contains(root@),
            views.len() > 0,
            views == resource_subjects(graph.resources_of()),
            rels == relation_views(graph.relations_of()),
            root_index < subjects@.len(),
            forall|i: int| 0 <= i < subjects@.len() ==> #[trigger] reached@[i] == reaches(rels, subjects@[root_index as int]@, subjects@[i]@),
            forall|j: int| 0 <= j < k ==> reaches(rels, root@, #[trigger] views[j]),
        decreases subjects@.len() - k,
    {
        if !reached[k] {
            proof {
                lemma_unreached_skip(views, rels, root@, 0, k as int);
                assert(subjects@[root_index as int]@ == views[root_index as int]);
                assert(subjects@[k as int]@ == views[k as int]);
                assert(!reaches(rels, root@, views[k as int]));
                assert(unreached_fault(views, rels, root@, k as int) == Some(
                    (nested_path("payload"@, element_path("resources"@, k as nat)), Violation::Rule(SCOPE_ROOT_REACHES)),
                ));
            }
            return Err(Invalid::element("resources", k, Violation::Rule(SCOPE_ROOT_REACHES)).at("payload"));
        }
        proof {
            assert(subjects@[root_index as int]@ == views[root_index as int]);
            assert(subjects@[k as int]@ == views[k as int]);
            assert(reaches(rels, root@, views[k as int]));
        }
        k = k + 1;
    }
    proof {
        lemma_unreached_skip(views, rels, root@, 0, subjects@.len() as int);
    }
    Ok(())
}

// ------------------------------------------------------------------ Payload

/// The payload of an observation batch: exactly one domain, always set.
#[derive(Debug, PartialEq, Eq)]
#[non_exhaustive]
pub enum Payload {
    Readings(Readings),
    Logs(Logs),
    States(States),
    Inventory(Inventory),
    Resources(ResourceGraph),
}

/// What a batch's cross-field rule reports for this coverage and payload:
/// a graph claimed complete for a subject's subtree must be that subtree.
pub open spec fn batch_fault(coverage: Coverage, payload: Payload) -> Option<Fault> {
    match payload {
        Payload::Resources(graph) => match (coverage.completeness_of(), coverage.scope_of()) {
            (Completeness::Complete, Some(root)) => subtree_fault(
                resource_subjects(graph.resources_of()),
                relation_views(graph.relations_of()),
                root,
            ),
            _ => None,
        },
        _ => None,
    }
}

/// Checks a batch's cross-field rule.
fn check_batch(coverage: &Coverage, payload: &Payload) -> (checked: Result<(), Invalid>)
    ensures
        reports(checked, batch_fault(*coverage, *payload)),
{
    match payload {
        Payload::Resources(graph) => {
            if coverage.completeness() == Completeness::Complete {
                match coverage.scope() {
                    Some(root) => check_subtree(graph, root),
                    None => Ok(()),
                }
            } else {
                Ok(())
            }
        },
        _ => Ok(()),
    }
}

// --------------------------------------------------------- ObservationBatch

/// Validated form of the contract's `ObservationBatch`: who observed what,
/// when, how completely, and the observations themselves.
#[derive(Debug, PartialEq, Eq)]
pub struct ObservationBatch {
    endpoint: EndpointContext,
    origin: Origin,
    window: ObservationWindow,
    coverage: Coverage,
    payload: Payload,
}

impl ObservationBatch {
    #[verifier::type_invariant]
    spec fn valid(self) -> bool {
        batch_fault(self.coverage, self.payload) is None
    }

    pub closed spec fn endpoint_of(self) -> EndpointContext {
        self.endpoint
    }

    pub closed spec fn origin_of(self) -> Origin {
        self.origin
    }

    pub closed spec fn window_of(self) -> ObservationWindow {
        self.window
    }

    pub closed spec fn coverage_of(self) -> Coverage {
        self.coverage
    }

    pub closed spec fn payload_of(self) -> Payload {
        self.payload
    }

    /// A builder holding nothing yet.
    pub fn builder() -> (builder: ObservationBatchBuilder)
        ensures
            builder.endpoint_part() is None,
            builder.origin_part() is None,
            builder.window_part() is None,
            builder.coverage_part() is None,
            builder.payload_part() is None,
    {
        ObservationBatchBuilder { endpoint: None, origin: None, window: None, coverage: None, payload: None }
    }

    /// The `endpoint`.
    pub fn endpoint(&self) -> (endpoint: &EndpointContext)
        ensures
            *endpoint == self.endpoint_of(),
    {
        &self.endpoint
    }

    /// The `origin`.
    pub fn origin(&self) -> (origin: &Origin)
        ensures
            *origin == self.origin_of(),
    {
        &self.origin
    }

    /// The `window`.
    pub fn window(&self) -> (window: &ObservationWindow)
        ensures
            *window == self.window_of(),
    {
        &self.window
    }

    /// The `coverage`.
    pub fn coverage(&self) -> (coverage: &Coverage)
        ensures
            *coverage == self.coverage_of(),
    {
        &self.coverage
    }

    /// The `payload`.
    pub fn payload(&self) -> (payload: &Payload)
        ensures
            *payload == self.payload_of(),
            batch_fault(self.coverage_of(), *payload) is None,
    {
        proof {
            use_type_invariant(self);
        }
        &self.payload
    }

    fn checked(
        endpoint: EndpointContext,
        origin: Origin,
        window: ObservationWindow,
        coverage: Coverage,
        payload: Payload,
    ) -> (made: Result<ObservationBatch, Invalid>)
        ensures
            reports(made, batch_fault(coverage, payload)),
            made matches Ok(batch) ==> batch.endpoint_of() == endpoint && batch.origin_of() == origin && batch.window_of() == window
                && batch.coverage_of() == coverage && batch.payload_of() == payload,
    {
        match check_batch(&coverage, &payload) {
            Ok(()) => Ok(ObservationBatch { endpoint, origin, window, coverage, payload }),
            Err(error) => Err(error),
        }
    }
}

/// Builds an [`ObservationBatch`]. Setters are infallible;
/// [`build`](ObservationBatchBuilder::build) validates everything at once,
/// exactly as decoding does.
#[derive(Debug)]
pub struct ObservationBatchBuilder {
    endpoint: Option<EndpointContext>,
    origin: Option<Origin>,
    window: Option<ObservationWindow>,
    coverage: Option<Coverage>,
    payload: Option<Payload>,
}

impl ObservationBatchBuilder {
    pub closed spec fn endpoint_part(self) -> Option<EndpointContext> {
        self.endpoint
    }

    pub closed spec fn origin_part(self) -> Option<Origin> {
        self.origin
    }

    pub closed spec fn window_part(self) -> Option<ObservationWindow> {
        self.window
    }

    pub closed spec fn coverage_part(self) -> Option<Coverage> {
        self.coverage
    }

    pub closed spec fn payload_part(self) -> Option<Payload> {
        self.payload
    }

    /// Whether `other` holds the same parts as this builder, but for the one
    /// named by `field` (0 to 4, in declaration order).
    pub open spec fn same_except(self, other: ObservationBatchBuilder, field: int) -> bool {
        &&& (field != 0 ==> other.endpoint_part() == self.endpoint_part())
        &&& (field != 1 ==> other.origin_part() == self.origin_part())
        &&& (field != 2 ==> other.window_part() == self.window_part())
        &&& (field != 3 ==> other.coverage_part() == self.coverage_part())
        &&& (field != 4 ==> other.payload_part() == self.payload_part())
    }

    /// Sets `endpoint`.
    pub fn endpoint(self, endpoint: EndpointContext) -> (builder: ObservationBatchBuilder)
        ensures
            builder.endpoint_part() == Some(endpoint),
            self.same_except(builder, 0),
    {
        ObservationBatchBuilder { endpoint: Some(endpoint), ..self }
    }

    /// Sets `origin`.
    pub fn origin(self, origin: Origin) -> (builder: ObservationBatchBuilder)
        ensures
            builder.origin_part() == Some(origin),
            self.same_except(builder, 1),
    {
        ObservationBatchBuilder { origin: Some(origin), ..self }
    }

    /// Sets `window`.
    pub fn window(self, window: ObservationWindow) -> (builder: ObservationBatchBuilder)
        ensures
            builder.window_part() == Some(window),
            self.same_except(builder, 2),
    {
        ObservationBatchBuilder { window: Some(window), ..self }
    }

    /// Sets `coverage`.
    pub fn coverage(self, coverage: Coverage) -> (builder: ObservationBatchBuilder)
        ensures
            builder.coverage_part() == Some(coverage),
            self.same_except(builder, 3),
    {
        ObservationBatchBuilder { coverage: Some(coverage), ..self }
    }

    /// Sets `payload`.
    pub fn payload(self, payload: Payload) -> (builder: ObservationBatchBuilder)
        ensures
            builder.payload_part() == Some(payload),
            self.same_except(builder, 4),
    {
        ObservationBatchBuilder { payload: Some(payload), ..self }
    }

    /// The fault building reports, if any: each absent part in turn, then
    /// the batch's rule.
    pub open spec fn fault(self) -> Option<Fault> {
        match (self.endpoint_part(), self.origin_part(), self.window_part(), self.coverage_part(), self.payload_part()) {
            (None, _, _, _, _) => Some(("endpoint"@, Violation::Absent)),
            (Some(_), None, _, _, _) => Some(("origin"@, Violation::Absent)),
            (Some(_), Some(_), None, _, _) => Some(("window"@, Violation::Absent)),
            (Some(_), Some(_), Some(_), None, _) => Some(("coverage"@, Violation::Absent)),
            (Some(_), Some(_), Some(_), Some(_), None) => Some(("payload"@, Violation::Absent)),
            (Some(_), Some(_), Some(_), Some(coverage), Some(payload)) => batch_fault(coverage, payload),
        }
    }

    /// Validates and builds.
    ///
    /// Returns [`Invalid`] naming the first part that is absent, or the
    /// batch's rule when a graph claimed complete for a subject's subtree
    /// does not hold that subject or does not reach every resource from it.
    pub fn build(self) -> (made: Result<ObservationBatch, Invalid>)
        ensures
            reports(made, self.fault()),
            made matches Ok(batch) ==> Some(batch.endpoint_of()) == self.endpoint_part() && Some(batch.origin_of())
                == self.origin_part() && Some(batch.window_of()) == self.window_part() && Some(batch.coverage_of())
                == self.coverage_part() && Some(batch.payload_of()) == self.payload_part(),
    {
        let endpoint = match self.endpoint {
            Some(endpoint) => endpoint,
            None => {
                return Err(Invalid::field("endpoint", Violation::Absent));
            },
        };
        let origin = match self.origin {
            Some(origin) => origin,
            None => {
                return Err(Invalid::field("origin", Violation::Absent));
            },
        };
        let window = match self.window {
            Some(window) => window,
            None => {
                return Err(Invalid::field("window", Violation::Absent));
            },
        };
        let coverage = match self.coverage {
            Some(coverage) => coverage,
            None => {
                return Err(Invalid::field("coverage", Violation::Absent));
            },
        };
        match self.payload {
            Some(payload) => ObservationBatch::checked(endpoint, origin, window, coverage, payload),
            None => Err(Invalid::field("payload", Violation::Absent)),
        }
    }
}

// ------------------------------------------------------------------- wire

/// What decoding a wire payload reports, if anything, inside the field of
/// its variant.
pub open spec fn wire_payload_fault(payload: wire::BatchPayload) -> Option<Fault> {
    match payload {
        wire::BatchPayload::Readings(inner) => fault_at("readings"@, wire_readings_fault(inner)),
        wire::BatchPayload::Logs(inner) => fault_at("logs"@, wire_logs_fault(inner)),
        wire::BatchPayload::States(inner) => fault_at("states"@, wire_states_fault(inner)),
        wire::BatchPayload::Inventory(inner) => fault_at("inventory"@, wire_inventory_fault(inner)),
        wire::BatchPayload::Resources(inner) => fault_at("resources"@, wire_graph_fault(inner)),
    }
}

/// Whether `payload` is what the wire payload `wire` stands for.
pub open spec fn payload_decodes(wire: wire::BatchPayload, payload: Payload) -> bool {
    match (wire, payload) {
        (wire::BatchPayload::Readings(w), Payload::Readings(p)) => readings_decodes(w, p),
        (wire::BatchPayload::Logs(w), Payload::Logs(p)) => logs_decodes(w, p),
        (wire::BatchPayload::States(w), Payload::States(p)) => states_decodes(w, p),
        (wire::BatchPayload::Inventory(w), Payload::Inventory(p)) => inventory_decodes(w, p),
        (wire::BatchPayload::Resources(w), Payload::Resources(p)) => graph_decodes(w, p),
        _ => false,
    }
}

/// The batch's rule as it reads on the wire: a coverage claimed complete
/// for a scope, over a wire graph.
pub open spec fn wire_rule_fault(coverage: wire::Coverage, payload: wire::BatchPayload) -> Option<Fault> {
    match (payload, coverage.completeness, coverage.scope) {
        (wire::BatchPayload::Resources(graph), Some(number), Some(scope)) => if completeness_of(number) == Ok::<
            Completeness,
            crate::schema::invalid::Violation,
        >(Completeness::Complete) {
            subtree_fault(wire_resource_subjects(graph.resources@), wire_relation_views(graph.relations@), wire_subject_view(scope))
        } else {
            None
        },
        _ => None,
    }
}

/// What decoding a wire batch reports, if anything: each part in turn,
/// absent or faulty, then the batch's rule.
pub open spec fn wire_batch_fault(wire: wire::ObservationBatch) -> Option<Fault> {
    match wire.endpoint {
        None => Some(("endpoint"@, Violation::Absent)),
        Some(endpoint) => first_fault(
            fault_at("endpoint"@, wire_endpoint_fault(endpoint)),
            match wire.origin {
                None => Some(("origin"@, Violation::Absent)),
                Some(origin) => first_fault(
                    fault_at("origin"@, origin_parts_fault(optional_text(origin.provider), optional_text(origin.request_class))),
                    match wire.window {
                        None => Some(("window"@, Violation::Absent)),
                        Some(window) => first_fault(
                            fault_at("window"@, wire_window_fault(window)),
                            match wire.coverage {
                                None => Some(("coverage"@, Violation::Absent)),
                                Some(coverage) => first_fault(
                                    fault_at("coverage"@, wire_coverage_fault(coverage)),
                                    match wire.payload {
                                        None => Some(("payload"@, Violation::Absent)),
                                        Some(payload) => first_fault(wire_payload_fault(payload), wire_rule_fault(coverage, payload)),
                                    },
                                ),
                            },
                        ),
                    },
                ),
            },
        ),
    }
}

/// Whether `batch` is what the wire batch `wire` stands for.
pub open spec fn batch_decodes(wire: wire::ObservationBatch, batch: ObservationBatch) -> bool {
    &&& wire.endpoint matches Some(endpoint) && endpoint_decodes(endpoint, batch.endpoint_of())
    &&& wire.origin matches Some(origin) && optional_text(origin.provider) == Some(batch.origin_of()@.0) && optional_text(
        origin.request_class,
    ) == Some(batch.origin_of()@.1)
    &&& wire.window matches Some(window) && window_decodes(window, batch.window_of())
    &&& wire.coverage matches Some(coverage) && coverage.completeness == Some(
        completeness_of_number(batch.coverage_of().completeness_of()),
    ) && optional_subject_decodes(coverage.scope, batch.coverage_of().scope_of())
    &&& wire.payload matches Some(payload) && payload_decodes(payload, batch.payload_of())
}

/// Building and decoding judge a batch alike: for a coverage and payload
/// that wire forms stand for, the batch's rule says the same of the decoded
/// parts as of their wire forms.
pub proof fn law_rule_agrees_on_wire(wire_coverage: wire::Coverage, wire_payload: wire::BatchPayload, coverage: Coverage, payload: Payload)
    requires
        wire_coverage.completeness matches Some(number) && completeness_of(number) == Ok::<Completeness, Violation>(
            coverage.completeness_of(),
        ),
        optional_subject_decodes(wire_coverage.scope, coverage.scope_of()),
        payload_decodes(wire_payload, payload),
    ensures
        batch_fault(coverage, payload) == wire_rule_fault(wire_coverage, wire_payload),
{
    match (wire_payload, payload) {
        (wire::BatchPayload::Resources(w), Payload::Resources(graph)) => {
            assert forall|k: int| 0 <= k < w.resources@.len() implies #[trigger] resource_subjects(graph.resources_of())[k]
                == wire_resource_subjects(w.resources@)[k] by {
                assert(crate::schema::graph::resource_decodes(w.resources@[k], graph.resources_of()[k]));
            }
            assert(resource_subjects(graph.resources_of()) =~= wire_resource_subjects(w.resources@));
            assert forall|k: int| 0 <= k < w.relations@.len() implies #[trigger] relation_views(graph.relations_of())[k]
                == wire_relation_views(w.relations@)[k] by {
                assert(crate::schema::messages::relation_decodes(w.relations@[k], graph.relations_of()[k]));
            }
            assert(relation_views(graph.relations_of()) =~= wire_relation_views(w.relations@));
        },
        _ => {},
    }
}

/// Decodes a wire payload, reporting a fault inside the field of its variant.
fn payload_from_wire(wire: wire::BatchPayload) -> (made: Result<Payload, Invalid>)
    ensures
        reports(made, wire_payload_fault(wire)),
        made matches Ok(payload) ==> payload_decodes(wire, payload),
{
    match wire {
        wire::BatchPayload::Readings(inner) => match Readings::try_from(inner) {
            Ok(readings) => Ok(Payload::Readings(readings)),
            Err(error) => Err(error.at("readings")),
        },
        wire::BatchPayload::Logs(inner) => match Logs::try_from(inner) {
            Ok(logs) => Ok(Payload::Logs(logs)),
            Err(error) => Err(error.at("logs")),
        },
        wire::BatchPayload::States(inner) => match States::try_from(inner) {
            Ok(states) => Ok(Payload::States(states)),
            Err(error) => Err(error.at("states")),
        },
        wire::BatchPayload::Inventory(inner) => match Inventory::try_from(inner) {
            Ok(inventory) => Ok(Payload::Inventory(inventory)),
            Err(error) => Err(error.at("inventory")),
        },
        wire::BatchPayload::Resources(inner) => match ResourceGraph::try_from(inner) {
            Ok(graph) => Ok(Payload::Resources(graph)),
            Err(error) => Err(error.at("resources")),
        },
    }
}

impl TryFrom<wire::ObservationBatch> for ObservationBatch {
    type Error = Invalid;

    fn try_from(wire: wire::ObservationBatch) -> (made: Result<ObservationBatch, Invalid>)
        ensures
            reports(made, wire_batch_fault(wire)),
            made matches Ok(batch) ==> batch_decodes(wire, batch),
    {
        let ghost whole = wire;
        let endpoint = match wire.endpoint {
            Some(endpoint) => endpoint,
            None => {
                return Err(Invalid::field("endpoint", Violation::Absent));
            },
        };
        let ghost wire_endpoint = endpoint;
        let endpoint = match EndpointContext::try_from(endpoint) {
            Ok(endpoint) => endpoint,
            Err(error) => {
                return Err(error.at("endpoint"));
            },
        };
        let origin = match wire.origin {
            Some(origin) => origin,
            None => {
                return Err(Invalid::field("origin", Violation::Absent));
            },
        };
        let origin = match Origin::try_from(origin) {
            Ok(origin) => origin,
            Err(error) => {
                return Err(error.at("origin"));
            },
        };
        let window = match wire.window {
            Some(window) => window,
            None => {
                return Err(Invalid::field("window", Violation::Absent));
            },
        };
        let window = match ObservationWindow::try_from(window) {
            Ok(window) => window,
            Err(error) => {
                return Err(error.at("window"));
            },
        };
        let wire_coverage = match wire.coverage {
            Some(coverage) => coverage,
            None => {
                return Err(Invalid::field("coverage", Violation::Absent));
            },
        };
        let ghost kept_coverage = wire_coverage;
        let coverage = match Coverage::try_from(wire_coverage) {
            Ok(coverage) => coverage,
            Err(error) => {
                return Err(error.at("coverage"));
            },
        };
        let wire_payload = match wire.payload {
            Some(payload) => payload,
            None => {
                return Err(Invalid::field("payload", Violation::Absent));
            },
        };
        let ghost kept_payload = wire_payload;
        let payload = match payload_from_wire(wire_payload) {
            Ok(payload) => payload,
            Err(error) => {
                return Err(error);
            },
        };
        proof {
            law_rule_agrees_on_wire(kept_coverage, kept_payload, coverage, payload);
        }
        ObservationBatch::checked(endpoint, origin, window, coverage, payload)
    }
}

impl vstd::std_specs::convert::TryFromSpecImpl<wire::ObservationBatch> for ObservationBatch {
    open spec fn obeys_try_from_spec() -> bool {
        false
    }

    open spec fn try_from_spec(wire: wire::ObservationBatch) -> Result<ObservationBatch, Invalid> {
        arbitrary()
    }
}

/// Whether a batch's wire form stands for it again: its completeness is one
/// the wire tells apart, and any log severities are too.
pub open spec fn batch_canonical(batch: ObservationBatch) -> bool {
    &&& completeness_of(completeness_of_number(batch.coverage_of().completeness_of())) == Ok::<Completeness, Violation>(
        batch.coverage_of().completeness_of(),
    )
    &&& batch.payload_of() matches Payload::Logs(logs) ==> forall|k: int|
        0 <= k < logs.records_of().len() ==> severity_canonical(#[trigger] logs.records_of()[k].severity_value())
}

/// The wire form of a payload.
fn payload_into_wire(payload: Payload) -> (wire: wire::BatchPayload)
    ensures
        (payload matches Payload::Logs(logs) ==> forall|k: int|
            0 <= k < logs.records_of().len() ==> severity_canonical(#[trigger] logs.records_of()[k].severity_value()))
            ==> payload_decodes(wire, payload) && wire_payload_fault(wire) is None,
{
    match payload {
        Payload::Readings(inner) => wire::BatchPayload::Readings(wire::Readings::from(inner)),
        Payload::Logs(inner) => wire::BatchPayload::Logs(wire::Logs::from(inner)),
        Payload::States(inner) => wire::BatchPayload::States(wire::States::from(inner)),
        Payload::Inventory(inner) => wire::BatchPayload::Inventory(wire::Inventory::from(inner)),
        Payload::Resources(inner) => wire::BatchPayload::Resources(wire::ResourceGraph::from(inner)),
    }
}

impl From<ObservationBatch> for wire::ObservationBatch {
    /// The wire form; it decodes back, standing for the same batch, whenever
    /// the batch is canonical.
    fn from(value: ObservationBatch) -> (wire: wire::ObservationBatch)
        ensures
            wire.endpoint matches Some(endpoint) && endpoint_decodes(endpoint, value.endpoint_of()),
            wire.origin matches Some(origin) && optional_text(origin.provider) == Some(value.origin_of()@.0) && optional_text(
                origin.request_class,
            ) == Some(value.origin_of()@.1),
            wire.window matches Some(window) && window_decodes(window, value.window_of()),
            wire.coverage matches Some(coverage) && coverage.completeness == Some(
                completeness_of_number(value.coverage_of().completeness_of()),
            ) && optional_subject_decodes(coverage.scope, value.coverage_of().scope_of()),
            batch_canonical(value) ==> batch_decodes(wire, value) && wire_batch_fault(wire) is None,
    {
        proof {
            use_type_invariant(&value);
        }
        let ghost coverage = value.coverage;
        let ghost payload = value.payload;
        let wire_coverage = wire::Coverage::from(value.coverage);
        let wire_payload = payload_into_wire(value.payload);
        proof {
            if batch_canonical(value) {
                law_rule_agrees_on_wire(wire_coverage, wire_payload, coverage, payload);
            }
        }
        wire::ObservationBatch {
            endpoint: Some(wire::EndpointContext::from(value.endpoint)),
            origin: Some(wire::Origin::from(value.origin)),
            window: Some(wire::ObservationWindow::from(value.window)),
            coverage: Some(wire_coverage),
            payload: Some(wire_payload),
        }
    }
}

impl vstd::std_specs::convert::FromSpecImpl<ObservationBatch> for wire::ObservationBatch {
    open spec fn obeys_from_spec() -> bool {
        false
    }

    open spec fn from_spec(value: ObservationBatch) -> wire::ObservationBatch {
        arbitrary()
    }
}

} // verus!
