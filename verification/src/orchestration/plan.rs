//! The static planner: needs in, planned polls out.
//!
//! Selection is deterministic and explainable — the one polled declaration
//! serves every need — and validation is loud at plan time: a declaration
//! whose identity cannot form a wire `Origin` fails here, never at
//! status-build time.

use vstd::prelude::*;

use crate::schema::invalid::{Fault, Invalid, invalid_text, reports};
use crate::text::append;
use crate::schema::messages::{Origin, origin_parts_fault};
use crate::schema::records::EndpointContext;

verus! {

/// The longest cadence a plan accepts, in nanoseconds: 366 days. Anything
/// slower is a configuration error: instant arithmetic near the largest
/// duration would silently turn "poll every N" into "poll once, then never
/// again".
pub const MAX_CADENCE_NANOS: u128 = 31_622_400_000_000_000u128;

/// How a provider acquires its data.
#[derive(Clone, Copy, Debug, PartialEq, Eq, Structural)]
pub enum AcquisitionMode {
    /// The dispatcher polls it on a cadence.
    Polled,
    /// It delivers on its own schedule; planning does not poll it.
    Pushed,
}

/// What a provider declares about itself: its identity, how it acquires,
/// and what one request weighs in dispatcher tokens.
#[derive(Clone, Debug)]
pub struct ProviderDeclaration {
    provider: String,
    request_class: String,
    mode: AcquisitionMode,
    cost: u64,
}

impl ProviderDeclaration {
    pub closed spec fn provider_of(self) -> Seq<char> {
        self.provider@
    }

    pub closed spec fn request_class_of(self) -> Seq<char> {
        self.request_class@
    }

    pub closed spec fn mode_of(self) -> AcquisitionMode {
        self.mode
    }

    pub closed spec fn cost_of(self) -> u64 {
        self.cost
    }

    /// A polled provider.
    pub fn polled(provider: &str, request_class: &str, cost: u64) -> (made: ProviderDeclaration)
        ensures
            made.provider_of() == provider@,
            made.request_class_of() == request_class@,
            made.mode_of() == AcquisitionMode::Polled,
            made.cost_of() == cost,
    {
        ProviderDeclaration { provider: provider.to_owned(), request_class: request_class.to_owned(), mode: AcquisitionMode::Polled, cost }
    }

    /// A provider that delivers on its own schedule.
    pub fn pushed(provider: &str, request_class: &str, cost: u64) -> (made: ProviderDeclaration)
        ensures
            made.provider_of() == provider@,
            made.request_class_of() == request_class@,
            made.mode_of() == AcquisitionMode::Pushed,
            made.cost_of() == cost,
    {
        ProviderDeclaration { provider: provider.to_owned(), request_class: request_class.to_owned(), mode: AcquisitionMode::Pushed, cost }
    }

    /// The declared provider name.
    pub fn provider(&self) -> (provider: &str)
        ensures
            provider@ == self.provider_of(),
    {
        self.provider.as_str()
    }

    /// The declared request class.
    pub fn request_class(&self) -> (request_class: &str)
        ensures
            request_class@ == self.request_class_of(),
    {
        self.request_class.as_str()
    }

    /// How the provider acquires.
    pub fn mode(&self) -> (mode: AcquisitionMode)
        ensures
            mode == self.mode_of(),
    {
        self.mode
    }

    /// The declared request weight.
    pub fn cost(&self) -> (cost: u64)
        ensures
            cost == self.cost_of(),
    {
        self.cost
    }
}

/// One thing the embedder wants polled: a protocol-scoped target on one
/// endpoint, at a cadence given in nanoseconds. The target is opaque to
/// orchestration.
#[derive(Debug)]
pub struct PollNeed {
    endpoint: EndpointContext,
    target: String,
    cadence: u128,
}

impl PollNeed {
    pub closed spec fn endpoint_of(self) -> EndpointContext {
        self.endpoint
    }

    pub closed spec fn target_of(self) -> Seq<char> {
        self.target@
    }

    pub closed spec fn cadence_of(self) -> u128 {
        self.cadence
    }

    /// A need for `target` on `endpoint`, polled every `cadence` nanoseconds.
    pub fn new(endpoint: EndpointContext, target: &str, cadence: u128) -> (need: PollNeed)
        ensures
            need.endpoint_of() == endpoint,
            need.target_of() == target@,
            need.cadence_of() == cadence,
    {
        PollNeed { endpoint, target: target.to_owned(), cadence }
    }

    /// The endpoint the target lives on.
    pub fn endpoint(&self) -> (endpoint: &EndpointContext)
        ensures
            *endpoint == self.endpoint_of(),
    {
        &self.endpoint
    }

    /// The protocol-scoped locator of what to poll.
    pub fn target(&self) -> (target: &str)
        ensures
            target@ == self.target_of(),
    {
        self.target.as_str()
    }

    /// How often to poll, in nanoseconds.
    pub fn cadence(&self) -> (cadence: u128)
        ensures
            cadence == self.cadence_of(),
    {
        self.cadence
    }
}

/// One resolved poll: the need plus the provider the plan selected for it,
/// already spelled as the wire `Origin` every batch and status will carry.
#[derive(Debug)]
pub struct PlannedPoll {
    endpoint: EndpointContext,
    target: String,
    origin: Origin,
    cadence: u128,
    cost: u64,
}

impl PlannedPoll {
    pub closed spec fn endpoint_of(self) -> EndpointContext {
        self.endpoint
    }

    pub closed spec fn target_of(self) -> Seq<char> {
        self.target@
    }

    pub closed spec fn origin_of(self) -> (Seq<char>, Seq<char>) {
        self.origin@
    }

    pub closed spec fn cadence_of(self) -> u128 {
        self.cadence
    }

    pub closed spec fn cost_of(self) -> u64 {
        self.cost
    }

    /// The endpoint the poll runs against.
    pub fn endpoint(&self) -> (endpoint: &EndpointContext)
        ensures
            *endpoint == self.endpoint_of(),
    {
        &self.endpoint
    }

    /// The protocol-scoped locator to poll.
    pub fn target(&self) -> (target: &str)
        ensures
            target@ == self.target_of(),
    {
        self.target.as_str()
    }

    /// The selected provider's identity.
    pub fn origin(&self) -> (origin: &Origin)
        ensures
            origin@ == self.origin_of(),
    {
        &self.origin
    }

    /// How often the poll runs, in nanoseconds.
    pub fn cadence(&self) -> (cadence: u128)
        ensures
            cadence == self.cadence_of(),
    {
        self.cadence
    }

    /// The declared request weight, in dispatcher token units.
    pub fn cost(&self) -> (cost: u64)
        ensures
            cost == self.cost_of(),
    {
        self.cost
    }
}

/// The resolved plan: every need, served.
#[derive(Debug)]
pub struct Plan {
    polls: Vec<PlannedPoll>,
}

impl Plan {
    pub closed spec fn polls_of(self) -> Seq<PlannedPoll> {
        self.polls@
    }

    /// The planned polls, in need order.
    pub fn polls(&self) -> (polls: &[PlannedPoll])
        ensures
            polls@ == self.polls_of(),
    {
        self.polls.as_slice()
    }
}

/// Why a plan could not be produced.
#[derive(Debug)]
pub enum PlanError {
    /// No declaration offers polled acquisition.
    NoPolledProvider,
    /// More than one declaration offers polled acquisition; need-to-provider
    /// matching does not exist yet, so a second provider is a loud error
    /// rather than a silent list-order coin toss.
    AmbiguousProviders,
    /// A declaration's identity cannot form a wire `Origin`.
    InvalidDeclaration {
        /// The declared provider name.
        provider: String,
        /// What the origin rejected.
        error: Invalid,
    },
    /// A declaration's request cost is zero, which would disable rate
    /// limiting entirely.
    ZeroCost {
        /// The declared provider name.
        provider: String,
    },
    /// A need's cadence is zero or beyond the year-long maximum.
    InvalidCadence {
        /// The need's target.
        target: String,
    },
}

/// What a refused plan says of itself.
pub open spec fn plan_error_text(error: PlanError) -> Seq<char> {
    match error {
        PlanError::NoPolledProvider => "no declaration offers polled acquisition"@,
        PlanError::AmbiguousProviders => "more than one declaration offers polled acquisition, and need-to-provider matching does not exist yet"@,
        PlanError::InvalidDeclaration { provider, error } => "declaration for `"@ + provider@ + "` cannot form a wire origin: "@
            + invalid_text(error),
        PlanError::ZeroCost { provider } => "declaration for `"@ + provider@ + "` costs zero, which would disable rate limiting"@,
        PlanError::InvalidCadence { target } => "cadence for `"@ + target@ + "` must be positive and at most a year"@,
    }
}

impl PlanError {
    /// The human-readable description of the refusal.
    pub fn message(&self) -> (text: String)
        ensures
            text@ == plan_error_text(*self),
    {
        let mut text = String::new();
        match self {
            PlanError::NoPolledProvider => append(&mut text, "no declaration offers polled acquisition"),
            PlanError::AmbiguousProviders => append(
                &mut text,
                "more than one declaration offers polled acquisition, and need-to-provider matching does not exist yet",
            ),
            PlanError::InvalidDeclaration { provider, error } => {
                append(&mut text, "declaration for `");
                append(&mut text, provider.as_str());
                append(&mut text, "` cannot form a wire origin: ");
                let told = error.message();
                append(&mut text, told.as_str());
            },
            PlanError::ZeroCost { provider } => {
                append(&mut text, "declaration for `");
                append(&mut text, provider.as_str());
                append(&mut text, "` costs zero, which would disable rate limiting");
            },
            PlanError::InvalidCadence { target } => {
                append(&mut text, "cadence for `");
                append(&mut text, target.as_str());
                append(&mut text, "` must be positive and at most a year");
            },
        }
        proof {
            assert(text@ =~= plan_error_text(*self));
        }
        text
    }
}

/// The first polled declaration at or after `from`, if any.
pub open spec fn first_polled(declarations: Seq<ProviderDeclaration>, from: int) -> Option<int>
    decreases declarations.len() - from,
{
    if from < 0 || from >= declarations.len() {
        None
    } else if declarations[from].mode_of() == AcquisitionMode::Polled {
        Some(from)
    } else {
        first_polled(declarations, from + 1)
    }
}

/// Whether a cadence can be planned: positive and at most a year.
pub open spec fn cadence_valid(cadence: u128) -> bool {
    0 < cadence <= MAX_CADENCE_NANOS
}

/// The first need, from `from` on, whose cadence cannot be planned.
pub open spec fn first_bad_cadence(needs: Seq<PollNeed>, from: int) -> Option<int>
    decreases needs.len() - from,
{
    if from < 0 || from >= needs.len() {
        None
    } else if !cadence_valid(needs[from].cadence_of()) {
        Some(from)
    } else {
        first_bad_cadence(needs, from + 1)
    }
}

/// The rejection planning owes, if any, described by kind: no polled
/// declaration; a second one; the selected declaration's zero cost (naming
/// it); its identity's fault as an origin; or the first need whose cadence
/// cannot be planned.
pub enum PlanRefusal {
    NoPolledProvider,
    AmbiguousProviders,
    ZeroCost(Seq<char>),
    InvalidDeclaration(Seq<char>, Fault),
    InvalidCadence(Seq<char>),
}

/// What planning `needs` against `declarations` refuses with, if anything.
pub open spec fn plan_refusal(needs: Seq<PollNeed>, declarations: Seq<ProviderDeclaration>) -> Option<PlanRefusal> {
    match first_polled(declarations, 0) {
        None => Some(PlanRefusal::NoPolledProvider),
        Some(i) => if first_polled(declarations, i + 1) is Some {
            Some(PlanRefusal::AmbiguousProviders)
        } else if declarations[i].cost_of() == 0 {
            Some(PlanRefusal::ZeroCost(declarations[i].provider_of()))
        } else {
            match origin_parts_fault(Some(declarations[i].provider_of()), Some(declarations[i].request_class_of())) {
                Some(fault) => Some(PlanRefusal::InvalidDeclaration(declarations[i].provider_of(), fault)),
                None => match first_bad_cadence(needs, 0) {
                    Some(k) => Some(PlanRefusal::InvalidCadence(needs[k].target_of())),
                    None => None,
                },
            }
        },
    }
}

/// Whether `error` is the rejection `refusal` describes.
pub open spec fn refuses_with(error: PlanError, refusal: PlanRefusal) -> bool {
    match (error, refusal) {
        (PlanError::NoPolledProvider, PlanRefusal::NoPolledProvider) => true,
        (PlanError::AmbiguousProviders, PlanRefusal::AmbiguousProviders) => true,
        (PlanError::ZeroCost { provider }, PlanRefusal::ZeroCost(name)) => provider@ == name,
        (PlanError::InvalidDeclaration { provider, error }, PlanRefusal::InvalidDeclaration(name, fault)) => provider@ == name
            && reports(Err::<(), Invalid>(error), Some(fault)),
        (PlanError::InvalidCadence { target }, PlanRefusal::InvalidCadence(name)) => target@ == name,
        _ => false,
    }
}

/// Whether `poll` serves `need` through the declaration `selected`.
pub open spec fn serves(poll: PlannedPoll, need: PollNeed, selected: ProviderDeclaration) -> bool {
    &&& poll.endpoint_of() == need.endpoint_of()
    &&& poll.target_of() == need.target_of()
    &&& poll.cadence_of() == need.cadence_of()
    &&& poll.origin_of() == (selected.provider_of(), selected.request_class_of())
    &&& poll.cost_of() == selected.cost_of()
}

/// Whether `plan` serves every need, in need order, through the one polled
/// declaration.
pub open spec fn planned_for(plan: Plan, needs: Seq<PollNeed>, declarations: Seq<ProviderDeclaration>) -> bool {
    &&& plan.polls_of().len() == needs.len()
    &&& first_polled(declarations, 0) matches Some(i) && forall|k: int|
        0 <= k < needs.len() ==> serves(#[trigger] plan.polls_of()[k], needs[k], declarations[i])
}

/// Finds the first polled declaration at or after `from`.
fn find_polled(declarations: &[ProviderDeclaration], from: usize) -> (found: Option<usize>)
    requires
        from <= declarations@.len(),
    ensures
        found is None <==> first_polled(declarations@, from as int) is None,
        found matches Some(i) ==> first_polled(declarations@, from as int) == Some(i as int) && from <= i < declarations@.len(),
{
    let mut i = from;
    while i < declarations.len()
        invariant
            from <= i <= declarations@.len(),
            first_polled(declarations@, from as int) == first_polled(declarations@, i as int),
        decreases declarations@.len() - i,
    {
        if declarations[i].mode() == AcquisitionMode::Polled {
            return Some(i);
        }
        i = i + 1;
    }
    None
}

/// Resolves needs against declarations: exactly one polled declaration
/// serves every need.
///
/// Refuses with [`PlanError::NoPolledProvider`] when nothing polls;
/// [`PlanError::AmbiguousProviders`] when more than one declaration does;
/// [`PlanError::ZeroCost`] and [`PlanError::InvalidDeclaration`] when the
/// selected declaration cannot be honored; and
/// [`PlanError::InvalidCadence`] naming the first need whose cadence is zero
/// or beyond a year.
pub fn plan(needs: Vec<PollNeed>, declarations: &[ProviderDeclaration]) -> (planned: Result<Plan, PlanError>)
    ensures
        match plan_refusal(needs@, declarations@) {
            Some(refusal) => planned matches Err(error) && refuses_with(error, refusal),
            None => planned matches Ok(plan) && planned_for(plan, needs@, declarations@),
        },
{
    let selected = match find_polled(declarations, 0) {
        Some(i) => i,
        None => {
            return Err(PlanError::NoPolledProvider);
        },
    };
    let count = declarations.len();
    proof {
        assert(selected < count);
    }
    if find_polled(declarations, selected + 1).is_some() {
        return Err(PlanError::AmbiguousProviders);
    }
    let declaration = &declarations[selected];
    if declaration.cost() == 0 {
        return Err(PlanError::ZeroCost { provider: declaration.provider().to_owned() });
    }
    let origin = match Origin::builder().provider(declaration.provider()).request_class(declaration.request_class()).build() {
        Ok(origin) => origin,
        Err(error) => {
            return Err(PlanError::InvalidDeclaration { provider: declaration.provider().to_owned(), error });
        },
    };
    let ghost all = needs@;
    let mut polls: Vec<PlannedPoll> = Vec::new();
    for need in it: needs.into_iter()
        invariant
            it.seq() == all,
            polls@.len() == it.index(),
            it.index() <= all.len(),
            origin@ == (declaration.provider_of(), declaration.request_class_of()),
            all == needs@,
            selected < declarations@.len(),
            *declaration == declarations@[selected as int],
            first_polled(declarations@, 0) == Some(selected as int),
            first_polled(declarations@, selected + 1) is None,
            declaration.cost_of() != 0,
            origin_parts_fault(Some(declaration.provider_of()), Some(declaration.request_class_of())) is None,
            first_bad_cadence(all, 0) == first_bad_cadence(all, it.index() as int),
            forall|k: int| 0 <= k < it.index() ==> serves(#[trigger] polls@[k], all[k], *declaration),
    {
        let index = polls.len();
        proof {
            assert(need == all[index as int]);
        }
        if need.cadence == 0 || need.cadence > MAX_CADENCE_NANOS {
            return Err(PlanError::InvalidCadence { target: need.target });
        }
        polls.push(
            PlannedPoll {
                endpoint: need.endpoint,
                target: need.target,
                origin: origin.clone(),
                cadence: need.cadence,
                cost: declaration.cost(),
            },
        );
    }
    Ok(Plan { polls })
}

} // verus!
