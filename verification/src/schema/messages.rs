//! Validated coverage, windows, provenance, relations and references.

use vstd::prelude::*;

use crate::schema::enums::{Completeness, completeness_of, completeness_of_number};
use crate::schema::identity::{Subject, optional_text, subject_decodes, texts, wire_subject_fault};
use crate::schema::invalid::{
    Fault, Invalid, Violation, check_optional_text, check_text, fault_at, first_fault, optional_text_fault, reports, text_fault,
};
use crate::schema::limits::{
    ORIGIN_PROVIDER_MAX_LEN, ORIGIN_REQUEST_CLASS_MAX_LEN, RESOURCERELATION_KIND_MAX_LEN, UNRESOLVEDREFERENCE_LOCATION_MAX_LEN,
    UNRESOLVEDREFERENCE_PROPERTY_MAX_LEN,
};
use crate::schema::value::{Timestamp, timestamp_of_wire, wire_timestamp_fault};
use crate::schema::wire;

verus! {

/// The view of an optional subject.
pub open spec fn optional_subject(value: Option<Subject>) -> Option<(Seq<char>, Seq<Seq<char>>, Seq<char>)> {
    match value {
        Some(subject) => Some(subject@),
        None => None,
    }
}

/// What decoding an optional wire subject inside `field` reports.
pub open spec fn optional_wire_subject_fault(field: Seq<char>, value: Option<wire::Subject>) -> Option<Fault> {
    match value {
        Some(subject) => fault_at(field, wire_subject_fault(subject)),
        None => None,
    }
}

/// Whether an optional subject view is what an optional wire subject stands
/// for.
pub open spec fn optional_subject_decodes(wire: Option<wire::Subject>, subject: Option<(Seq<char>, Seq<Seq<char>>, Seq<char>)>) -> bool {
    match (wire, subject) {
        (None, None) => true,
        (Some(w), Some(s)) => subject_decodes(w, s),
        _ => false,
    }
}

/// Decodes an optional wire subject, reporting a fault inside `field`.
pub(crate) fn optional_subject_from(field: &str, value: Option<wire::Subject>) -> (made: Result<Option<Subject>, Invalid>)
    ensures
        reports(made, optional_wire_subject_fault(field@, value)),
        made matches Ok(subject) ==> optional_subject_decodes(value, optional_subject(subject)),
{
    match value {
        Some(subject) => match Subject::try_from(subject) {
            Ok(subject) => Ok(Some(subject)),
            Err(error) => Err(error.at(field)),
        },
        None => Ok(None),
    }
}

// ---------------------------------------------------------------- Coverage

/// Validated form of the contract's `Coverage`: a completeness claim and
/// the subject it is scoped to, if any.
#[derive(Clone, Debug, PartialEq, Eq)]
pub struct Coverage {
    completeness: Completeness,
    scope: Option<Subject>,
}

impl Coverage {
    /// The claimed completeness.
    pub closed spec fn completeness_of(self) -> Completeness {
        self.completeness
    }

    /// The scope subject, if any.
    pub closed spec fn scope_of(self) -> Option<(Seq<char>, Seq<Seq<char>>, Seq<char>)> {
        optional_subject(self.scope)
    }

    /// A builder holding nothing yet.
    pub fn builder() -> (builder: CoverageBuilder)
        ensures
            builder.completeness_part() is None,
            builder.scope_part() is None,
    {
        CoverageBuilder { completeness: None, scope: None }
    }

    /// The `completeness`.
    pub fn completeness(&self) -> (completeness: Completeness)
        ensures
            completeness == self.completeness_of(),
    {
        self.completeness
    }

    /// The `scope`, when present.
    pub fn scope(&self) -> (scope: Option<&Subject>)
        ensures
            optional_subject(
                match scope {
                    Some(subject) => Some(*subject),
                    None => None,
                },
            ) == self.scope_of(),
    {
        match &self.scope {
            Some(subject) => Some(subject),
            None => None,
        }
    }
}

/// Builds a [`Coverage`]. Setters are infallible; [`build`](CoverageBuilder::build)
/// validates everything at once, exactly as decoding does.
#[derive(Debug)]
pub struct CoverageBuilder {
    completeness: Option<Completeness>,
    scope: Option<Subject>,
}

impl CoverageBuilder {
    /// The completeness set so far.
    pub closed spec fn completeness_part(self) -> Option<Completeness> {
        self.completeness
    }

    /// The scope set so far.
    pub closed spec fn scope_part(self) -> Option<(Seq<char>, Seq<Seq<char>>, Seq<char>)> {
        optional_subject(self.scope)
    }

    /// Sets `completeness`.
    pub fn completeness(self, completeness: Completeness) -> (builder: CoverageBuilder)
        ensures
            builder.completeness_part() == Some(completeness),
            builder.scope_part() == self.scope_part(),
    {
        CoverageBuilder { completeness: Some(completeness), ..self }
    }

    /// Sets `scope`.
    pub fn scope(self, scope: Subject) -> (builder: CoverageBuilder)
        ensures
            builder.completeness_part() == self.completeness_part(),
            builder.scope_part() == Some(scope@),
    {
        CoverageBuilder { scope: Some(scope), ..self }
    }

    /// Validates and builds.
    ///
    /// Returns [`Invalid`] naming the first field that is absent.
    pub fn build(self) -> (made: Result<Coverage, Invalid>)
        ensures
            reports(
                made,
                match self.completeness_part() {
                    None => Some(("completeness"@, Violation::Absent)),
                    Some(_) => None,
                },
            ),
            made matches Ok(coverage) ==> Some(coverage.completeness_of()) == self.completeness_part()
                && coverage.scope_of() == self.scope_part(),
    {
        match self.completeness {
            Some(completeness) => Ok(Coverage { completeness, scope: self.scope }),
            None => Err(Invalid::field("completeness", Violation::Absent)),
        }
    }
}

/// What decoding a wire coverage reports, if anything.
pub open spec fn wire_coverage_fault(wire: wire::Coverage) -> Option<Fault> {
    match wire.completeness {
        None => Some(("completeness"@, Violation::Absent)),
        Some(number) => match completeness_of(number) {
            Err(violation) => Some(("completeness"@, violation)),
            Ok(_) => optional_wire_subject_fault("scope"@, wire.scope),
        },
    }
}

impl TryFrom<wire::Coverage> for Coverage {
    type Error = Invalid;

    fn try_from(wire: wire::Coverage) -> (made: Result<Coverage, Invalid>)
        ensures
            reports(made, wire_coverage_fault(wire)),
            made matches Ok(coverage) ==> wire.completeness matches Some(number) && completeness_of(number) == Ok::<
                Completeness,
                Violation,
            >(coverage.completeness_of()),
            made matches Ok(coverage) ==> optional_subject_decodes(wire.scope, coverage.scope_of()),
    {
        let number = match wire.completeness {
            Some(number) => number,
            None => {
                return Err(Invalid::field("completeness", Violation::Absent));
            },
        };
        let completeness = match Completeness::try_from(number) {
            Ok(completeness) => completeness,
            Err(violation) => {
                return Err(Invalid::field("completeness", violation));
            },
        };
        match optional_subject_from("scope", wire.scope) {
            Ok(scope) => Ok(Coverage { completeness, scope }),
            Err(error) => Err(error),
        }
    }
}

impl vstd::std_specs::convert::TryFromSpecImpl<wire::Coverage> for Coverage {
    open spec fn obeys_try_from_spec() -> bool {
        false
    }

    open spec fn try_from_spec(wire: wire::Coverage) -> Result<Coverage, Invalid> {
        arbitrary()
    }
}

impl From<Coverage> for wire::Coverage {
    fn from(value: Coverage) -> (wire: wire::Coverage)
        ensures
            wire.completeness == Some(completeness_of_number(value.completeness_of())),
            optional_subject_decodes(wire.scope, value.scope_of()),
            optional_wire_subject_fault("scope"@, wire.scope) is None,
    {
        let scope = match value.scope {
            Some(subject) => Some(wire::Subject::from(subject)),
            None => None,
        };
        wire::Coverage { completeness: Some(i32::from(value.completeness)), scope }
    }
}

impl vstd::std_specs::convert::FromSpecImpl<Coverage> for wire::Coverage {
    open spec fn obeys_from_spec() -> bool {
        false
    }

    open spec fn from_spec(value: Coverage) -> wire::Coverage {
        arbitrary()
    }
}

// ------------------------------------------------------- ObservationWindow

/// The rule a window's end obeys.
pub const WINDOW_END_AFTER_START: &'static str = "a window's end falls after its start";

/// What is wrong with a window's bounds, if anything: an end that does not
/// fall strictly after the start.
pub open spec fn window_fault(start: Timestamp, end: Option<Timestamp>) -> Option<Fault> {
    match end {
        Some(end) => if end.at_nanos() <= start.at_nanos() {
            Some(("end"@, Violation::Rule(WINDOW_END_AFTER_START)))
        } else {
            None
        },
        None => None,
    }
}

/// Validated form of the contract's `ObservationWindow`: a start, and an end
/// strictly after it when the window is not a point.
#[derive(Clone, Copy, Debug, PartialEq, Eq)]
pub struct ObservationWindow {
    start: Timestamp,
    end: Option<Timestamp>,
}

impl ObservationWindow {
    #[verifier::type_invariant]
    spec fn ordered(self) -> bool {
        window_fault(self.start, self.end) is None
    }

    /// The start.
    pub closed spec fn start_of(self) -> Timestamp {
        self.start
    }

    /// The end, if any.
    pub closed spec fn end_of(self) -> Option<Timestamp> {
        self.end
    }

    /// A builder holding nothing yet.
    pub fn builder() -> (builder: ObservationWindowBuilder)
        ensures
            builder.start_part() is None,
            builder.end_part() is None,
    {
        ObservationWindowBuilder { start: None, end: None }
    }

    /// The `start`.
    pub fn start(&self) -> (start: &Timestamp)
        ensures
            *start == self.start_of(),
    {
        &self.start
    }

    /// The `end`, when present; always after the start.
    pub fn end(&self) -> (end: Option<&Timestamp>)
        ensures
            match end {
                Some(end) => self.end_of() == Some(*end) && end.at_nanos() > self.start_of().at_nanos(),
                None => self.end_of() is None,
            },
    {
        proof {
            use_type_invariant(self);
        }
        match &self.end {
            Some(end) => Some(end),
            None => None,
        }
    }

    fn checked(start: Timestamp, end: Option<Timestamp>) -> (made: Result<ObservationWindow, Invalid>)
        ensures
            reports(made, window_fault(start, end)),
            made matches Ok(window) ==> window.start_of() == start && window.end_of() == end,
    {
        if let Some(end) = end {
            if !end.is_after(start) {
                return Err(Invalid::field("end", Violation::Rule(WINDOW_END_AFTER_START)));
            }
        }
        Ok(ObservationWindow { start, end })
    }
}

/// Builds an [`ObservationWindow`]. Setters are infallible;
/// [`build`](ObservationWindowBuilder::build) validates everything at once,
/// exactly as decoding does.
#[derive(Clone, Copy, Debug)]
pub struct ObservationWindowBuilder {
    start: Option<Timestamp>,
    end: Option<Timestamp>,
}

impl ObservationWindowBuilder {
    /// The start set so far.
    pub closed spec fn start_part(self) -> Option<Timestamp> {
        self.start
    }

    /// The end set so far.
    pub closed spec fn end_part(self) -> Option<Timestamp> {
        self.end
    }

    /// Sets `start`.
    pub fn start(self, start: Timestamp) -> (builder: ObservationWindowBuilder)
        ensures
            builder.start_part() == Some(start),
            builder.end_part() == self.end_part(),
    {
        ObservationWindowBuilder { start: Some(start), ..self }
    }

    /// Sets `end`.
    pub fn end(self, end: Timestamp) -> (builder: ObservationWindowBuilder)
        ensures
            builder.start_part() == self.start_part(),
            builder.end_part() == Some(end),
    {
        ObservationWindowBuilder { end: Some(end), ..self }
    }

    /// Validates and builds.
    ///
    /// Returns [`Invalid`] naming the start if it is absent, or the end if it
    /// does not fall after the start.
    pub fn build(self) -> (made: Result<ObservationWindow, Invalid>)
        ensures
            reports(
                made,
                match self.start_part() {
                    None => Some(("start"@, Violation::Absent)),
                    Some(start) => window_fault(start, self.end_part()),
                },
            ),
            made matches Ok(window) ==> Some(window.start_of()) == self.start_part() && window.end_of() == self.end_part(),
    {
        match self.start {
            Some(start) => ObservationWindow::checked(start, self.end),
            None => Err(Invalid::field("start", Violation::Absent)),
        }
    }
}

/// Whether `window` is what the wire window `wire` stands for.
pub open spec fn window_decodes(wire: wire::ObservationWindow, window: ObservationWindow) -> bool {
    &&& wire.start matches Some(start) && timestamp_of_wire(start) == window.start_of()
    &&& match (wire.end, window.end_of()) {
        (Some(end), Some(t)) => timestamp_of_wire(end) == t,
        (None, None) => true,
        _ => false,
    }
}

/// What decoding a wire window reports, if anything.
pub open spec fn wire_window_fault(wire: wire::ObservationWindow) -> Option<Fault> {
    match wire.start {
        None => Some(("start"@, Violation::Absent)),
        Some(start) => match wire_timestamp_fault(start) {
            Some(fault) => fault_at("start"@, Some(fault)),
            None => match wire.end {
                Some(end) => match wire_timestamp_fault(end) {
                    Some(fault) => fault_at("end"@, Some(fault)),
                    None => window_fault(timestamp_of_wire(start), Some(timestamp_of_wire(end))),
                },
                None => window_fault(timestamp_of_wire(start), None),
            },
        },
    }
}

impl TryFrom<wire::ObservationWindow> for ObservationWindow {
    type Error = Invalid;

    fn try_from(wire: wire::ObservationWindow) -> (made: Result<ObservationWindow, Invalid>)
        ensures
            reports(made, wire_window_fault(wire)),
            made matches Ok(window) ==> window_decodes(wire, window),
    {
        let start = match wire.start {
            Some(start) => start,
            None => {
                return Err(Invalid::field("start", Violation::Absent));
            },
        };
        let start = match Timestamp::try_from(start) {
            Ok(start) => start,
            Err(error) => {
                return Err(error.at("start"));
            },
        };
        let end = match wire.end {
            Some(end) => match Timestamp::try_from(end) {
                Ok(end) => Some(end),
                Err(error) => {
                    return Err(error.at("end"));
                },
            },
            None => None,
        };
        ObservationWindow::checked(start, end)
    }
}

impl vstd::std_specs::convert::TryFromSpecImpl<wire::ObservationWindow> for ObservationWindow {
    open spec fn obeys_try_from_spec() -> bool {
        false
    }

    open spec fn try_from_spec(wire: wire::ObservationWindow) -> Result<ObservationWindow, Invalid> {
        arbitrary()
    }
}

impl From<ObservationWindow> for wire::ObservationWindow {
    fn from(value: ObservationWindow) -> (wire: wire::ObservationWindow)
        ensures
            wire.start == Some(wire::Timestamp { seconds: Some(value.start_of().secs()), nanos: Some(value.start_of().subsec()) }),
            match value.end_of() {
                Some(end) => wire.end == Some(wire::Timestamp { seconds: Some(end.secs()), nanos: Some(end.subsec()) }),
                None => wire.end is None,
            },
            window_decodes(wire, value),
            wire_window_fault(wire) is None,
    {
        proof {
            use_type_invariant(value);
        }
        let end = match value.end {
            Some(end) => Some(wire::Timestamp::from(end)),
            None => None,
        };
        wire::ObservationWindow { start: Some(wire::Timestamp::from(value.start)), end }
    }
}

impl vstd::std_specs::convert::FromSpecImpl<ObservationWindow> for wire::ObservationWindow {
    open spec fn obeys_from_spec() -> bool {
        false
    }

    open spec fn from_spec(value: ObservationWindow) -> wire::ObservationWindow {
        arbitrary()
    }
}

// ------------------------------------------------------------------ Origin

/// What is wrong with an origin's fields, checked in order, if anything.
pub open spec fn origin_fault(provider: Seq<char>, request_class: Seq<char>) -> Option<Fault> {
    first_fault(
        text_fault("provider"@, provider, ORIGIN_PROVIDER_MAX_LEN),
        text_fault("request_class"@, request_class, ORIGIN_REQUEST_CLASS_MAX_LEN),
    )
}

/// What building an origin from optional parts reports, if anything.
pub open spec fn origin_parts_fault(provider: Option<Seq<char>>, request_class: Option<Seq<char>>) -> Option<Fault> {
    match (provider, request_class) {
        (None, _) => Some(("provider"@, Violation::Absent)),
        (Some(_), None) => Some(("request_class"@, Violation::Absent)),
        (Some(provider), Some(request_class)) => origin_fault(provider, request_class),
    }
}

/// Validated form of the contract's `Origin`: which provider acquired a
/// batch, and with which class of request.
#[derive(Debug, PartialEq, Eq)]
pub struct Origin {
    provider: String,
    request_class: String,
}

impl View for Origin {
    type V = (Seq<char>, Seq<char>);

    closed spec fn view(&self) -> (Seq<char>, Seq<char>) {
        (self.provider@, self.request_class@)
    }
}

impl Origin {
    #[verifier::type_invariant]
    spec fn valid(self) -> bool {
        origin_fault(self.provider@, self.request_class@) is None
    }

    /// A builder holding nothing yet.
    pub fn builder() -> (builder: OriginBuilder)
        ensures
            builder@ == (None::<Seq<char>>, None::<Seq<char>>),
    {
        OriginBuilder { provider: None, request_class: None }
    }

    /// The `provider`.
    pub fn provider(&self) -> (provider: &str)
        ensures
            provider@ == self@.0,
    {
        self.provider.as_str()
    }

    /// The `request_class`.
    pub fn request_class(&self) -> (request_class: &str)
        ensures
            request_class@ == self@.1,
    {
        self.request_class.as_str()
    }

    fn checked(provider: String, request_class: String) -> (made: Result<Origin, Invalid>)
        ensures
            reports(made, origin_fault(provider@, request_class@)),
            made matches Ok(origin) ==> origin@ == (provider@, request_class@),
    {
        match check_text("provider", provider.as_str(), ORIGIN_PROVIDER_MAX_LEN) {
            Ok(()) => {},
            Err(error) => {
                return Err(error);
            },
        }
        match check_text("request_class", request_class.as_str(), ORIGIN_REQUEST_CLASS_MAX_LEN) {
            Ok(()) => Ok(Origin { provider, request_class }),
            Err(error) => Err(error),
        }
    }
}

impl Clone for Origin {
    fn clone(&self) -> (copy: Origin)
        ensures
            copy@ == self@,
    {
        proof {
            use_type_invariant(self);
        }
        Origin { provider: self.provider.clone(), request_class: self.request_class.clone() }
    }
}

/// Builds an [`Origin`]. Setters are infallible; [`build`](OriginBuilder::build)
/// validates everything at once, exactly as decoding does.
#[derive(Clone, Debug)]
pub struct OriginBuilder {
    provider: Option<String>,
    request_class: Option<String>,
}

impl View for OriginBuilder {
    type V = (Option<Seq<char>>, Option<Seq<char>>);

    closed spec fn view(&self) -> (Option<Seq<char>>, Option<Seq<char>>) {
        (optional_text(self.provider), optional_text(self.request_class))
    }
}

impl OriginBuilder {
    /// Sets `provider`.
    pub fn provider(self, provider: &str) -> (builder: OriginBuilder)
        ensures
            builder@ == (Some(provider@), self@.1),
    {
        OriginBuilder { provider: Some(provider.to_owned()), ..self }
    }

    /// Sets `request_class`.
    pub fn request_class(self, request_class: &str) -> (builder: OriginBuilder)
        ensures
            builder@ == (self@.0, Some(request_class@)),
    {
        OriginBuilder { request_class: Some(request_class.to_owned()), ..self }
    }

    /// Validates and builds.
    ///
    /// Returns [`Invalid`] naming the first field that is absent or breaks
    /// its schema invariants.
    pub fn build(self) -> (made: Result<Origin, Invalid>)
        ensures
            reports(made, origin_parts_fault(self@.0, self@.1)),
            made matches Ok(origin) ==> Some(origin@.0) == self@.0 && Some(origin@.1) == self@.1,
    {
        let provider = match self.provider {
            Some(provider) => provider,
            None => {
                return Err(Invalid::field("provider", Violation::Absent));
            },
        };
        match self.request_class {
            Some(request_class) => Origin::checked(provider, request_class),
            None => Err(Invalid::field("request_class", Violation::Absent)),
        }
    }
}

impl TryFrom<wire::Origin> for Origin {
    type Error = Invalid;

    fn try_from(wire: wire::Origin) -> (made: Result<Origin, Invalid>)
        ensures
            reports(made, origin_parts_fault(optional_text(wire.provider), optional_text(wire.request_class))),
            made matches Ok(origin) ==> Some(origin@.0) == optional_text(wire.provider) && Some(origin@.1) == optional_text(
                wire.request_class,
            ),
    {
        let provider = match wire.provider {
            Some(provider) => provider,
            None => {
                return Err(Invalid::field("provider", Violation::Absent));
            },
        };
        match wire.request_class {
            Some(request_class) => Origin::checked(provider, request_class),
            None => Err(Invalid::field("request_class", Violation::Absent)),
        }
    }
}

impl vstd::std_specs::convert::TryFromSpecImpl<wire::Origin> for Origin {
    open spec fn obeys_try_from_spec() -> bool {
        false
    }

    open spec fn try_from_spec(wire: wire::Origin) -> Result<Origin, Invalid> {
        arbitrary()
    }
}

impl From<Origin> for wire::Origin {
    fn from(value: Origin) -> (wire: wire::Origin)
        ensures
            optional_text(wire.provider) == Some(value@.0),
            optional_text(wire.request_class) == Some(value@.1),
            origin_parts_fault(optional_text(wire.provider), optional_text(wire.request_class)) is None,
    {
        proof {
            use_type_invariant(&value);
        }
        wire::Origin { provider: Some(value.provider), request_class: Some(value.request_class) }
    }
}

impl vstd::std_specs::convert::FromSpecImpl<Origin> for wire::Origin {
    open spec fn obeys_from_spec() -> bool {
        false
    }

    open spec fn from_spec(value: Origin) -> wire::Origin {
        arbitrary()
    }
}

// -------------------------------------------------------- ResourceRelation

/// What is wrong with a relation's own fields, if anything.
pub open spec fn relation_fault(kind: Seq<char>) -> Option<Fault> {
    text_fault("kind"@, kind, RESOURCERELATION_KIND_MAX_LEN)
}

/// Validated form of the contract's `ResourceRelation`: a typed edge from
/// one subject to another.
#[derive(Debug, PartialEq, Eq)]
pub struct ResourceRelation {
    source: Subject,
    target: Subject,
    kind: String,
}

impl ResourceRelation {
    #[verifier::type_invariant]
    spec fn valid(self) -> bool {
        relation_fault(self.kind@) is None
    }

    /// The source subject.
    pub closed spec fn source_of(self) -> (Seq<char>, Seq<Seq<char>>, Seq<char>) {
        self.source@
    }

    /// The target subject.
    pub closed spec fn target_of(self) -> (Seq<char>, Seq<Seq<char>>, Seq<char>) {
        self.target@
    }

    /// The kind of edge.
    pub closed spec fn kind_of(self) -> Seq<char> {
        self.kind@
    }

    /// A builder holding nothing yet.
    pub fn builder() -> (builder: ResourceRelationBuilder)
        ensures
            builder.source_part() is None,
            builder.target_part() is None,
            builder.kind_part() is None,
    {
        ResourceRelationBuilder { source: None, target: None, kind: None }
    }

    /// The `source`.
    pub fn source(&self) -> (source: &Subject)
        ensures
            source@ == self.source_of(),
    {
        &self.source
    }

    /// The `target`.
    pub fn target(&self) -> (target: &Subject)
        ensures
            target@ == self.target_of(),
    {
        &self.target
    }

    /// The `kind`.
    pub fn kind(&self) -> (kind: &str)
        ensures
            kind@ == self.kind_of(),
    {
        self.kind.as_str()
    }

    fn checked(source: Subject, target: Subject, kind: String) -> (made: Result<ResourceRelation, Invalid>)
        ensures
            reports(made, relation_fault(kind@)),
            made matches Ok(relation) ==> relation.source_of() == source@ && relation.target_of() == target@
                && relation.kind_of() == kind@,
    {
        match check_text("kind", kind.as_str(), RESOURCERELATION_KIND_MAX_LEN) {
            Ok(()) => Ok(ResourceRelation { source, target, kind }),
            Err(error) => Err(error),
        }
    }
}

impl Clone for ResourceRelation {
    fn clone(&self) -> (copy: ResourceRelation)
        ensures
            copy.source_of() == self.source_of(),
            copy.target_of() == self.target_of(),
            copy.kind_of() == self.kind_of(),
    {
        proof {
            use_type_invariant(self);
        }
        ResourceRelation { source: self.source.clone(), target: self.target.clone(), kind: self.kind.clone() }
    }
}

/// Builds a [`ResourceRelation`]. Setters are infallible;
/// [`build`](ResourceRelationBuilder::build) validates everything at once,
/// exactly as decoding does.
#[derive(Clone, Debug)]
pub struct ResourceRelationBuilder {
    source: Option<Subject>,
    target: Option<Subject>,
    kind: Option<String>,
}

impl ResourceRelationBuilder {
    /// The source set so far.
    pub closed spec fn source_part(self) -> Option<(Seq<char>, Seq<Seq<char>>, Seq<char>)> {
        optional_subject(self.source)
    }

    /// The target set so far.
    pub closed spec fn target_part(self) -> Option<(Seq<char>, Seq<Seq<char>>, Seq<char>)> {
        optional_subject(self.target)
    }

    /// The kind set so far.
    pub closed spec fn kind_part(self) -> Option<Seq<char>> {
        optional_text(self.kind)
    }

    /// Sets `source`.
    pub fn source(self, source: Subject) -> (builder: ResourceRelationBuilder)
        ensures
            builder.source_part() == Some(source@),
            builder.target_part() == self.target_part(),
            builder.kind_part() == self.kind_part(),
    {
        ResourceRelationBuilder { source: Some(source), ..self }
    }

    /// Sets `target`.
    pub fn target(self, target: Subject) -> (builder: ResourceRelationBuilder)
        ensures
            builder.source_part() == self.source_part(),
            builder.target_part() == Some(target@),
            builder.kind_part() == self.kind_part(),
    {
        ResourceRelationBuilder { target: Some(target), ..self }
    }

    /// Sets `kind`.
    pub fn kind(self, kind: &str) -> (builder: ResourceRelationBuilder)
        ensures
            builder.source_part() == self.source_part(),
            builder.target_part() == self.target_part(),
            builder.kind_part() == Some(kind@),
    {
        ResourceRelationBuilder { kind: Some(kind.to_owned()), ..self }
    }

    /// Validates and builds.
    ///
    /// Returns [`Invalid`] naming the first field that is absent or breaks
    /// its schema invariants.
    pub fn build(self) -> (made: Result<ResourceRelation, Invalid>)
        ensures
            reports(
                made,
                match (self.source_part(), self.target_part(), self.kind_part()) {
                    (None, _, _) => Some(("source"@, Violation::Absent)),
                    (Some(_), None, _) => Some(("target"@, Violation::Absent)),
                    (Some(_), Some(_), None) => Some(("kind"@, Violation::Absent)),
                    (Some(_), Some(_), Some(kind)) => relation_fault(kind),
                },
            ),
            made matches Ok(relation) ==> Some(relation.source_of()) == self.source_part() && Some(relation.target_of())
                == self.target_part() && Some(relation.kind_of()) == self.kind_part(),
    {
        let source = match self.source {
            Some(source) => source,
            None => {
                return Err(Invalid::field("source", Violation::Absent));
            },
        };
        let target = match self.target {
            Some(target) => target,
            None => {
                return Err(Invalid::field("target", Violation::Absent));
            },
        };
        match self.kind {
            Some(kind) => ResourceRelation::checked(source, target, kind),
            None => Err(Invalid::field("kind", Violation::Absent)),
        }
    }
}

/// What decoding a wire relation reports, if anything.
pub open spec fn wire_relation_fault(wire: wire::ResourceRelation) -> Option<Fault> {
    match (wire.source, wire.target) {
        (None, _) => Some(("source"@, Violation::Absent)),
        (Some(source), target) => match wire_subject_fault(source) {
            Some(fault) => fault_at("source"@, Some(fault)),
            None => match target {
                None => Some(("target"@, Violation::Absent)),
                Some(target) => match wire_subject_fault(target) {
                    Some(fault) => fault_at("target"@, Some(fault)),
                    None => match wire.kind {
                        None => Some(("kind"@, Violation::Absent)),
                        Some(kind) => relation_fault(kind@),
                    },
                },
            },
        },
    }
}

/// Whether `relation` is what the wire relation `wire` stands for.
pub open spec fn relation_decodes(wire: wire::ResourceRelation, relation: ResourceRelation) -> bool {
    &&& wire.source matches Some(source) && subject_decodes(source, relation.source_of())
    &&& wire.target matches Some(target) && subject_decodes(target, relation.target_of())
    &&& optional_text(wire.kind) == Some(relation.kind_of())
}

impl TryFrom<wire::ResourceRelation> for ResourceRelation {
    type Error = Invalid;

    fn try_from(wire: wire::ResourceRelation) -> (made: Result<ResourceRelation, Invalid>)
        ensures
            reports(made, wire_relation_fault(wire)),
            made matches Ok(relation) ==> relation_decodes(wire, relation),
    {
        let source = match wire.source {
            Some(source) => source,
            None => {
                return Err(Invalid::field("source", Violation::Absent));
            },
        };
        let source = match Subject::try_from(source) {
            Ok(source) => source,
            Err(error) => {
                return Err(error.at("source"));
            },
        };
        let target = match wire.target {
            Some(target) => target,
            None => {
                return Err(Invalid::field("target", Violation::Absent));
            },
        };
        let target = match Subject::try_from(target) {
            Ok(target) => target,
            Err(error) => {
                return Err(error.at("target"));
            },
        };
        match wire.kind {
            Some(kind) => ResourceRelation::checked(source, target, kind),
            None => Err(Invalid::field("kind", Violation::Absent)),
        }
    }
}

impl vstd::std_specs::convert::TryFromSpecImpl<wire::ResourceRelation> for ResourceRelation {
    open spec fn obeys_try_from_spec() -> bool {
        false
    }

    open spec fn try_from_spec(wire: wire::ResourceRelation) -> Result<ResourceRelation, Invalid> {
        arbitrary()
    }
}

impl From<ResourceRelation> for wire::ResourceRelation {
    fn from(value: ResourceRelation) -> (wire: wire::ResourceRelation)
        ensures
            wire.source is Some,
            wire.target is Some,
            optional_text(wire.kind) == Some(value.kind_of()),
            relation_decodes(wire, value),
            wire_relation_fault(wire) is None,
    {
        proof {
            use_type_invariant(&value);
        }
        wire::ResourceRelation {
            source: Some(wire::Subject::from(value.source)),
            target: Some(wire::Subject::from(value.target)),
            kind: Some(value.kind),
        }
    }
}

impl vstd::std_specs::convert::FromSpecImpl<ResourceRelation> for wire::ResourceRelation {
    open spec fn obeys_from_spec() -> bool {
        false
    }

    open spec fn from_spec(value: ResourceRelation) -> wire::ResourceRelation {
        arbitrary()
    }
}

// ----------------------------------------------------- UnresolvedReference

/// What is wrong with a reference's fields, checked in order, if anything.
pub open spec fn reference_fault(location: Seq<char>, property: Option<Seq<char>>) -> Option<Fault> {
    first_fault(
        text_fault("location"@, location, UNRESOLVEDREFERENCE_LOCATION_MAX_LEN),
        optional_text_fault("property"@, property, UNRESOLVEDREFERENCE_PROPERTY_MAX_LEN),
    )
}

/// What building a reference from optional parts reports, if anything.
pub open spec fn reference_parts_fault(location: Option<Seq<char>>, property: Option<Seq<char>>) -> Option<Fault> {
    match location {
        None => Some(("location"@, Violation::Absent)),
        Some(location) => reference_fault(location, property),
    }
}

/// Validated form of the contract's `UnresolvedReference`: a link whose
/// target's identity is not yet known, and the property that held it.
#[derive(Debug, PartialEq, Eq)]
pub struct UnresolvedReference {
    location: String,
    property: Option<String>,
}

impl View for UnresolvedReference {
    type V = (Seq<char>, Option<Seq<char>>);

    closed spec fn view(&self) -> (Seq<char>, Option<Seq<char>>) {
        (self.location@, optional_text(self.property))
    }
}

impl UnresolvedReference {
    #[verifier::type_invariant]
    spec fn valid(self) -> bool {
        reference_fault(self.location@, optional_text(self.property)) is None
    }

    /// A builder holding nothing yet.
    pub fn builder() -> (builder: UnresolvedReferenceBuilder)
        ensures
            builder@ == (None::<Seq<char>>, None::<Seq<char>>),
    {
        UnresolvedReferenceBuilder { location: None, property: None }
    }

    /// The `location`.
    pub fn location(&self) -> (location: &str)
        ensures
            location@ == self@.0,
    {
        self.location.as_str()
    }

    /// The `property`, when present.
    pub fn property(&self) -> (property: Option<&str>)
        ensures
            match property {
                Some(text) => self@.1 == Some(text@),
                None => self@.1 is None,
            },
    {
        match &self.property {
            Some(text) => Some(text.as_str()),
            None => None,
        }
    }

    fn checked(location: String, property: Option<String>) -> (made: Result<UnresolvedReference, Invalid>)
        ensures
            reports(made, reference_fault(location@, optional_text(property))),
            made matches Ok(reference) ==> reference@ == (location@, optional_text(property)),
    {
        match check_text("location", location.as_str(), UNRESOLVEDREFERENCE_LOCATION_MAX_LEN) {
            Ok(()) => {},
            Err(error) => {
                return Err(error);
            },
        }
        match check_optional_text("property", &property, UNRESOLVEDREFERENCE_PROPERTY_MAX_LEN) {
            Ok(()) => Ok(UnresolvedReference { location, property }),
            Err(error) => Err(error),
        }
    }
}

impl Clone for UnresolvedReference {
    fn clone(&self) -> (copy: UnresolvedReference)
        ensures
            copy@ == self@,
    {
        proof {
            use_type_invariant(self);
        }
        UnresolvedReference { location: self.location.clone(), property: self.property.clone() }
    }
}

/// Builds an [`UnresolvedReference`]. Setters are infallible;
/// [`build`](UnresolvedReferenceBuilder::build) validates everything at once,
/// exactly as decoding does.
#[derive(Clone, Debug)]
pub struct UnresolvedReferenceBuilder {
    location: Option<String>,
    property: Option<String>,
}

impl View for UnresolvedReferenceBuilder {
    type V = (Option<Seq<char>>, Option<Seq<char>>);

    closed spec fn view(&self) -> (Option<Seq<char>>, Option<Seq<char>>) {
        (optional_text(self.location), optional_text(self.property))
    }
}

impl UnresolvedReferenceBuilder {
    /// Sets `location`.
    pub fn location(self, location: &str) -> (builder: UnresolvedReferenceBuilder)
        ensures
            builder@ == (Some(location@), self@.1),
    {
        UnresolvedReferenceBuilder { location: Some(location.to_owned()), ..self }
    }

    /// Sets `property`.
    pub fn property(self, property: &str) -> (builder: UnresolvedReferenceBuilder)
        ensures
            builder@ == (self@.0, Some(property@)),
    {
        UnresolvedReferenceBuilder { property: Some(property.to_owned()), ..self }
    }

    /// Validates and builds.
    ///
    /// Returns [`Invalid`] naming the first field that is absent or breaks
    /// its schema invariants.
    pub fn build(self) -> (made: Result<UnresolvedReference, Invalid>)
        ensures
            reports(made, reference_parts_fault(self@.0, self@.1)),
            made matches Ok(reference) ==> Some(reference@.0) == self@.0 && reference@.1 == self@.1,
    {
        match self.location {
            Some(location) => UnresolvedReference::checked(location, self.property),
            None => Err(Invalid::field("location", Violation::Absent)),
        }
    }
}

impl TryFrom<wire::UnresolvedReference> for UnresolvedReference {
    type Error = Invalid;

    fn try_from(wire: wire::UnresolvedReference) -> (made: Result<UnresolvedReference, Invalid>)
        ensures
            reports(made, reference_parts_fault(optional_text(wire.location), optional_text(wire.property))),
            made matches Ok(reference) ==> Some(reference@.0) == optional_text(wire.location) && reference@.1 == optional_text(
                wire.property,
            ),
    {
        match wire.location {
            Some(location) => UnresolvedReference::checked(location, wire.property),
            None => Err(Invalid::field("location", Violation::Absent)),
        }
    }
}

impl vstd::std_specs::convert::TryFromSpecImpl<wire::UnresolvedReference> for UnresolvedReference {
    open spec fn obeys_try_from_spec() -> bool {
        false
    }

    open spec fn try_from_spec(wire: wire::UnresolvedReference) -> Result<UnresolvedReference, Invalid> {
        arbitrary()
    }
}

impl From<UnresolvedReference> for wire::UnresolvedReference {
    fn from(value: UnresolvedReference) -> (wire: wire::UnresolvedReference)
        ensures
            optional_text(wire.location) == Some(value@.0),
            optional_text(wire.property) == value@.1,
            reference_parts_fault(optional_text(wire.location), optional_text(wire.property)) is None,
    {
        proof {
            use_type_invariant(&value);
        }
        wire::UnresolvedReference { location: Some(value.location), property: value.property }
    }
}

impl vstd::std_specs::convert::FromSpecImpl<UnresolvedReference> for wire::UnresolvedReference {
    open spec fn obeys_from_spec() -> bool {
        false
    }

    open spec fn from_spec(value: UnresolvedReference) -> wire::UnresolvedReference {
        arbitrary()
    }
}

} // verus!
