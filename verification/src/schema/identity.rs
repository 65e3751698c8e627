//! Validated identities: subjects and the signal keys built on them.

use vstd::prelude::*;

use crate::schema::invalid::{
    Fault, Invalid, Violation, check_optional_text, check_text, element_path, fault_at, first_fault, optional_text_fault,
    reports, text_fault, too_many,
};
use crate::schema::limits::{SIGNALKEY_FACET_MAX_LEN, SUBJECT_ID_MAX_LEN, SUBJECT_KIND_MAX_LEN, SUBJECT_SCOPE_MAX_ITEMS, SUBJECT_SCOPE_MAX_LEN};
use crate::schema::wire;

verus! {

/// The text of an optional string.
pub open spec fn optional_text(value: Option<String>) -> Option<Seq<char>> {
    match value {
        Some(text) => Some(text@),
        None => None,
    }
}

/// The texts of a list of strings.
pub open spec fn texts(values: Seq<String>) -> Seq<Seq<char>> {
    values.map_values(|value: String| value@)
}

proof fn lemma_texts_index(values: Seq<String>, j: int)
    requires
        0 <= j < values.len(),
    ensures
        texts(values)[j] == values[j]@,
        texts(values).len() == values.len(),
{
}

/// The fault of a repeated field over its element bound, if it is.
pub open spec fn count_fault(field: Seq<char>, count: nat, limit: u32) -> Option<Fault> {
    if count > limit {
        Some((field, Violation::TooMany { limit, actual: count as usize }))
    } else {
        None
    }
}

/// The first fault among the elements of a repeated text field, from
/// position `from` on; each element must be non-empty and within `limit`.
pub open spec fn elements_fault(field: Seq<char>, elements: Seq<Seq<char>>, limit: u32, from: int) -> Option<Fault>
    decreases elements.len() - from,
{
    if from < 0 || from >= elements.len() {
        None
    } else {
        first_fault(
            text_fault(element_path(field, from as nat), elements[from], limit),
            elements_fault(field, elements, limit, from + 1),
        )
    }
}

/// What is wrong with a subject's fields, checked in order, if anything.
pub open spec fn subject_fault(kind: Seq<char>, scope: Seq<Seq<char>>, id: Seq<char>) -> Option<Fault> {
    first_fault(
        text_fault("kind"@, kind, SUBJECT_KIND_MAX_LEN),
        first_fault(
            count_fault("scope"@, scope.len(), SUBJECT_SCOPE_MAX_ITEMS),
            first_fault(elements_fault("scope"@, scope, SUBJECT_SCOPE_MAX_LEN, 0), text_fault("id"@, id, SUBJECT_ID_MAX_LEN)),
        ),
    )
}

/// What building a subject from optional parts reports, if anything: each
/// absent required part in turn, then the subject's own checks.
pub open spec fn subject_parts_fault(kind: Option<Seq<char>>, scope: Seq<Seq<char>>, id: Option<Seq<char>>) -> Option<Fault> {
    match (kind, id) {
        (None, _) => Some(("kind"@, Violation::Absent)),
        (Some(_), None) => Some(("id"@, Violation::Absent)),
        (Some(kind), Some(id)) => subject_fault(kind, scope, id),
    }
}

/// Checks the elements of a repeated text field, in order.
fn check_elements(field: &str, elements: &Vec<String>, limit: u32) -> (checked: Result<(), Invalid>)
    ensures
        reports(checked, elements_fault(field@, texts(elements@), limit, 0)),
{
    let ghost all = texts(elements@);
    let mut i: usize = 0;
    while i < elements.len()
        invariant
            0 <= i <= elements.len(),
            all == texts(elements@),
            elements_fault(field@, all, limit, 0) == elements_fault(field@, all, limit, i as int),
        decreases elements.len() - i,
    {
        let element = elements[i].as_str();
        proof {
            assert(all[i as int] == element@);
        }
        if element.is_empty() {
            return Err(Invalid::element(field, i, Violation::Empty));
        }
        match crate::schema::invalid::too_long(element.len(), limit) {
            Some(violation) => {
                return Err(Invalid::element(field, i, violation));
            },
            None => {},
        }
        i = i + 1;
    }
    Ok(())
}

/// The texts of a list of strings, in order.
fn texts_of(values: &Vec<String>) -> (copy: Vec<String>)
    ensures
        texts(copy@) == texts(values@),
{
    let mut copy: Vec<String> = Vec::new();
    let mut i: usize = 0;
    while i < values.len()
        invariant
            0 <= i <= values.len(),
            texts(copy@) == texts(values@).subrange(0, i as int),
        decreases values.len() - i,
    {
        let ghost before = copy@;
        let item = values[i].clone();
        copy.push(item);
        proof {
            assert(copy@ =~= before.push(item));
            assert(texts(before).len() == before.len());
            assert(texts(values@).len() == values@.len());
            assert forall|j: int| 0 <= j < i + 1 implies #[trigger] texts(copy@)[j] == texts(values@).subrange(0, i + 1)[j] by {
                lemma_texts_index(copy@, j);
                lemma_texts_index(values@, j);
                if j < i {
                    lemma_texts_index(before, j);
                    assert(texts(before)[j] == texts(values@).subrange(0, i as int)[j]);
                    assert(copy@[j] == before[j]);
                } else {
                    assert(copy@[j] == item);
                }
            }
        }
        i = i + 1;
        proof {
            assert(texts(copy@) =~= texts(values@).subrange(0, i as int));
        }
    }
    proof {
        assert(texts(values@).subrange(0, i as int) =~= texts(values@));
    }
    copy
}

/// Validated form of the contract's `Subject`: a kind, an optional scope
/// path, and an id, none of them empty.
#[derive(Debug, PartialEq, Eq, PartialOrd, Ord, Hash)]
pub struct Subject {
    kind: String,
    scope: Vec<String>,
    id: String,
}

impl View for Subject {
    type V = (Seq<char>, Seq<Seq<char>>, Seq<char>);

    closed spec fn view(&self) -> (Seq<char>, Seq<Seq<char>>, Seq<char>) {
        (self.kind@, texts(self.scope@), self.id@)
    }
}

impl Subject {
    #[verifier::type_invariant]
    spec fn valid(self) -> bool {
        subject_fault(self.kind@, texts(self.scope@), self.id@) is None
    }

    /// A builder holding nothing yet.
    pub fn builder() -> (builder: SubjectBuilder)
        ensures
            builder@ == (None::<Seq<char>>, Seq::<Seq<char>>::empty(), None::<Seq<char>>),
    {
        SubjectBuilder { kind: None, scope: Vec::new(), id: None }
    }

    /// The `kind`.
    pub fn kind(&self) -> (kind: &str)
        ensures
            kind@ == self@.0,
    {
        self.kind.as_str()
    }

    /// The `scope`.
    pub fn scope(&self) -> (scope: &[String])
        ensures
            texts(scope@) == self@.1,
    {
        self.scope.as_slice()
    }

    /// The `id`.
    pub fn id(&self) -> (id: &str)
        ensures
            id@ == self@.2,
    {
        self.id.as_str()
    }

    /// Whether two subjects hold the same parts.
    pub fn same(&self, other: &Subject) -> (same: bool)
        ensures
            same == (self@ == other@),
    {
        if self.kind != other.kind || self.id != other.id || self.scope.len() != other.scope.len() {
            proof {
                if self.scope.len() != other.scope.len() {
                    assert(self@.1.len() != other@.1.len());
                }
            }
            return false;
        }
        let mut i: usize = 0;
        while i < self.scope.len()
            invariant
                0 <= i <= self.scope.len(),
                self.scope.len() == other.scope.len(),
                forall|j: int| 0 <= j < i ==> #[trigger] self.scope@[j]@ == other.scope@[j]@,
            decreases self.scope.len() - i,
        {
            if self.scope[i] != other.scope[i] {
                proof {
                    assert(self@.1[i as int] != other@.1[i as int]);
                }
                return false;
            }
            i = i + 1;
        }
        proof {
            assert(self@.1 =~= other@.1);
        }
        true
    }

    /// Validates parts taken from a builder or the wire.
    fn checked(kind: String, scope: Vec<String>, id: String) -> (made: Result<Subject, Invalid>)
        ensures
            reports(made, subject_fault(kind@, texts(scope@), id@)),
            made matches Ok(subject) ==> subject@ == (kind@, texts(scope@), id@),
    {
        match check_text("kind", kind.as_str(), SUBJECT_KIND_MAX_LEN) {
            Ok(()) => {},
            Err(error) => {
                return Err(error);
            },
        }
        match too_many(scope.len(), SUBJECT_SCOPE_MAX_ITEMS) {
            Some(violation) => {
                return Err(Invalid::field("scope", violation));
            },
            None => {},
        }
        match check_elements("scope", &scope, SUBJECT_SCOPE_MAX_LEN) {
            Ok(()) => {},
            Err(error) => {
                return Err(error);
            },
        }
        match check_text("id", id.as_str(), SUBJECT_ID_MAX_LEN) {
            Ok(()) => {},
            Err(error) => {
                return Err(error);
            },
        }
        Ok(Subject { kind, scope, id })
    }
}

impl Clone for Subject {
    fn clone(&self) -> (copy: Subject)
        ensures
            copy@ == self@,
    {
        proof {
            use_type_invariant(self);
        }
        Subject { kind: self.kind.clone(), scope: texts_of(&self.scope), id: self.id.clone() }
    }
}

/// Builds a [`Subject`]. Setters are infallible; [`build`](SubjectBuilder::build)
/// validates everything at once, exactly as decoding does.
#[derive(Debug)]
pub struct SubjectBuilder {
    kind: Option<String>,
    scope: Vec<String>,
    id: Option<String>,
}

impl View for SubjectBuilder {
    type V = (Option<Seq<char>>, Seq<Seq<char>>, Option<Seq<char>>);

    closed spec fn view(&self) -> (Option<Seq<char>>, Seq<Seq<char>>, Option<Seq<char>>) {
        (optional_text(self.kind), texts(self.scope@), optional_text(self.id))
    }
}

impl SubjectBuilder {
    /// Sets `kind`.
    pub fn kind(self, kind: &str) -> (builder: SubjectBuilder)
        ensures
            builder@ == (Some(kind@), self@.1, self@.2),
    {
        SubjectBuilder { kind: Some(kind.to_owned()), ..self }
    }

    /// Sets `scope`.
    pub fn scope(self, scope: Vec<String>) -> (builder: SubjectBuilder)
        ensures
            builder@ == (self@.0, texts(scope@), self@.2),
    {
        SubjectBuilder { scope, ..self }
    }

    /// Sets `id`.
    pub fn id(self, id: &str) -> (builder: SubjectBuilder)
        ensures
            builder@ == (self@.0, self@.1, Some(id@)),
    {
        SubjectBuilder { id: Some(id.to_owned()), ..self }
    }

    /// Validates and builds.
    ///
    /// Returns [`Invalid`] naming the first field that is absent or breaks
    /// its schema invariants.
    pub fn build(self) -> (made: Result<Subject, Invalid>)
        ensures
            reports(made, subject_parts_fault(self@.0, self@.1, self@.2)),
            made matches Ok(subject) ==> Some(subject@.0) == self@.0 && subject@.1 == self@.1 && Some(subject@.2) == self@.2,
    {
        let kind = match self.kind {
            Some(kind) => kind,
            None => {
                return Err(Invalid::field("kind", Violation::Absent));
            },
        };
        let id = match self.id {
            Some(id) => id,
            None => {
                return Err(Invalid::field("id", Violation::Absent));
            },
        };
        Subject::checked(kind, self.scope, id)
    }
}

/// What decoding a wire subject reports, if anything.
pub open spec fn wire_subject_fault(wire: wire::Subject) -> Option<Fault> {
    subject_parts_fault(optional_text(wire.kind), texts(wire.scope@), optional_text(wire.id))
}

impl TryFrom<wire::Subject> for Subject {
    type Error = Invalid;

    fn try_from(wire: wire::Subject) -> (made: Result<Subject, Invalid>)
        ensures
            reports(made, wire_subject_fault(wire)),
            made matches Ok(subject) ==> Some(subject@.0) == optional_text(wire.kind) && subject@.1 == texts(wire.scope@)
                && Some(subject@.2) == optional_text(wire.id),
    {
        let kind = match wire.kind {
            Some(kind) => kind,
            None => {
                return Err(Invalid::field("kind", Violation::Absent));
            },
        };
        let id = match wire.id {
            Some(id) => id,
            None => {
                return Err(Invalid::field("id", Violation::Absent));
            },
        };
        Subject::checked(kind, wire.scope, id)
    }
}

impl vstd::std_specs::convert::TryFromSpecImpl<wire::Subject> for Subject {
    open spec fn obeys_try_from_spec() -> bool {
        false
    }

    open spec fn try_from_spec(wire: wire::Subject) -> Result<Subject, Invalid> {
        arbitrary()
    }
}

impl From<Subject> for wire::Subject {
    fn from(value: Subject) -> (wire: wire::Subject)
        ensures
            optional_text(wire.kind) == Some(value@.0),
            texts(wire.scope@) == value@.1,
            optional_text(wire.id) == Some(value@.2),
            subject_decodes(wire, value@),
            wire_subject_fault(wire) is None,
    {
        proof {
            use_type_invariant(&value);
        }
        wire::Subject { kind: Some(value.kind), scope: value.scope, id: Some(value.id) }
    }
}

impl vstd::std_specs::convert::FromSpecImpl<Subject> for wire::Subject {
    open spec fn obeys_from_spec() -> bool {
        false
    }

    open spec fn from_spec(value: Subject) -> wire::Subject {
        arbitrary()
    }
}

/// Whether a subject with view `subject` is what the wire subject `wire`
/// stands for.
pub open spec fn subject_decodes(wire: wire::Subject, subject: (Seq<char>, Seq<Seq<char>>, Seq<char>)) -> bool {
    &&& optional_text(wire.kind) == Some(subject.0)
    &&& texts(wire.scope@) == subject.1
    &&& optional_text(wire.id) == Some(subject.2)
}

/// The subject view a wire subject decodes to, where it decodes.
pub open spec fn wire_subject_view(wire: wire::Subject) -> (Seq<char>, Seq<Seq<char>>, Seq<char>) {
    (
        match wire.kind {
            Some(kind) => kind@,
            None => Seq::empty(),
        },
        texts(wire.scope@),
        match wire.id {
            Some(id) => id@,
            None => Seq::empty(),
        },
    )
}

/// What is wrong with a signal key's own fields, if anything.
pub open spec fn signal_key_fault(facet: Option<Seq<char>>) -> Option<Fault> {
    optional_text_fault("facet"@, facet, SIGNALKEY_FACET_MAX_LEN)
}

/// Validated form of the contract's `SignalKey`: a subject and an optional
/// facet of it.
#[derive(Debug, PartialEq, Eq, PartialOrd, Ord, Hash)]
pub struct SignalKey {
    subject: Subject,
    facet: Option<String>,
}

impl View for SignalKey {
    type V = ((Seq<char>, Seq<Seq<char>>, Seq<char>), Option<Seq<char>>);

    closed spec fn view(&self) -> ((Seq<char>, Seq<Seq<char>>, Seq<char>), Option<Seq<char>>) {
        (self.subject@, optional_text(self.facet))
    }
}

impl SignalKey {
    #[verifier::type_invariant]
    spec fn valid(self) -> bool {
        signal_key_fault(optional_text(self.facet)) is None
    }

    /// A builder holding nothing yet.
    pub fn builder() -> (builder: SignalKeyBuilder)
        ensures
            builder.subject_part() is None,
            builder.facet_part() is None,
    {
        SignalKeyBuilder { subject: None, facet: None }
    }

    /// The `subject`.
    pub fn subject(&self) -> (subject: &Subject)
        ensures
            subject@ == self@.0,
    {
        &self.subject
    }

    /// The `facet`, when present.
    pub fn facet(&self) -> (facet: Option<&str>)
        ensures
            match facet {
                Some(text) => self@.1 == Some(text@),
                None => self@.1 is None,
            },
    {
        match &self.facet {
            Some(text) => Some(text.as_str()),
            None => None,
        }
    }

    fn checked(subject: Subject, facet: Option<String>) -> (made: Result<SignalKey, Invalid>)
        ensures
            reports(made, signal_key_fault(optional_text(facet))),
            made matches Ok(key) ==> key@ == (subject@, optional_text(facet)),
    {
        match check_optional_text("facet", &facet, SIGNALKEY_FACET_MAX_LEN) {
            Ok(()) => Ok(SignalKey { subject, facet }),
            Err(error) => Err(error),
        }
    }
}

impl Clone for SignalKey {
    fn clone(&self) -> (copy: SignalKey)
        ensures
            copy@ == self@,
    {
        proof {
            use_type_invariant(self);
        }
        SignalKey { subject: self.subject.clone(), facet: self.facet.clone() }
    }
}

/// Builds a [`SignalKey`]. Setters are infallible; [`build`](SignalKeyBuilder::build)
/// validates everything at once, exactly as decoding does.
#[derive(Debug)]
pub struct SignalKeyBuilder {
    subject: Option<Subject>,
    facet: Option<String>,
}

impl SignalKeyBuilder {
    /// The subject set so far.
    pub closed spec fn subject_part(self) -> Option<(Seq<char>, Seq<Seq<char>>, Seq<char>)> {
        match self.subject {
            Some(subject) => Some(subject@),
            None => None,
        }
    }

    /// The facet set so far.
    pub closed spec fn facet_part(self) -> Option<Seq<char>> {
        optional_text(self.facet)
    }

    /// Sets `subject`.
    pub fn subject(self, subject: Subject) -> (builder: SignalKeyBuilder)
        ensures
            builder.subject_part() == Some(subject@),
            builder.facet_part() == self.facet_part(),
    {
        SignalKeyBuilder { subject: Some(subject), ..self }
    }

    /// Sets `facet`.
    pub fn facet(self, facet: &str) -> (builder: SignalKeyBuilder)
        ensures
            builder.subject_part() == self.subject_part(),
            builder.facet_part() == Some(facet@),
    {
        SignalKeyBuilder { facet: Some(facet.to_owned()), ..self }
    }

    /// Validates and builds.
    ///
    /// Returns [`Invalid`] naming the first field that is absent or breaks
    /// its schema invariants.
    pub fn build(self) -> (made: Result<SignalKey, Invalid>)
        ensures
            reports(
                made,
                match self.subject_part() {
                    None => Some(("subject"@, Violation::Absent)),
                    Some(_) => signal_key_fault(self.facet_part()),
                },
            ),
            made matches Ok(key) ==> Some(key@.0) == self.subject_part() && key@.1 == self.facet_part(),
    {
        match self.subject {
            Some(subject) => SignalKey::checked(subject, self.facet),
            None => Err(Invalid::field("subject", Violation::Absent)),
        }
    }
}

/// Whether a signal key with view `key` is what the wire key `wire` stands
/// for.
pub open spec fn key_decodes(wire: wire::SignalKey, key: ((Seq<char>, Seq<Seq<char>>, Seq<char>), Option<Seq<char>>)) -> bool {
    &&& wire.subject matches Some(subject) && subject_decodes(subject, key.0)
    &&& optional_text(wire.facet) == key.1
}

/// What decoding a wire signal key reports, if anything.
pub open spec fn wire_signal_key_fault(wire: wire::SignalKey) -> Option<Fault> {
    match wire.subject {
        None => Some(("subject"@, Violation::Absent)),
        Some(subject) => first_fault(fault_at("subject"@, wire_subject_fault(subject)), signal_key_fault(optional_text(wire.facet))),
    }
}

impl TryFrom<wire::SignalKey> for SignalKey {
    type Error = Invalid;

    fn try_from(wire: wire::SignalKey) -> (made: Result<SignalKey, Invalid>)
        ensures
            reports(made, wire_signal_key_fault(wire)),
            made matches Ok(key) ==> key_decodes(wire, key@),
    {
        let subject = match wire.subject {
            Some(subject) => subject,
            None => {
                return Err(Invalid::field("subject", Violation::Absent));
            },
        };
        let subject = match Subject::try_from(subject) {
            Ok(subject) => subject,
            Err(error) => {
                return Err(error.at("subject"));
            },
        };
        SignalKey::checked(subject, wire.facet)
    }
}

impl vstd::std_specs::convert::TryFromSpecImpl<wire::SignalKey> for SignalKey {
    open spec fn obeys_try_from_spec() -> bool {
        false
    }

    open spec fn try_from_spec(wire: wire::SignalKey) -> Result<SignalKey, Invalid> {
        arbitrary()
    }
}

impl From<SignalKey> for wire::SignalKey {
    fn from(value: SignalKey) -> (wire: wire::SignalKey)
        ensures
            wire.subject matches Some(subject) && optional_text(subject.kind) == Some(value@.0.0) && texts(subject.scope@)
                == value@.0.1 && optional_text(subject.id) == Some(value@.0.2),
            optional_text(wire.facet) == value@.1,
            key_decodes(wire, value@),
            wire_signal_key_fault(wire) is None,
    {
        proof {
            use_type_invariant(&value);
        }
        wire::SignalKey { subject: Some(wire::Subject::from(value.subject)), facet: value.facet }
    }
}

impl vstd::std_specs::convert::FromSpecImpl<SignalKey> for wire::SignalKey {
    open spec fn obeys_from_spec() -> bool {
        false
    }

    open spec fn from_spec(value: SignalKey) -> wire::SignalKey {
        arbitrary()
    }
}

} // verus!
