//! What a validator says when it refuses.
//!
//! One error type for every validated construction, whether the message was
//! built or decoded: the same checks run on both paths, so the same error
//! comes back from both. It carries the path to the offending field, built
//! outward as the error propagates up the tree, so a refusal names
//! `resources[41].subject.id` rather than just "a subject id was empty".
//!
//! First failure only: a validator that collected everything wrong would do
//! unbounded work deciding to refuse.

use vstd::prelude::*;

use crate::order::text_bytes;
use crate::text::{append, append_char, append_decimal, decimal};

verus! {

/// What was wrong at the path.
#[derive(Clone, Copy, Debug, PartialEq, Eq)]
#[non_exhaustive]
pub enum Violation {
    /// A required field, or a required oneof, carried nothing.
    Absent,
    /// A non-empty string or bytes value was empty.
    Empty,
    /// A length bound was exceeded.
    TooLong {
        /// The schema's bound, in bytes.
        limit: u32,
        /// The offending length.
        actual: usize,
    },
    /// A count bound was exceeded.
    TooMany {
        /// The schema's bound.
        limit: u32,
        /// The offending count.
        actual: usize,
    },
    /// A finite field carried `NaN` or an infinity.
    NotFinite,
    /// An enum field that rejects the zero value carried it.
    Unspecified,
    /// Two elements collided on a uniqueness key, or a map carried one key
    /// twice.
    Duplicate,
    /// A depth bound was exceeded.
    TooDeep {
        /// The schema's bound, in logical levels.
        limit: u32,
    },
    /// A cross-field rule was broken; the text is the rule.
    Rule(&'static str),
}

/// What a violation says of itself.
pub open spec fn violation_text(violation: Violation) -> Seq<char> {
    match violation {
        Violation::Absent => "required but absent"@,
        Violation::Empty => "present but empty"@,
        Violation::TooLong { limit, actual } => decimal(actual as nat) + " bytes long, over the schema's bound of "@ + decimal(
            limit as nat,
        ),
        Violation::TooMany { limit, actual } => decimal(actual as nat) + " elements, over the schema's bound of "@ + decimal(
            limit as nat,
        ),
        Violation::NotFinite => "not a finite number"@,
        Violation::Unspecified => "carries the unspecified value"@,
        Violation::Duplicate => "duplicates another element's identity"@,
        Violation::TooDeep { limit } => "nested beyond the schema's bound of "@ + decimal(limit as nat) + " levels"@,
        Violation::Rule(rule) => rule@,
    }
}

impl Violation {
    /// The human-readable description of the violation.
    pub fn message(&self) -> (text: String)
        ensures
            text@ == violation_text(*self),
    {
        let mut text = String::new();
        match self {
            Violation::Absent => append(&mut text, "required but absent"),
            Violation::Empty => append(&mut text, "present but empty"),
            Violation::TooLong { limit, actual } => {
                append_decimal(&mut text, *actual as u64);
                append(&mut text, " bytes long, over the schema's bound of ");
                append_decimal(&mut text, *limit as u64);
            },
            Violation::TooMany { limit, actual } => {
                append_decimal(&mut text, *actual as u64);
                append(&mut text, " elements, over the schema's bound of ");
                append_decimal(&mut text, *limit as u64);
            },
            Violation::NotFinite => append(&mut text, "not a finite number"),
            Violation::Unspecified => append(&mut text, "carries the unspecified value"),
            Violation::Duplicate => append(&mut text, "duplicates another element's identity"),
            Violation::TooDeep { limit } => {
                append(&mut text, "nested beyond the schema's bound of ");
                append_decimal(&mut text, *limit as u64);
                append(&mut text, " levels");
            },
            Violation::Rule(rule) => append(&mut text, rule),
        }
        proof {
            assert(text@ =~= violation_text(*self));
        }
        text
    }
}

/// What a refusal says of itself: the path in backquotes, a colon, and what
/// was wrong there.
pub open spec fn invalid_text(error: Invalid) -> Seq<char> {
    "`"@ + error.path_of() + "`: "@ + violation_text(error.violation_of())
}

/// A message that failed validation, with the path that failed it.
#[derive(Clone, Debug, PartialEq, Eq)]
pub struct Invalid {
    /// Dotted path from the message being constructed to the field at fault,
    /// with indexes into repeated fields: `resources[41].subject.id`.
    path: String,
    violation: Violation,
}

/// A refusal as the contracts speak of it: the path, and what was wrong
/// there.
pub type Fault = (Seq<char>, Violation);

/// The path text naming element `index` of the repeated field `field`.
pub open spec fn element_path(field: Seq<char>, index: nat) -> Seq<char> {
    field.push('[') + decimal(index).push(']')
}

/// The path an error at `path` has once it bubbles out of `segment`.
pub open spec fn nested_path(segment: Seq<char>, path: Seq<char>) -> Seq<char> {
    if path.len() == 0 {
        segment
    } else {
        segment.push('.') + path
    }
}

/// The first of two possible faults, checked in order.
pub open spec fn first_fault(first: Option<Fault>, then: Option<Fault>) -> Option<Fault> {
    if first is Some {
        first
    } else {
        then
    }
}

/// The fault a fault inside field `segment` is reported as.
pub open spec fn fault_at(segment: Seq<char>, fault: Option<Fault>) -> Option<Fault> {
    match fault {
        Some((path, violation)) => Some((nested_path(segment, path), violation)),
        None => None,
    }
}

/// Whether `result` reports exactly `fault`: success when there is none, and
/// otherwise an error carrying its path and violation.
pub open spec fn reports<T>(result: Result<T, Invalid>, fault: Option<Fault>) -> bool {
    match result {
        Ok(_) => fault is None,
        Err(error) => fault == Some((error.path_of(), error.violation_of())),
    }
}

/// The violation for a length over a bound, if it is.
pub open spec fn length_fault(actual: nat, limit: u32) -> Option<Violation> {
    if actual > limit {
        Some(Violation::TooLong { limit, actual: actual as usize })
    } else {
        None
    }
}

/// The length in bytes of a text's UTF-8 encoding, as `str::len` reports it.
pub open spec fn byte_len(text: Seq<char>) -> nat {
    (text_bytes(text).len() as usize) as nat
}

/// The fault of a text field that must be non-empty and within `limit`
/// bytes.
pub open spec fn text_fault(field: Seq<char>, value: Seq<char>, limit: u32) -> Option<Fault> {
    if value.len() == 0 {
        Some((field, Violation::Empty))
    } else {
        match length_fault(byte_len(value), limit) {
            Some(violation) => Some((field, violation)),
            None => None,
        }
    }
}

/// The fault of an optional text field that, when present, must be
/// non-empty and within `limit` bytes.
pub open spec fn optional_text_fault(field: Seq<char>, value: Option<Seq<char>>, limit: u32) -> Option<Fault> {
    match value {
        Some(text) => text_fault(field, text, limit),
        None => None,
    }
}

/// The first fault, from `from` on, among the elements of the repeated
/// field `field`, each checked by `fault` and reported at its position.
pub open spec fn items_fault<A>(field: Seq<char>, items: Seq<A>, fault: spec_fn(A) -> Option<Fault>, from: int) -> Option<Fault>
    decreases items.len() - from,
{
    if from < 0 || from >= items.len() {
        None
    } else {
        first_fault(
            match fault(items[from]) {
                Some((path, violation)) => Some((nested_path(element_path(field, from as nat), path), violation)),
                None => None,
            },
            items_fault(field, items, fault, from + 1),
        )
    }
}

/// Elements before `to` are free of faults, so the first fault from `from`
/// is the first from `to`.
pub proof fn lemma_items_fault_skip<A>(field: Seq<char>, items: Seq<A>, fault: spec_fn(A) -> Option<Fault>, from: int, to: int)
    requires
        0 <= from <= to <= items.len(),
        forall|k: int| from <= k < to ==> #[trigger] fault(items[k]) is None,
    ensures
        items_fault(field, items, fault, from) == items_fault(field, items, fault, to),
    decreases to - from,
{
    if from < to {
        lemma_items_fault_skip(field, items, fault, from + 1, to);
        assert(fault(items[from]) is None);
    }
}

/// The first element, from `from` on, of `wanted` that `known` does not
/// hold, reported as breaking `rule` at its position in the repeated field
/// `field`.
pub open spec fn missing_fault<A>(field: Seq<char>, rule: &'static str, wanted: Seq<A>, known: Seq<A>, from: int) -> Option<Fault>
    decreases wanted.len() - from,
{
    if from < 0 || from >= wanted.len() {
        None
    } else if !known.contains(wanted[from]) {
        Some((element_path(field, from as nat), Violation::Rule(rule)))
    } else {
        missing_fault(field, rule, wanted, known, from + 1)
    }
}

/// Elements before `to` are all held, so the first missing from `from` is
/// the first missing from `to`.
pub proof fn lemma_missing_fault_skip<A>(field: Seq<char>, rule: &'static str, wanted: Seq<A>, known: Seq<A>, from: int, to: int)
    requires
        0 <= from <= to <= wanted.len(),
        forall|k: int| from <= k < to ==> known.contains(#[trigger] wanted[k]),
    ensures
        missing_fault(field, rule, wanted, known, from) == missing_fault(field, rule, wanted, known, to),
    decreases to - from,
{
    if from < to {
        lemma_missing_fault_skip(field, rule, wanted, known, from + 1, to);
    }
}

/// With nothing missing, every wanted element is known.
pub proof fn lemma_missing_none<A>(field: Seq<char>, rule: &'static str, wanted: Seq<A>, known: Seq<A>, from: int)
    requires
        0 <= from <= wanted.len(),
        missing_fault(field, rule, wanted, known, from) is None,
    ensures
        forall|k: int| from <= k < wanted.len() ==> known.contains(#[trigger] wanted[k]),
    decreases wanted.len() - from,
{
    if from < wanted.len() {
        lemma_missing_none(field, rule, wanted, known, from + 1);
    }
}

/// With no repeat, the keys are pairwise distinct.
pub proof fn lemma_repeat_none<A>(field: Seq<char>, keys: Seq<A>, from: int)
    requires
        0 <= from <= keys.len(),
        repeat_fault(field, keys, from) is None,
    ensures
        forall|k: int| from <= k < keys.len() ==> !#[trigger] repeats_earlier(keys, k),
    decreases keys.len() - from,
{
    if from < keys.len() {
        lemma_repeat_none(field, keys, from + 1);
    }
}

/// Whether the key at `index` repeats an earlier one.
pub open spec fn repeats_earlier<A>(keys: Seq<A>, index: int) -> bool {
    exists|j: int| 0 <= j < index && #[trigger] keys[j] == keys[index]
}

/// The first element, from `from` on, whose key repeats an earlier one,
/// reported as a duplicate at its position in the repeated field `field`.
pub open spec fn repeat_fault<A>(field: Seq<char>, keys: Seq<A>, from: int) -> Option<Fault>
    decreases keys.len() - from,
{
    if from < 0 || from >= keys.len() {
        None
    } else if repeats_earlier(keys, from) {
        Some((element_path(field, from as nat), Violation::Duplicate))
    } else {
        repeat_fault(field, keys, from + 1)
    }
}

/// No key before `to` repeats an earlier one, so the first repeat from
/// `from` is the first from `to`.
pub proof fn lemma_repeat_fault_skip<A>(field: Seq<char>, keys: Seq<A>, from: int, to: int)
    requires
        0 <= from <= to <= keys.len(),
        forall|k: int| from <= k < to ==> !#[trigger] repeats_earlier(keys, k),
    ensures
        repeat_fault(field, keys, from) == repeat_fault(field, keys, to),
    decreases to - from,
{
    if from < to {
        lemma_repeat_fault_skip(field, keys, from + 1, to);
    }
}

impl Invalid {
    /// The path at fault.
    pub closed spec fn path_of(self) -> Seq<char> {
        self.path@
    }

    /// What was wrong there.
    pub closed spec fn violation_of(self) -> Violation {
        self.violation
    }

    /// A violation at `field` of the message under construction.
    pub fn field(field: &str, violation: Violation) -> (error: Invalid)
        ensures
            error.path_of() == field@,
            error.violation_of() == violation,
    {
        Invalid { path: field.to_owned(), violation }
    }

    /// A violation at one element of the repeated field `field`.
    pub fn element(field: &str, index: usize, violation: Violation) -> (error: Invalid)
        ensures
            error.path_of() == element_path(field@, index as nat),
            error.violation_of() == violation,
    {
        let mut path = field.to_owned();
        append_char(&mut path, '[');
        append_decimal(&mut path, index as u64);
        append_char(&mut path, ']');
        proof {
            assert(path@ =~= element_path(field@, index as nat));
        }
        Invalid { path, violation }
    }

    /// Prefixes the path with the field this error bubbled out of.
    pub fn at(self, segment: &str) -> (error: Invalid)
        ensures
            error.path_of() == nested_path(segment@, self.path_of()),
            error.violation_of() == self.violation_of(),
    {
        if self.path.as_str().is_empty() {
            return Invalid { path: segment.to_owned(), violation: self.violation };
        }
        let mut path = segment.to_owned();
        append_char(&mut path, '.');
        append(&mut path, self.path.as_str());
        Invalid { path, violation: self.violation }
    }

    /// Prefixes the path with an element of a repeated field.
    pub fn at_index(self, segment: &str, index: usize) -> (error: Invalid)
        ensures
            error.path_of() == nested_path(element_path(segment@, index as nat), self.path_of()),
            error.violation_of() == self.violation_of(),
    {
        let mut prefix = segment.to_owned();
        append_char(&mut prefix, '[');
        append_decimal(&mut prefix, index as u64);
        append_char(&mut prefix, ']');
        proof {
            assert(prefix@ =~= element_path(segment@, index as nat));
        }
        self.at(prefix.as_str())
    }

    /// Dotted path from the constructed message to the field at fault.
    pub fn path(&self) -> (path: &str)
        ensures
            path@ == self.path_of(),
    {
        self.path.as_str()
    }

    /// What was wrong there.
    pub fn violation(&self) -> (violation: &Violation)
        ensures
            *violation == self.violation_of(),
    {
        &self.violation
    }

    /// The human-readable description: the path in backquotes, a colon, and
    /// what was wrong there.
    pub fn message(&self) -> (text: String)
        ensures
            text@ == invalid_text(*self),
    {
        let mut text = String::new();
        append(&mut text, "`");
        append(&mut text, self.path.as_str());
        append(&mut text, "`: ");
        let told = self.violation.message();
        append(&mut text, told.as_str());
        proof {
            assert(text@ =~= invalid_text(*self));
        }
        text
    }
}

/// The violation for a value over a byte bound, if it is.
pub fn too_long(actual: usize, limit: u32) -> (violation: Option<Violation>)
    ensures
        violation == length_fault(actual as nat, limit),
{
    if exceeds(actual, limit) {
        Some(Violation::TooLong { limit, actual })
    } else {
        None
    }
}

/// The violation for a collection over an element bound, if it is.
pub fn too_many(actual: usize, limit: u32) -> (violation: Option<Violation>)
    ensures
        violation == (if actual > limit {
            Some(Violation::TooMany { limit, actual })
        } else {
            None
        }),
{
    if exceeds(actual, limit) {
        Some(Violation::TooMany { limit, actual })
    } else {
        None
    }
}

fn exceeds(actual: usize, limit: u32) -> (over: bool)
    ensures
        over == (actual > limit),
{
    actual as u64 > limit as u64
}

/// Checks a text field that must be non-empty and within `limit` bytes.
pub fn check_text(field: &str, value: &str, limit: u32) -> (checked: Result<(), Invalid>)
    ensures
        reports(checked, text_fault(field@, value@, limit)),
{
    if value.is_empty() {
        return Err(Invalid::field(field, Violation::Empty));
    }
    match too_long(value.len(), limit) {
        Some(violation) => Err(Invalid::field(field, violation)),
        None => Ok(()),
    }
}

/// Checks an optional text field that, when present, must be non-empty and
/// within `limit` bytes.
pub fn check_optional_text(field: &str, value: &Option<String>, limit: u32) -> (checked: Result<(), Invalid>)
    ensures
        reports(
            checked,
            optional_text_fault(
                field@,
                match value {
                    Some(text) => Some(text@),
                    None => None,
                },
                limit,
            ),
        ),
{
    match value {
        Some(text) => check_text(field, text.as_str(), limit),
        None => Ok(()),
    }
}

} // verus!
