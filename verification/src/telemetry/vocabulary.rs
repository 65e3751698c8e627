//! Newtypes over [`Name`] that keep one vocabulary from being passed where
//! another is expected.

use vstd::prelude::*;

use crate::order::{Order, order_of_bytes, text_bytes};
use crate::telemetry::name::Name;

verus! {

/// An attribute key, distinct from its value at the type level.
#[derive(Debug, Hash)]
pub struct AttrKey(Name);

impl View for AttrKey {
    type V = Seq<char>;

    closed spec fn view(&self) -> Seq<char> {
        self.0@
    }
}

impl AttrKey {
    pub fn from_static(value: &'static str) -> (made: AttrKey)
        ensures
            made@ == value@,
    {
        AttrKey(Name::from_static(value))
    }

    pub fn as_str(&self) -> (text: &str)
        ensures
            text@ == self@,
    {
        self.0.as_str()
    }

    /// Whether two values hold the same text.
    pub fn same(&self, other: &AttrKey) -> (same: bool)
        ensures
            same == (self@ == other@),
    {
        self.0.same(&other.0)
    }

    /// Orders by text, as `str` orders.
    pub fn compare(&self, other: &AttrKey) -> (order: Order)
        ensures
            order == order_of_bytes(text_bytes(self@), text_bytes(other@)),
            (order == Order::Equal) == (self@ == other@),
    {
        self.0.compare(&other.0)
    }
}

impl From<Name> for AttrKey {
    fn from(value: Name) -> (made: AttrKey)
        ensures
            made@ == value@,
    {
        AttrKey(value)
    }
}

impl vstd::std_specs::convert::FromSpecImpl<Name> for AttrKey {
    open spec fn obeys_from_spec() -> bool {
        true
    }

    closed spec fn from_spec(value: Name) -> AttrKey {
        AttrKey(value)
    }
}

impl From<String> for AttrKey {
    fn from(value: String) -> (made: AttrKey)
        ensures
            made@ == value@,
    {
        AttrKey(Name::from(value))
    }
}

impl vstd::std_specs::convert::FromSpecImpl<String> for AttrKey {
    open spec fn obeys_from_spec() -> bool {
        false
    }

    open spec fn from_spec(value: String) -> AttrKey {
        arbitrary()
    }
}

impl<'a> From<&'a str> for AttrKey {
    fn from(value: &'a str) -> (made: AttrKey)
        ensures
            made@ == value@,
    {
        AttrKey(Name::from(value))
    }
}

impl<'a> vstd::std_specs::convert::FromSpecImpl<&'a str> for AttrKey {
    open spec fn obeys_from_spec() -> bool {
        false
    }

    open spec fn from_spec(value: &'a str) -> AttrKey {
        arbitrary()
    }
}

impl Clone for AttrKey {
    fn clone(&self) -> (copy: AttrKey)
        ensures
            copy == *self,
    {
        AttrKey(self.0.clone())
    }
}

impl PartialEq for AttrKey {
    fn eq(&self, other: &AttrKey) -> (same: bool) {
        self.0 == other.0
    }
}

impl Eq for AttrKey {}

impl vstd::std_specs::cmp::PartialEqSpecImpl for AttrKey {
    open spec fn obeys_eq_spec() -> bool {
        true
    }

    open spec fn eq_spec(&self, other: &AttrKey) -> bool {
        self@ == other@
    }
}

/// Stable identity of an endpoint.
#[derive(Debug, Hash)]
pub struct EndpointId(Name);

impl View for EndpointId {
    type V = Seq<char>;

    closed spec fn view(&self) -> Seq<char> {
        self.0@
    }
}

impl EndpointId {
    pub fn from_static(value: &'static str) -> (made: EndpointId)
        ensures
            made@ == value@,
    {
        EndpointId(Name::from_static(value))
    }

    pub fn as_str(&self) -> (text: &str)
        ensures
            text@ == self@,
    {
        self.0.as_str()
    }

    /// Whether two values hold the same text.
    pub fn same(&self, other: &EndpointId) -> (same: bool)
        ensures
            same == (self@ == other@),
    {
        self.0.same(&other.0)
    }

    /// Orders by text, as `str` orders.
    pub fn compare(&self, other: &EndpointId) -> (order: Order)
        ensures
            order == order_of_bytes(text_bytes(self@), text_bytes(other@)),
            (order == Order::Equal) == (self@ == other@),
    {
        self.0.compare(&other.0)
    }
}

impl From<Name> for EndpointId {
    fn from(value: Name) -> (made: EndpointId)
        ensures
            made@ == value@,
    {
        EndpointId(value)
    }
}

impl vstd::std_specs::convert::FromSpecImpl<Name> for EndpointId {
    open spec fn obeys_from_spec() -> bool {
        true
    }

    closed spec fn from_spec(value: Name) -> EndpointId {
        EndpointId(value)
    }
}

impl From<String> for EndpointId {
    fn from(value: String) -> (made: EndpointId)
        ensures
            made@ == value@,
    {
        EndpointId(Name::from(value))
    }
}

impl vstd::std_specs::convert::FromSpecImpl<String> for EndpointId {
    open spec fn obeys_from_spec() -> bool {
        false
    }

    open spec fn from_spec(value: String) -> EndpointId {
        arbitrary()
    }
}

impl<'a> From<&'a str> for EndpointId {
    fn from(value: &'a str) -> (made: EndpointId)
        ensures
            made@ == value@,
    {
        EndpointId(Name::from(value))
    }
}

impl<'a> vstd::std_specs::convert::FromSpecImpl<&'a str> for EndpointId {
    open spec fn obeys_from_spec() -> bool {
        false
    }

    open spec fn from_spec(value: &'a str) -> EndpointId {
        arbitrary()
    }
}

impl Clone for EndpointId {
    fn clone(&self) -> (copy: EndpointId)
        ensures
            copy == *self,
    {
        EndpointId(self.0.clone())
    }
}

impl PartialEq for EndpointId {
    fn eq(&self, other: &EndpointId) -> (same: bool) {
        self.0 == other.0
    }
}

impl Eq for EndpointId {}

impl vstd::std_specs::cmp::PartialEqSpecImpl for EndpointId {
    open spec fn obeys_eq_spec() -> bool {
        true
    }

    open spec fn eq_spec(&self, other: &EndpointId) -> bool {
        self@ == other@
    }
}

/// What kind of thing a subject names, such as `sensor`.
#[derive(Debug, Hash)]
pub struct SubjectKind(Name);

impl View for SubjectKind {
    type V = Seq<char>;

    closed spec fn view(&self) -> Seq<char> {
        self.0@
    }
}

impl SubjectKind {
    pub fn from_static(value: &'static str) -> (made: SubjectKind)
        ensures
            made@ == value@,
    {
        SubjectKind(Name::from_static(value))
    }

    pub fn as_str(&self) -> (text: &str)
        ensures
            text@ == self@,
    {
        self.0.as_str()
    }

    /// Whether two values hold the same text.
    pub fn same(&self, other: &SubjectKind) -> (same: bool)
        ensures
            same == (self@ == other@),
    {
        self.0.same(&other.0)
    }

    /// Orders by text, as `str` orders.
    pub fn compare(&self, other: &SubjectKind) -> (order: Order)
        ensures
            order == order_of_bytes(text_bytes(self@), text_bytes(other@)),
            (order == Order::Equal) == (self@ == other@),
    {
        self.0.compare(&other.0)
    }
}

impl From<Name> for SubjectKind {
    fn from(value: Name) -> (made: SubjectKind)
        ensures
            made@ == value@,
    {
        SubjectKind(value)
    }
}

impl vstd::std_specs::convert::FromSpecImpl<Name> for SubjectKind {
    open spec fn obeys_from_spec() -> bool {
        true
    }

    closed spec fn from_spec(value: Name) -> SubjectKind {
        SubjectKind(value)
    }
}

impl From<String> for SubjectKind {
    fn from(value: String) -> (made: SubjectKind)
        ensures
            made@ == value@,
    {
        SubjectKind(Name::from(value))
    }
}

impl vstd::std_specs::convert::FromSpecImpl<String> for SubjectKind {
    open spec fn obeys_from_spec() -> bool {
        false
    }

    open spec fn from_spec(value: String) -> SubjectKind {
        arbitrary()
    }
}

impl<'a> From<&'a str> for SubjectKind {
    fn from(value: &'a str) -> (made: SubjectKind)
        ensures
            made@ == value@,
    {
        SubjectKind(Name::from(value))
    }
}

impl<'a> vstd::std_specs::convert::FromSpecImpl<&'a str> for SubjectKind {
    open spec fn obeys_from_spec() -> bool {
        false
    }

    open spec fn from_spec(value: &'a str) -> SubjectKind {
        arbitrary()
    }
}

impl Clone for SubjectKind {
    fn clone(&self) -> (copy: SubjectKind)
        ensures
            copy == *self,
    {
        SubjectKind(self.0.clone())
    }
}

impl PartialEq for SubjectKind {
    fn eq(&self, other: &SubjectKind) -> (same: bool) {
        self.0 == other.0
    }
}

impl Eq for SubjectKind {}

impl vstd::std_specs::cmp::PartialEqSpecImpl for SubjectKind {
    open spec fn obeys_eq_spec() -> bool {
        true
    }

    open spec fn eq_spec(&self, other: &SubjectKind) -> bool {
        self@ == other@
    }
}

/// Which thing of that kind a subject names, unique within its kind.
#[derive(Debug, Hash)]
pub struct SubjectId(Name);

impl View for SubjectId {
    type V = Seq<char>;

    closed spec fn view(&self) -> Seq<char> {
        self.0@
    }
}

impl SubjectId {
    pub fn from_static(value: &'static str) -> (made: SubjectId)
        ensures
            made@ == value@,
    {
        SubjectId(Name::from_static(value))
    }

    pub fn as_str(&self) -> (text: &str)
        ensures
            text@ == self@,
    {
        self.0.as_str()
    }

    /// Whether two values hold the same text.
    pub fn same(&self, other: &SubjectId) -> (same: bool)
        ensures
            same == (self@ == other@),
    {
        self.0.same(&other.0)
    }

    /// Orders by text, as `str` orders.
    pub fn compare(&self, other: &SubjectId) -> (order: Order)
        ensures
            order == order_of_bytes(text_bytes(self@), text_bytes(other@)),
            (order == Order::Equal) == (self@ == other@),
    {
        self.0.compare(&other.0)
    }
}

impl From<Name> for SubjectId {
    fn from(value: Name) -> (made: SubjectId)
        ensures
            made@ == value@,
    {
        SubjectId(value)
    }
}

impl vstd::std_specs::convert::FromSpecImpl<Name> for SubjectId {
    open spec fn obeys_from_spec() -> bool {
        true
    }

    closed spec fn from_spec(value: Name) -> SubjectId {
        SubjectId(value)
    }
}

impl From<String> for SubjectId {
    fn from(value: String) -> (made: SubjectId)
        ensures
            made@ == value@,
    {
        SubjectId(Name::from(value))
    }
}

impl vstd::std_specs::convert::FromSpecImpl<String> for SubjectId {
    open spec fn obeys_from_spec() -> bool {
        false
    }

    open spec fn from_spec(value: String) -> SubjectId {
        arbitrary()
    }
}

impl<'a> From<&'a str> for SubjectId {
    fn from(value: &'a str) -> (made: SubjectId)
        ensures
            made@ == value@,
    {
        SubjectId(Name::from(value))
    }
}

impl<'a> vstd::std_specs::convert::FromSpecImpl<&'a str> for SubjectId {
    open spec fn obeys_from_spec() -> bool {
        false
    }

    open spec fn from_spec(value: &'a str) -> SubjectId {
        arbitrary()
    }
}

impl Clone for SubjectId {
    fn clone(&self) -> (copy: SubjectId)
        ensures
            copy == *self,
    {
        SubjectId(self.0.clone())
    }
}

impl PartialEq for SubjectId {
    fn eq(&self, other: &SubjectId) -> (same: bool) {
        self.0 == other.0
    }
}

impl Eq for SubjectId {}

impl vstd::std_specs::cmp::PartialEqSpecImpl for SubjectId {
    open spec fn obeys_eq_spec() -> bool {
        true
    }

    open spec fn eq_spec(&self, other: &SubjectId) -> bool {
        self@ == other@
    }
}

/// A protocol-specific location from which an observation was obtained.
#[derive(Debug, Hash)]
pub struct SourceKey(Name);

impl View for SourceKey {
    type V = Seq<char>;

    closed spec fn view(&self) -> Seq<char> {
        self.0@
    }
}

impl SourceKey {
    pub fn from_static(value: &'static str) -> (made: SourceKey)
        ensures
            made@ == value@,
    {
        SourceKey(Name::from_static(value))
    }

    pub fn as_str(&self) -> (text: &str)
        ensures
            text@ == self@,
    {
        self.0.as_str()
    }

    /// Whether two values hold the same text.
    pub fn same(&self, other: &SourceKey) -> (same: bool)
        ensures
            same == (self@ == other@),
    {
        self.0.same(&other.0)
    }

    /// Orders by text, as `str` orders.
    pub fn compare(&self, other: &SourceKey) -> (order: Order)
        ensures
            order == order_of_bytes(text_bytes(self@), text_bytes(other@)),
            (order == Order::Equal) == (self@ == other@),
    {
        self.0.compare(&other.0)
    }
}

impl From<Name> for SourceKey {
    fn from(value: Name) -> (made: SourceKey)
        ensures
            made@ == value@,
    {
        SourceKey(value)
    }
}

impl vstd::std_specs::convert::FromSpecImpl<Name> for SourceKey {
    open spec fn obeys_from_spec() -> bool {
        true
    }

    closed spec fn from_spec(value: Name) -> SourceKey {
        SourceKey(value)
    }
}

impl From<String> for SourceKey {
    fn from(value: String) -> (made: SourceKey)
        ensures
            made@ == value@,
    {
        SourceKey(Name::from(value))
    }
}

impl vstd::std_specs::convert::FromSpecImpl<String> for SourceKey {
    open spec fn obeys_from_spec() -> bool {
        false
    }

    open spec fn from_spec(value: String) -> SourceKey {
        arbitrary()
    }
}

impl<'a> From<&'a str> for SourceKey {
    fn from(value: &'a str) -> (made: SourceKey)
        ensures
            made@ == value@,
    {
        SourceKey(Name::from(value))
    }
}

impl<'a> vstd::std_specs::convert::FromSpecImpl<&'a str> for SourceKey {
    open spec fn obeys_from_spec() -> bool {
        false
    }

    open spec fn from_spec(value: &'a str) -> SourceKey {
        arbitrary()
    }
}

impl Clone for SourceKey {
    fn clone(&self) -> (copy: SourceKey)
        ensures
            copy == *self,
    {
        SourceKey(self.0.clone())
    }
}

impl PartialEq for SourceKey {
    fn eq(&self, other: &SourceKey) -> (same: bool) {
        self.0 == other.0
    }
}

impl Eq for SourceKey {}

impl vstd::std_specs::cmp::PartialEqSpecImpl for SourceKey {
    open spec fn obeys_eq_spec() -> bool {
        true
    }

    open spec fn eq_spec(&self, other: &SourceKey) -> bool {
        self@ == other@
    }
}

/// Which acquisition source produced an observation, such as `redfish`.
#[derive(Debug, Hash)]
pub struct Provider(Name);

impl View for Provider {
    type V = Seq<char>;

    closed spec fn view(&self) -> Seq<char> {
        self.0@
    }
}

impl Provider {
    pub fn from_static(value: &'static str) -> (made: Provider)
        ensures
            made@ == value@,
    {
        Provider(Name::from_static(value))
    }

    pub fn as_str(&self) -> (text: &str)
        ensures
            text@ == self@,
    {
        self.0.as_str()
    }

    /// Whether two values hold the same text.
    pub fn same(&self, other: &Provider) -> (same: bool)
        ensures
            same == (self@ == other@),
    {
        self.0.same(&other.0)
    }

    /// Orders by text, as `str` orders.
    pub fn compare(&self, other: &Provider) -> (order: Order)
        ensures
            order == order_of_bytes(text_bytes(self@), text_bytes(other@)),
            (order == Order::Equal) == (self@ == other@),
    {
        self.0.compare(&other.0)
    }
}

impl From<Name> for Provider {
    fn from(value: Name) -> (made: Provider)
        ensures
            made@ == value@,
    {
        Provider(value)
    }
}

impl vstd::std_specs::convert::FromSpecImpl<Name> for Provider {
    open spec fn obeys_from_spec() -> bool {
        true
    }

    closed spec fn from_spec(value: Name) -> Provider {
        Provider(value)
    }
}

impl From<String> for Provider {
    fn from(value: String) -> (made: Provider)
        ensures
            made@ == value@,
    {
        Provider(Name::from(value))
    }
}

impl vstd::std_specs::convert::FromSpecImpl<String> for Provider {
    open spec fn obeys_from_spec() -> bool {
        false
    }

    open spec fn from_spec(value: String) -> Provider {
        arbitrary()
    }
}

impl<'a> From<&'a str> for Provider {
    fn from(value: &'a str) -> (made: Provider)
        ensures
            made@ == value@,
    {
        Provider(Name::from(value))
    }
}

impl<'a> vstd::std_specs::convert::FromSpecImpl<&'a str> for Provider {
    open spec fn obeys_from_spec() -> bool {
        false
    }

    open spec fn from_spec(value: &'a str) -> Provider {
        arbitrary()
    }
}

impl Clone for Provider {
    fn clone(&self) -> (copy: Provider)
        ensures
            copy == *self,
    {
        Provider(self.0.clone())
    }
}

impl PartialEq for Provider {
    fn eq(&self, other: &Provider) -> (same: bool) {
        self.0 == other.0
    }
}

impl Eq for Provider {}

impl vstd::std_specs::cmp::PartialEqSpecImpl for Provider {
    open spec fn obeys_eq_spec() -> bool {
        true
    }

    open spec fn eq_spec(&self, other: &Provider) -> bool {
        self@ == other@
    }
}

/// Which category of request produced an observation, as the caller's
/// scheduling and rate policy names it.
#[derive(Debug, Hash)]
pub struct RequestClass(Name);

impl View for RequestClass {
    type V = Seq<char>;

    closed spec fn view(&self) -> Seq<char> {
        self.0@
    }
}

impl RequestClass {
    pub fn from_static(value: &'static str) -> (made: RequestClass)
        ensures
            made@ == value@,
    {
        RequestClass(Name::from_static(value))
    }

    pub fn as_str(&self) -> (text: &str)
        ensures
            text@ == self@,
    {
        self.0.as_str()
    }

    /// Whether two values hold the same text.
    pub fn same(&self, other: &RequestClass) -> (same: bool)
        ensures
            same == (self@ == other@),
    {
        self.0.same(&other.0)
    }

    /// Orders by text, as `str` orders.
    pub fn compare(&self, other: &RequestClass) -> (order: Order)
        ensures
            order == order_of_bytes(text_bytes(self@), text_bytes(other@)),
            (order == Order::Equal) == (self@ == other@),
    {
        self.0.compare(&other.0)
    }
}

impl From<Name> for RequestClass {
    fn from(value: Name) -> (made: RequestClass)
        ensures
            made@ == value@,
    {
        RequestClass(value)
    }
}

impl vstd::std_specs::convert::FromSpecImpl<Name> for RequestClass {
    open spec fn obeys_from_spec() -> bool {
        true
    }

    closed spec fn from_spec(value: Name) -> RequestClass {
        RequestClass(value)
    }
}

impl From<String> for RequestClass {
    fn from(value: String) -> (made: RequestClass)
        ensures
            made@ == value@,
    {
        RequestClass(Name::from(value))
    }
}

impl vstd::std_specs::convert::FromSpecImpl<String> for RequestClass {
    open spec fn obeys_from_spec() -> bool {
        false
    }

    open spec fn from_spec(value: String) -> RequestClass {
        arbitrary()
    }
}

impl<'a> From<&'a str> for RequestClass {
    fn from(value: &'a str) -> (made: RequestClass)
        ensures
            made@ == value@,
    {
        RequestClass(Name::from(value))
    }
}

impl<'a> vstd::std_specs::convert::FromSpecImpl<&'a str> for RequestClass {
    open spec fn obeys_from_spec() -> bool {
        false
    }

    open spec fn from_spec(value: &'a str) -> RequestClass {
        arbitrary()
    }
}

impl Clone for RequestClass {
    fn clone(&self) -> (copy: RequestClass)
        ensures
            copy == *self,
    {
        RequestClass(self.0.clone())
    }
}

impl PartialEq for RequestClass {
    fn eq(&self, other: &RequestClass) -> (same: bool) {
        self.0 == other.0
    }
}

impl Eq for RequestClass {}

impl vstd::std_specs::cmp::PartialEqSpecImpl for RequestClass {
    open spec fn obeys_eq_spec() -> bool {
        true
    }

    open spec fn eq_spec(&self, other: &RequestClass) -> bool {
        self@ == other@
    }
}

/// Source-reported unit vocabulary.
#[derive(Debug, Hash)]
pub struct Unit(Name);

impl View for Unit {
    type V = Seq<char>;

    closed spec fn view(&self) -> Seq<char> {
        self.0@
    }
}

impl Unit {
    pub fn from_static(value: &'static str) -> (made: Unit)
        ensures
            made@ == value@,
    {
        Unit(Name::from_static(value))
    }

    pub fn as_str(&self) -> (text: &str)
        ensures
            text@ == self@,
    {
        self.0.as_str()
    }

    /// Whether two values hold the same text.
    pub fn same(&self, other: &Unit) -> (same: bool)
        ensures
            same == (self@ == other@),
    {
        self.0.same(&other.0)
    }

    /// Orders by text, as `str` orders.
    pub fn compare(&self, other: &Unit) -> (order: Order)
        ensures
            order == order_of_bytes(text_bytes(self@), text_bytes(other@)),
            (order == Order::Equal) == (self@ == other@),
    {
        self.0.compare(&other.0)
    }
}

impl From<Name> for Unit {
    fn from(value: Name) -> (made: Unit)
        ensures
            made@ == value@,
    {
        Unit(value)
    }
}

impl vstd::std_specs::convert::FromSpecImpl<Name> for Unit {
    open spec fn obeys_from_spec() -> bool {
        true
    }

    closed spec fn from_spec(value: Name) -> Unit {
        Unit(value)
    }
}

impl From<String> for Unit {
    fn from(value: String) -> (made: Unit)
        ensures
            made@ == value@,
    {
        Unit(Name::from(value))
    }
}

impl vstd::std_specs::convert::FromSpecImpl<String> for Unit {
    open spec fn obeys_from_spec() -> bool {
        false
    }

    open spec fn from_spec(value: String) -> Unit {
        arbitrary()
    }
}

impl<'a> From<&'a str> for Unit {
    fn from(value: &'a str) -> (made: Unit)
        ensures
            made@ == value@,
    {
        Unit(Name::from(value))
    }
}

impl<'a> vstd::std_specs::convert::FromSpecImpl<&'a str> for Unit {
    open spec fn obeys_from_spec() -> bool {
        false
    }

    open spec fn from_spec(value: &'a str) -> Unit {
        arbitrary()
    }
}

impl Clone for Unit {
    fn clone(&self) -> (copy: Unit)
        ensures
            copy == *self,
    {
        Unit(self.0.clone())
    }
}

impl PartialEq for Unit {
    fn eq(&self, other: &Unit) -> (same: bool) {
        self.0 == other.0
    }
}

impl Eq for Unit {}

impl vstd::std_specs::cmp::PartialEqSpecImpl for Unit {
    open spec fn obeys_eq_spec() -> bool {
        true
    }

    open spec fn eq_spec(&self, other: &Unit) -> bool {
        self@ == other@
    }
}

/// What is being measured, such as `temperature`.
#[derive(Debug, Hash)]
pub struct Metric(Name);

impl View for Metric {
    type V = Seq<char>;

    closed spec fn view(&self) -> Seq<char> {
        self.0@
    }
}

impl Metric {
    pub fn from_static(value: &'static str) -> (made: Metric)
        ensures
            made@ == value@,
    {
        Metric(Name::from_static(value))
    }

    pub fn as_str(&self) -> (text: &str)
        ensures
            text@ == self@,
    {
        self.0.as_str()
    }

    /// Whether two values hold the same text.
    pub fn same(&self, other: &Metric) -> (same: bool)
        ensures
            same == (self@ == other@),
    {
        self.0.same(&other.0)
    }

    /// Orders by text, as `str` orders.
    pub fn compare(&self, other: &Metric) -> (order: Order)
        ensures
            order == order_of_bytes(text_bytes(self@), text_bytes(other@)),
            (order == Order::Equal) == (self@ == other@),
    {
        self.0.compare(&other.0)
    }
}

impl From<Name> for Metric {
    fn from(value: Name) -> (made: Metric)
        ensures
            made@ == value@,
    {
        Metric(value)
    }
}

impl vstd::std_specs::convert::FromSpecImpl<Name> for Metric {
    open spec fn obeys_from_spec() -> bool {
        true
    }

    closed spec fn from_spec(value: Name) -> Metric {
        Metric(value)
    }
}

impl From<String> for Metric {
    fn from(value: String) -> (made: Metric)
        ensures
            made@ == value@,
    {
        Metric(Name::from(value))
    }
}

impl vstd::std_specs::convert::FromSpecImpl<String> for Metric {
    open spec fn obeys_from_spec() -> bool {
        false
    }

    open spec fn from_spec(value: String) -> Metric {
        arbitrary()
    }
}

impl<'a> From<&'a str> for Metric {
    fn from(value: &'a str) -> (made: Metric)
        ensures
            made@ == value@,
    {
        Metric(Name::from(value))
    }
}

impl<'a> vstd::std_specs::convert::FromSpecImpl<&'a str> for Metric {
    open spec fn obeys_from_spec() -> bool {
        false
    }

    open spec fn from_spec(value: &'a str) -> Metric {
        arbitrary()
    }
}

impl Clone for Metric {
    fn clone(&self) -> (copy: Metric)
        ensures
            copy == *self,
    {
        Metric(self.0.clone())
    }
}

impl PartialEq for Metric {
    fn eq(&self, other: &Metric) -> (same: bool) {
        self.0 == other.0
    }
}

impl Eq for Metric {}

impl vstd::std_specs::cmp::PartialEqSpecImpl for Metric {
    open spec fn obeys_eq_spec() -> bool {
        true
    }

    open spec fn eq_spec(&self, other: &Metric) -> bool {
        self@ == other@
    }
}

/// Which occurrence of a repeated observation this is, such as `CPU0Temp`.
#[derive(Debug, Hash)]
pub struct Instance(Name);

impl View for Instance {
    type V = Seq<char>;

    closed spec fn view(&self) -> Seq<char> {
        self.0@
    }
}

impl Instance {
    pub fn from_static(value: &'static str) -> (made: Instance)
        ensures
            made@ == value@,
    {
        Instance(Name::from_static(value))
    }

    pub fn as_str(&self) -> (text: &str)
        ensures
            text@ == self@,
    {
        self.0.as_str()
    }

    /// Whether two values hold the same text.
    pub fn same(&self, other: &Instance) -> (same: bool)
        ensures
            same == (self@ == other@),
    {
        self.0.same(&other.0)
    }

    /// Orders by text, as `str` orders.
    pub fn compare(&self, other: &Instance) -> (order: Order)
        ensures
            order == order_of_bytes(text_bytes(self@), text_bytes(other@)),
            (order == Order::Equal) == (self@ == other@),
    {
        self.0.compare(&other.0)
    }
}

impl From<Name> for Instance {
    fn from(value: Name) -> (made: Instance)
        ensures
            made@ == value@,
    {
        Instance(value)
    }
}

impl vstd::std_specs::convert::FromSpecImpl<Name> for Instance {
    open spec fn obeys_from_spec() -> bool {
        true
    }

    closed spec fn from_spec(value: Name) -> Instance {
        Instance(value)
    }
}

impl From<String> for Instance {
    fn from(value: String) -> (made: Instance)
        ensures
            made@ == value@,
    {
        Instance(Name::from(value))
    }
}

impl vstd::std_specs::convert::FromSpecImpl<String> for Instance {
    open spec fn obeys_from_spec() -> bool {
        false
    }

    open spec fn from_spec(value: String) -> Instance {
        arbitrary()
    }
}

impl<'a> From<&'a str> for Instance {
    fn from(value: &'a str) -> (made: Instance)
        ensures
            made@ == value@,
    {
        Instance(Name::from(value))
    }
}

impl<'a> vstd::std_specs::convert::FromSpecImpl<&'a str> for Instance {
    open spec fn obeys_from_spec() -> bool {
        false
    }

    open spec fn from_spec(value: &'a str) -> Instance {
        arbitrary()
    }
}

impl Clone for Instance {
    fn clone(&self) -> (copy: Instance)
        ensures
            copy == *self,
    {
        Instance(self.0.clone())
    }
}

impl PartialEq for Instance {
    fn eq(&self, other: &Instance) -> (same: bool) {
        self.0 == other.0
    }
}

impl Eq for Instance {}

impl vstd::std_specs::cmp::PartialEqSpecImpl for Instance {
    open spec fn obeys_eq_spec() -> bool {
        true
    }

    open spec fn eq_spec(&self, other: &Instance) -> bool {
        self@ == other@
    }
}

/// Vocabulary identifying the meaning of a resource-graph edge.
#[derive(Debug, Hash)]
pub struct RelationKind(Name);

impl View for RelationKind {
    type V = Seq<char>;

    closed spec fn view(&self) -> Seq<char> {
        self.0@
    }
}

impl RelationKind {
    pub fn from_static(value: &'static str) -> (made: RelationKind)
        ensures
            made@ == value@,
    {
        RelationKind(Name::from_static(value))
    }

    pub fn as_str(&self) -> (text: &str)
        ensures
            text@ == self@,
    {
        self.0.as_str()
    }

    /// Whether two values hold the same text.
    pub fn same(&self, other: &RelationKind) -> (same: bool)
        ensures
            same == (self@ == other@),
    {
        self.0.same(&other.0)
    }

    /// Orders by text, as `str` orders.
    pub fn compare(&self, other: &RelationKind) -> (order: Order)
        ensures
            order == order_of_bytes(text_bytes(self@), text_bytes(other@)),
            (order == Order::Equal) == (self@ == other@),
    {
        self.0.compare(&other.0)
    }
}

impl From<Name> for RelationKind {
    fn from(value: Name) -> (made: RelationKind)
        ensures
            made@ == value@,
    {
        RelationKind(value)
    }
}

impl vstd::std_specs::convert::FromSpecImpl<Name> for RelationKind {
    open spec fn obeys_from_spec() -> bool {
        true
    }

    closed spec fn from_spec(value: Name) -> RelationKind {
        RelationKind(value)
    }
}

impl From<String> for RelationKind {
    fn from(value: String) -> (made: RelationKind)
        ensures
            made@ == value@,
    {
        RelationKind(Name::from(value))
    }
}

impl vstd::std_specs::convert::FromSpecImpl<String> for RelationKind {
    open spec fn obeys_from_spec() -> bool {
        false
    }

    open spec fn from_spec(value: String) -> RelationKind {
        arbitrary()
    }
}

impl<'a> From<&'a str> for RelationKind {
    fn from(value: &'a str) -> (made: RelationKind)
        ensures
            made@ == value@,
    {
        RelationKind(Name::from(value))
    }
}

impl<'a> vstd::std_specs::convert::FromSpecImpl<&'a str> for RelationKind {
    open spec fn obeys_from_spec() -> bool {
        false
    }

    open spec fn from_spec(value: &'a str) -> RelationKind {
        arbitrary()
    }
}

impl Clone for RelationKind {
    fn clone(&self) -> (copy: RelationKind)
        ensures
            copy == *self,
    {
        RelationKind(self.0.clone())
    }
}

impl PartialEq for RelationKind {
    fn eq(&self, other: &RelationKind) -> (same: bool) {
        self.0 == other.0
    }
}

impl Eq for RelationKind {}

impl vstd::std_specs::cmp::PartialEqSpecImpl for RelationKind {
    open spec fn obeys_eq_spec() -> bool {
        true
    }

    open spec fn eq_spec(&self, other: &RelationKind) -> bool {
        self@ == other@
    }
}

/// The source's own word for whether a subject is operating, such as
/// `enabled` or `absent`.
///
/// Deliberately not ordered: the vocabulary is the source's, so an order
/// would rank these alphabetically while reading as though it ranked
/// availability.
#[derive(Debug, Hash)]
pub struct OperatingState(Name);

impl View for OperatingState {
    type V = Seq<char>;

    closed spec fn view(&self) -> Seq<char> {
        self.0@
    }
}

impl OperatingState {
    pub fn from_static(value: &'static str) -> (made: OperatingState)
        ensures
            made@ == value@,
    {
        OperatingState(Name::from_static(value))
    }

    pub fn as_str(&self) -> (text: &str)
        ensures
            text@ == self@,
    {
        self.0.as_str()
    }

    /// Whether two values hold the same text.
    pub fn same(&self, other: &OperatingState) -> (same: bool)
        ensures
            same == (self@ == other@),
    {
        self.0.same(&other.0)
    }
}

impl From<Name> for OperatingState {
    fn from(value: Name) -> (made: OperatingState)
        ensures
            made@ == value@,
    {
        OperatingState(value)
    }
}

impl vstd::std_specs::convert::FromSpecImpl<Name> for OperatingState {
    open spec fn obeys_from_spec() -> bool {
        true
    }

    closed spec fn from_spec(value: Name) -> OperatingState {
        OperatingState(value)
    }
}

impl From<String> for OperatingState {
    fn from(value: String) -> (made: OperatingState)
        ensures
            made@ == value@,
    {
        OperatingState(Name::from(value))
    }
}

impl vstd::std_specs::convert::FromSpecImpl<String> for OperatingState {
    open spec fn obeys_from_spec() -> bool {
        false
    }

    open spec fn from_spec(value: String) -> OperatingState {
        arbitrary()
    }
}

impl<'a> From<&'a str> for OperatingState {
    fn from(value: &'a str) -> (made: OperatingState)
        ensures
            made@ == value@,
    {
        OperatingState(Name::from(value))
    }
}

impl<'a> vstd::std_specs::convert::FromSpecImpl<&'a str> for OperatingState {
    open spec fn obeys_from_spec() -> bool {
        false
    }

    open spec fn from_spec(value: &'a str) -> OperatingState {
        arbitrary()
    }
}

impl Clone for OperatingState {
    fn clone(&self) -> (copy: OperatingState)
        ensures
            copy == *self,
    {
        OperatingState(self.0.clone())
    }
}

impl PartialEq for OperatingState {
    fn eq(&self, other: &OperatingState) -> (same: bool) {
        self.0 == other.0
    }
}

impl Eq for OperatingState {}

impl vstd::std_specs::cmp::PartialEqSpecImpl for OperatingState {
    open spec fn obeys_eq_spec() -> bool {
        true
    }

    open spec fn eq_spec(&self, other: &OperatingState) -> bool {
        self@ == other@
    }
}

/// The source's own judgement of a subject's condition, such as `ok`.
///
/// Deliberately not ordered, for the reason given on [`Severity`].
#[derive(Debug, Hash)]
pub struct Health(Name);

impl View for Health {
    type V = Seq<char>;

    closed spec fn view(&self) -> Seq<char> {
        self.0@
    }
}

impl Health {
    pub fn from_static(value: &'static str) -> (made: Health)
        ensures
            made@ == value@,
    {
        Health(Name::from_static(value))
    }

    pub fn as_str(&self) -> (text: &str)
        ensures
            text@ == self@,
    {
        self.0.as_str()
    }

    /// Whether two values hold the same text.
    pub fn same(&self, other: &Health) -> (same: bool)
        ensures
            same == (self@ == other@),
    {
        self.0.same(&other.0)
    }
}

impl From<Name> for Health {
    fn from(value: Name) -> (made: Health)
        ensures
            made@ == value@,
    {
        Health(value)
    }
}

impl vstd::std_specs::convert::FromSpecImpl<Name> for Health {
    open spec fn obeys_from_spec() -> bool {
        true
    }

    closed spec fn from_spec(value: Name) -> Health {
        Health(value)
    }
}

impl From<String> for Health {
    fn from(value: String) -> (made: Health)
        ensures
            made@ == value@,
    {
        Health(Name::from(value))
    }
}

impl vstd::std_specs::convert::FromSpecImpl<String> for Health {
    open spec fn obeys_from_spec() -> bool {
        false
    }

    open spec fn from_spec(value: String) -> Health {
        arbitrary()
    }
}

impl<'a> From<&'a str> for Health {
    fn from(value: &'a str) -> (made: Health)
        ensures
            made@ == value@,
    {
        Health(Name::from(value))
    }
}

impl<'a> vstd::std_specs::convert::FromSpecImpl<&'a str> for Health {
    open spec fn obeys_from_spec() -> bool {
        false
    }

    open spec fn from_spec(value: &'a str) -> Health {
        arbitrary()
    }
}

impl Clone for Health {
    fn clone(&self) -> (copy: Health)
        ensures
            copy == *self,
    {
        Health(self.0.clone())
    }
}

impl PartialEq for Health {
    fn eq(&self, other: &Health) -> (same: bool) {
        self.0 == other.0
    }
}

impl Eq for Health {}

impl vstd::std_specs::cmp::PartialEqSpecImpl for Health {
    open spec fn obeys_eq_spec() -> bool {
        true
    }

    open spec fn eq_spec(&self, other: &Health) -> bool {
        self@ == other@
    }
}

/// Source-reported log severity.
///
/// Deliberately not ordered: the value is whatever vocabulary the source uses,
/// so an order would sort `critical` below `warning` while reading as though
/// it compared urgency.
#[derive(Debug, Hash)]
pub struct Severity(Name);

impl View for Severity {
    type V = Seq<char>;

    closed spec fn view(&self) -> Seq<char> {
        self.0@
    }
}

impl Severity {
    pub fn from_static(value: &'static str) -> (made: Severity)
        ensures
            made@ == value@,
    {
        Severity(Name::from_static(value))
    }

    pub fn as_str(&self) -> (text: &str)
        ensures
            text@ == self@,
    {
        self.0.as_str()
    }

    /// Whether two values hold the same text.
    pub fn same(&self, other: &Severity) -> (same: bool)
        ensures
            same == (self@ == other@),
    {
        self.0.same(&other.0)
    }
}

impl From<Name> for Severity {
    fn from(value: Name) -> (made: Severity)
        ensures
            made@ == value@,
    {
        Severity(value)
    }
}

impl vstd::std_specs::convert::FromSpecImpl<Name> for Severity {
    open spec fn obeys_from_spec() -> bool {
        true
    }

    closed spec fn from_spec(value: Name) -> Severity {
        Severity(value)
    }
}

impl From<String> for Severity {
    fn from(value: String) -> (made: Severity)
        ensures
            made@ == value@,
    {
        Severity(Name::from(value))
    }
}

impl vstd::std_specs::convert::FromSpecImpl<String> for Severity {
    open spec fn obeys_from_spec() -> bool {
        false
    }

    open spec fn from_spec(value: String) -> Severity {
        arbitrary()
    }
}

impl<'a> From<&'a str> for Severity {
    fn from(value: &'a str) -> (made: Severity)
        ensures
            made@ == value@,
    {
        Severity(Name::from(value))
    }
}

impl<'a> vstd::std_specs::convert::FromSpecImpl<&'a str> for Severity {
    open spec fn obeys_from_spec() -> bool {
        false
    }

    open spec fn from_spec(value: &'a str) -> Severity {
        arbitrary()
    }
}

impl Clone for Severity {
    fn clone(&self) -> (copy: Severity)
        ensures
            copy == *self,
    {
        Severity(self.0.clone())
    }
}

impl PartialEq for Severity {
    fn eq(&self, other: &Severity) -> (same: bool) {
        self.0 == other.0
    }
}

impl Eq for Severity {}

impl vstd::std_specs::cmp::PartialEqSpecImpl for Severity {
    open spec fn obeys_eq_spec() -> bool {
        true
    }

    open spec fn eq_spec(&self, other: &Severity) -> bool {
        self@ == other@
    }
}

} // verus!
