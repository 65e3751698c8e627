//! Immutable strings for model vocabulary and device-supplied names.

use vstd::prelude::*;

use crate::order::{Order, order_of_bytes, compare_text, text_bytes};

verus! {

/// An immutable string used for model vocabulary and device-supplied names.
///
/// Whether the text came from fixed library vocabulary or from a device is
/// recorded, but two names are equal exactly when their text is.
#[derive(Debug)]
pub struct Name {
    text: String,
    is_static: bool,
}

impl View for Name {
    type V = Seq<char>;

    closed spec fn view(&self) -> Seq<char> {
        self.text@
    }
}

impl Name {
    /// Whether this name was built from fixed vocabulary.
    pub closed spec fn static_origin(&self) -> bool {
        self.is_static
    }

    /// The UTF-8 bytes the name orders by.
    pub open spec fn bytes(&self) -> Seq<u8> {
        text_bytes(self@)
    }

    /// Creates a name for fixed library vocabulary.
    pub fn from_static(value: &'static str) -> (name: Name)
        ensures
            name@ == value@,
            name.static_origin(),
    {
        Name { text: value.to_owned(), is_static: true }
    }

    /// Creates a name for device-supplied text.
    pub fn from_shared(value: String) -> (name: Name)
        ensures
            name@ == value@,
            !name.static_origin(),
    {
        Name { text: value, is_static: false }
    }

    pub fn as_str(&self) -> (text: &str)
        ensures
            text@ == self@,
    {
        self.text.as_str()
    }

    pub fn is_static(&self) -> (is_static: bool)
        ensures
            is_static == self.static_origin(),
    {
        self.is_static
    }

    /// Orders two names by their text, as `str` orders.
    pub fn compare(&self, other: &Name) -> (order: Order)
        ensures
            order == order_of_bytes(self.bytes(), other.bytes()),
            (order == Order::Equal) == (self@ == other@),
    {
        compare_text(self.as_str(), other.as_str())
    }

    /// Whether two names hold the same text.
    pub fn same(&self, other: &Name) -> (same: bool)
        ensures
            same == (self@ == other@),
    {
        self.text == other.text
    }

    /// A copy holding the same text.
    pub fn duplicate(&self) -> (copy: Name)
        ensures
            copy == *self,
    {
        Name { text: self.text.clone(), is_static: self.is_static }
    }
}

impl From<String> for Name {
    fn from(value: String) -> (name: Name)
        ensures
            name@ == value@,
            !name.static_origin(),
    {
        Name::from_shared(value)
    }
}

impl vstd::std_specs::convert::FromSpecImpl<String> for Name {
    open spec fn obeys_from_spec() -> bool {
        false
    }

    open spec fn from_spec(value: String) -> Name {
        arbitrary()
    }
}

impl<'a> From<&'a str> for Name {
    fn from(value: &'a str) -> (name: Name)
        ensures
            name@ == value@,
            !name.static_origin(),
    {
        Name::from_shared(value.to_owned())
    }
}

impl<'a> vstd::std_specs::convert::FromSpecImpl<&'a str> for Name {
    open spec fn obeys_from_spec() -> bool {
        false
    }

    open spec fn from_spec(value: &'a str) -> Name {
        arbitrary()
    }
}

impl Clone for Name {
    fn clone(&self) -> (copy: Name)
        ensures
            copy == *self,
    {
        self.duplicate()
    }
}

impl PartialEq for Name {
    fn eq(&self, other: &Name) -> (same: bool) {
        self.text == other.text
    }
}

impl Eq for Name {}

impl vstd::std_specs::cmp::PartialEqSpecImpl for Name {
    open spec fn obeys_eq_spec() -> bool {
        true
    }

    open spec fn eq_spec(&self, other: &Name) -> bool {
        self@ == other@
    }
}

impl core::hash::Hash for Name {
    #[verifier::external_body]
    fn hash<H: core::hash::Hasher>(&self, state: &mut H) {
        self.text.hash(state);
    }
}

} // verus!
