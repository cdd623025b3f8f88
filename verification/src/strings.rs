//! Host-side models of the engine's two plain string-like built-ins: the
//! general-purpose string and the interned name. Each holds its characters
//! directly; its view is the character sequence.

use vstd::prelude::*;

verus! {

/// General-purpose text value.
#[derive(Debug)]
pub struct GString {
    chars: String,
}

impl View for GString {
    type V = Seq<char>;

    closed spec fn view(&self) -> Seq<char> {
        self.chars@
    }
}

impl GString {
    pub fn from_str(s: &str) -> (r: GString)
        ensures
            r@ == s@,
    {
        GString { chars: s.to_owned() }
    }

    pub fn as_str(&self) -> (r: &str)
        ensures
            r@ == self@,
    {
        self.chars.as_str()
    }

    /// Copies the characters into an interned name.
    pub fn to_string_name(&self) -> (r: StringName)
        ensures
            r@ == self@,
    {
        StringName::from_str(self.chars.as_str())
    }
}

impl Clone for GString {
    fn clone(&self) -> (r: Self)
        ensures
            r@ == self@,
    {
        GString { chars: self.chars.clone() }
    }
}

impl PartialEq for GString {
    fn eq(&self, other: &GString) -> (r: bool) {
        self.chars.eq(&other.chars)
    }
}

impl vstd::std_specs::cmp::PartialEqSpecImpl for GString {
    open spec fn obeys_eq_spec() -> bool {
        true
    }

    open spec fn eq_spec(&self, other: &GString) -> bool {
        self@ == other@
    }
}

/// Interned name, used for path components and method names.
#[derive(Debug)]
pub struct StringName {
    chars: String,
}

impl View for StringName {
    type V = Seq<char>;

    closed spec fn view(&self) -> Seq<char> {
        self.chars@
    }
}

impl StringName {
    pub fn from_str(s: &str) -> (r: StringName)
        ensures
            r@ == s@,
    {
        StringName { chars: s.to_owned() }
    }

    pub fn as_str(&self) -> (r: &str)
        ensures
            r@ == self@,
    {
        self.chars.as_str()
    }

    /// Copies the characters into a general-purpose string.
    pub fn to_gstring(&self) -> (r: GString)
        ensures
            r@ == self@,
    {
        GString::from_str(self.chars.as_str())
    }
}

impl Clone for StringName {
    fn clone(&self) -> (r: Self)
        ensures
            r@ == self@,
    {
        StringName { chars: self.chars.clone() }
    }
}

impl PartialEq for StringName {
    fn eq(&self, other: &StringName) -> (r: bool) {
        self.chars.eq(&other.chars)
    }
}

impl vstd::std_specs::cmp::PartialEqSpecImpl for StringName {
    open spec fn obeys_eq_spec() -> bool {
        true
    }

    open spec fn eq_spec(&self, other: &StringName) -> bool {
        self@ == other@
    }
}

} // verus!
