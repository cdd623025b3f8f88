//! The dynamic value bridge: a closed tagged union over the bridgeable
//! value kinds, including an explicit nil, with total boxing and partial,
//! diagnosed unboxing conversions.

use vstd::prelude::*;

use crate::node_path::NodePath;
use crate::strings::{GString, StringName};
use crate::text::{dec_rep_signed, push_dec_i64};

verus! {

/// The kind tag of a dynamic value.
#[derive(Clone, Copy, PartialEq, Eq, Structural, Debug)]
pub enum VariantType {
    Nil,
    Bool,
    Int,
    GString,
    StringName,
    NodePath,
}

/// The engine-style upper-case name of a tag, used in diagnostics.
pub open spec fn tag_name_spec(t: VariantType) -> Seq<char> {
    match t {
        VariantType::Nil => "NIL"@,
        VariantType::Bool => "BOOL"@,
        VariantType::Int => "INT"@,
        VariantType::GString => "STRING"@,
        VariantType::StringName => "STRING_NAME"@,
        VariantType::NodePath => "NODE_PATH"@,
    }
}

/// The host-native type name a declared parameter of this tag converts to,
/// used in diagnostics.
pub open spec fn rust_name_spec(t: VariantType) -> Seq<char> {
    match t {
        VariantType::Nil => "()"@,
        VariantType::Bool => "bool"@,
        VariantType::Int => "i64"@,
        VariantType::GString => "GString"@,
        VariantType::StringName => "StringName"@,
        VariantType::NodePath => "NodePath"@,
    }
}

impl VariantType {
    /// The engine-style upper-case name of the tag.
    pub fn tag_name(&self) -> (r: &'static str)
        ensures
            r@ == tag_name_spec(*self),
    {
        match self {
            VariantType::Nil => "NIL",
            VariantType::Bool => "BOOL",
            VariantType::Int => "INT",
            VariantType::GString => "STRING",
            VariantType::StringName => "STRING_NAME",
            VariantType::NodePath => "NODE_PATH",
        }
    }

    /// The host-native type name for a declared parameter of this tag.
    pub fn rust_name(&self) -> (r: &'static str)
        ensures
            r@ == rust_name_spec(*self),
    {
        match self {
            VariantType::Nil => "()",
            VariantType::Bool => "bool",
            VariantType::Int => "i64",
            VariantType::GString => "GString",
            VariantType::StringName => "StringName",
            VariantType::NodePath => "NodePath",
        }
    }
}

/// A dynamic value: nil or one value of each bridgeable kind.
#[derive(Debug)]
pub enum Variant {
    Nil,
    Bool(bool),
    Int(i64),
    GString(GString),
    StringName(StringName),
    NodePath(NodePath),
}

impl Variant {
    /// The kind tag of this value.
    pub open spec fn tag(self) -> VariantType {
        match self {
            Variant::Nil => VariantType::Nil,
            Variant::Bool(_) => VariantType::Bool,
            Variant::Int(_) => VariantType::Int,
            Variant::GString(_) => VariantType::GString,
            Variant::StringName(_) => VariantType::StringName,
            Variant::NodePath(_) => VariantType::NodePath,
        }
    }

    /// The kind tag of this value.
    pub fn get_type(&self) -> (t: VariantType)
        ensures
            t == self.tag(),
    {
        match self {
            Variant::Nil => VariantType::Nil,
            Variant::Bool(_) => VariantType::Bool,
            Variant::Int(_) => VariantType::Int,
            Variant::GString(_) => VariantType::GString,
            Variant::StringName(_) => VariantType::StringName,
            Variant::NodePath(_) => VariantType::NodePath,
        }
    }

    /// The debug form used in call diagnostics: `null`, booleans, decimal
    /// integers, quoted text, `&"name"` for interned names, `^"path"` for
    /// paths. Text is rendered verbatim between the quotes.
    pub open spec fn debug_spec(self) -> Seq<char> {
        match self {
            Variant::Nil => "null"@,
            Variant::Bool(b) => if b {
                "true"@
            } else {
                "false"@
            },
            Variant::Int(i) => dec_rep_signed(i as int),
            Variant::GString(s) => seq!['"'] + s@ + seq!['"'],
            Variant::StringName(n) => "&\""@ + n@ + seq!['"'],
            Variant::NodePath(p) => "^\""@ + p@ + seq!['"'],
        }
    }

    /// Appends the debug form of this value to `out`.
    pub fn push_debug(&self, out: &mut String)
        ensures
            final(out)@ == old(out)@ + self.debug_spec(),
    {
        match self {
            Variant::Nil => {
                out.append("null");
            },
            Variant::Bool(b) => {
                if *b {
                    out.append("true");
                } else {
                    out.append("false");
                }
            },
            Variant::Int(i) => {
                push_dec_i64(*i, out);
            },
            Variant::GString(s) => {
                out.append("\"");
                out.append(s.as_str());
                out.append("\"");
                proof {
                    reveal_strlit("\"");
                    assert("\""@ =~= seq!['"']);
                    assert(out@ =~= old(out)@ + self.debug_spec());
                }
            },
            Variant::StringName(n) => {
                out.append("&\"");
                out.append(n.as_str());
                out.append("\"");
                proof {
                    reveal_strlit("\"");
                    assert("\""@ =~= seq!['"']);
                    assert(out@ =~= old(out)@ + self.debug_spec());
                }
            },
            Variant::NodePath(p) => {
                let text = p.to_display_string();
                out.append("^\"");
                out.append(text.as_str());
                out.append("\"");
                proof {
                    reveal_strlit("\"");
                    assert("\""@ =~= seq!['"']);
                    assert(out@ =~= old(out)@ + self.debug_spec());
                }
            },
        }
    }

    /// Boxes an integer.
    pub fn from_int(i: i64) -> (v: Variant)
        ensures
            v == Variant::Int(i),
    {
        Variant::Int(i)
    }

    /// Boxes a boolean.
    pub fn from_bool(b: bool) -> (v: Variant)
        ensures
            v == Variant::Bool(b),
    {
        Variant::Bool(b)
    }

    /// Boxes host text as a general-purpose string value.
    pub fn from_str(s: &str) -> (v: Variant)
        ensures
            v.tag() == VariantType::GString,
            v matches Variant::GString(g) && g@ == s@,
    {
        Variant::GString(GString::from_str(s))
    }

    /// Boxes an interned name.
    pub fn from_string_name(n: StringName) -> (v: Variant)
        ensures
            v == Variant::StringName(n),
    {
        Variant::StringName(n)
    }

    /// Boxes a path.
    pub fn from_node_path(p: NodePath) -> (v: Variant)
        ensures
            v == Variant::NodePath(p),
    {
        Variant::NodePath(p)
    }

    /// Unboxes an integer; any other kind, nil included, is a mismatch.
    pub fn try_to_int(&self) -> (r: Result<i64, ConvertError>)
        ensures
            match r {
                Ok(i) => *self == Variant::Int(i),
                Err(e) => self.tag() != VariantType::Int && e.expected_view()
                    == VariantType::Int && e.actual_view() == self.debug_spec() && e.actual_tag_view()
                    == self.tag(),
            },
    {
        match self {
            Variant::Int(i) => Ok(*i),
            _ => Err(ConvertError::new(VariantType::Int, self)),
        }
    }

    /// Unboxes an integer with nil opting into absence: nil yields `None`,
    /// an integer yields `Some`, and any other kind is a mismatch.
    pub fn try_to_optional_int(&self) -> (r: Result<Option<i64>, ConvertError>)
        ensures
            match r {
                Ok(o) => match o {
                    Some(i) => *self == Variant::Int(i),
                    None => *self == Variant::Nil,
                },
                Err(e) => self.tag() != VariantType::Int && self.tag() != VariantType::Nil
                    && e.expected_view() == VariantType::Int && e.actual_view()
                    == self.debug_spec() && e.actual_tag_view() == self.tag(),
            },
    {
        match self {
            Variant::Nil => Ok(None),
            Variant::Int(i) => Ok(Some(*i)),
            _ => Err(ConvertError::new(VariantType::Int, self)),
        }
    }

    /// Unboxes a boolean; any other kind, nil included, is a mismatch.
    pub fn try_to_bool(&self) -> (r: Result<bool, ConvertError>)
        ensures
            match r {
                Ok(b) => *self == Variant::Bool(b),
                Err(e) => self.tag() != VariantType::Bool && e.expected_view()
                    == VariantType::Bool && e.actual_view() == self.debug_spec()
                    && e.actual_tag_view() == self.tag(),
            },
    {
        match self {
            Variant::Bool(b) => Ok(*b),
            _ => Err(ConvertError::new(VariantType::Bool, self)),
        }
    }

    /// Unboxes a general-purpose string; any other kind is a mismatch.
    pub fn try_to_gstring(&self) -> (r: Result<GString, ConvertError>)
        ensures
            match r {
                Ok(s) => self matches Variant::GString(g) && s@ == g@,
                Err(e) => self.tag() != VariantType::GString && e.expected_view()
                    == VariantType::GString && e.actual_view() == self.debug_spec()
                    && e.actual_tag_view() == self.tag(),
            },
    {
        match self {
            Variant::GString(g) => Ok(g.clone()),
            _ => Err(ConvertError::new(VariantType::GString, self)),
        }
    }

    /// Unboxes an interned name; any other kind is a mismatch.
    pub fn try_to_string_name(&self) -> (r: Result<StringName, ConvertError>)
        ensures
            match r {
                Ok(n) => self matches Variant::StringName(m) && n@ == m@,
                Err(e) => self.tag() != VariantType::StringName && e.expected_view()
                    == VariantType::StringName && e.actual_view() == self.debug_spec()
                    && e.actual_tag_view() == self.tag(),
            },
    {
        match self {
            Variant::StringName(n) => Ok(n.clone()),
            _ => Err(ConvertError::new(VariantType::StringName, self)),
        }
    }

    /// Unboxes a path; any other kind is a mismatch.
    pub fn try_to_node_path(&self) -> (r: Result<NodePath, ConvertError>)
        ensures
            match r {
                Ok(p) => self matches Variant::NodePath(q) && p@ == q@ && p.names_view()
                    == q.names_view() && p.subnames_view() == q.subnames_view(),
                Err(e) => self.tag() != VariantType::NodePath && e.expected_view()
                    == VariantType::NodePath && e.actual_view() == self.debug_spec()
                    && e.actual_tag_view() == self.tag(),
            },
    {
        match self {
            Variant::NodePath(p) => Ok(p.clone()),
            _ => Err(ConvertError::new(VariantType::NodePath, self)),
        }
    }
}

/// The message of a failed unboxing: the expected tag, the actual tag, and
/// the actual value in debug form.
pub open spec fn conv_message(expected: VariantType, actual_tag: VariantType, actual: Seq<char>) -> Seq<
    char,
> {
    "expected type "@ + tag_name_spec(expected) + ", got "@ + tag_name_spec(actual_tag) + ": "@
        + actual
}

/// A failed conversion out of a dynamic value: the expected type tag and
/// the actual type tag and value found.
#[derive(Debug)]
pub struct ConvertError {
    expected: VariantType,
    actual_tag: VariantType,
    actual_debug: String,
}

impl ConvertError {
    /// The tag the conversion demanded.
    pub closed spec fn expected_view(self) -> VariantType {
        self.expected
    }

    /// The tag of the value found.
    pub closed spec fn actual_tag_view(self) -> VariantType {
        self.actual_tag
    }

    /// The debug form of the value found.
    pub closed spec fn actual_view(self) -> Seq<char> {
        self.actual_debug@
    }

    /// Records a mismatch between a demanded tag and a found value.
    pub fn new(expected: VariantType, actual: &Variant) -> (e: ConvertError)
        ensures
            e.expected_view() == expected,
            e.actual_tag_view() == actual.tag(),
            e.actual_view() == actual.debug_spec(),
    {
        let mut dbg = String::new();
        actual.push_debug(&mut dbg);
        ConvertError { expected, actual_tag: actual.get_type(), actual_debug: dbg }
    }

    /// The tag the conversion demanded.
    pub fn expected(&self) -> (t: VariantType)
        ensures
            t == self.expected_view(),
    {
        self.expected
    }

    /// The tag of the value found.
    pub fn actual_tag(&self) -> (t: VariantType)
        ensures
            t == self.actual_tag_view(),
    {
        self.actual_tag
    }

    /// The full message: expected tag, actual tag, actual value.
    pub fn message(&self) -> (r: String)
        ensures
            r@ == conv_message(self.expected_view(), self.actual_tag_view(), self.actual_view()),
    {
        let mut out = String::new();
        out.append("expected type ");
        out.append(self.expected.tag_name());
        out.append(", got ");
        out.append(self.actual_tag.tag_name());
        out.append(": ");
        out.append(self.actual_debug.as_str());
        out
    }
}

impl NodePath {
    /// The tag a boxed path carries.
    pub fn variant_type() -> (t: VariantType)
        ensures
            t == VariantType::NodePath,
    {
        VariantType::NodePath
    }
}

} // verus!
