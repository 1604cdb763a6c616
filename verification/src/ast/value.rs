//! The arguments of a directive.

use vstd::prelude::*;
use vstd::std_specs::convert::FromSpecImpl;

verus! {

/// One argument of a directive.
#[derive(Debug, PartialEq, Eq, Hash)]
pub enum Value {
    /// Plain unquoted text: `nginx`.
    Literal(String),
    /// Text between single quotes: `'hello world'`.
    SingleQuoted(String),
    /// Text between double quotes: `"hello world"`.
    DoubleQuoted(String),
    /// A variable reference: `$remote_addr` (the name is held without the `$`).
    Variable(String),
}

/// The mathematical value of a [`Value`]: its variant and its characters.
pub enum ValueView {
    Literal(Seq<char>),
    SingleQuoted(Seq<char>),
    DoubleQuoted(Seq<char>),
    Variable(Seq<char>),
}

impl ValueView {
    /// The payload, whatever the variant.
    pub open spec fn text(self) -> Seq<char> {
        match self {
            ValueView::Literal(s) => s,
            ValueView::SingleQuoted(s) => s,
            ValueView::DoubleQuoted(s) => s,
            ValueView::Variable(s) => s,
        }
    }

    /// The surface form in a configuration file: `x`, `'x'`, `"x"` or `$x`.
    pub open spec fn config_text(self) -> Seq<char> {
        match self {
            ValueView::Literal(s) => s,
            ValueView::SingleQuoted(s) => seq!['\''] + s + seq!['\''],
            ValueView::DoubleQuoted(s) => seq!['"'] + s + seq!['"'],
            ValueView::Variable(s) => seq!['$'] + s,
        }
    }
}

impl View for Value {
    type V = ValueView;

    open spec fn view(&self) -> ValueView {
        match self {
            Value::Literal(s) => ValueView::Literal(s@),
            Value::SingleQuoted(s) => ValueView::SingleQuoted(s@),
            Value::DoubleQuoted(s) => ValueView::DoubleQuoted(s@),
            Value::Variable(s) => ValueView::Variable(s@),
        }
    }
}

/// The views of a sequence of values, element by element.
pub open spec fn values_view(vs: Seq<Value>) -> Seq<ValueView> {
    vs.map_values(|v: Value| v@)
}

impl Clone for Value {
    fn clone(&self) -> (r: Value)
        ensures
            r@ == self@,
    {
        match self {
            Value::Literal(s) => Value::Literal(s.clone()),
            Value::SingleQuoted(s) => Value::SingleQuoted(s.clone()),
            Value::DoubleQuoted(s) => Value::DoubleQuoted(s.clone()),
            Value::Variable(s) => Value::Variable(s.clone()),
        }
    }
}

/// A copy of each value, in order.
pub fn clone_values(vs: &Vec<Value>) -> (r: Vec<Value>)
    ensures
        values_view(r@) == values_view(vs@),
{
    let mut out: Vec<Value> = Vec::new();
    let mut i: usize = 0;
    while i < vs.len()
        invariant
            i <= vs.len(),
            out.len() == i,
            forall|j: int| 0 <= j < i ==> (#[trigger] out[j])@ == vs[j]@,
        decreases vs.len() - i,
    {
        out.push(vs[i].clone());
        i += 1;
    }
    assert(values_view(out@) =~= values_view(vs@));
    out
}

impl Value {
    /// A literal value.
    pub fn literal(s: &str) -> (r: Value)
        ensures
            r@ == ValueView::Literal(s@),
    {
        Value::Literal(s.to_owned())
    }

    /// A single-quoted value.
    pub fn single_quoted(s: &str) -> (r: Value)
        ensures
            r@ == ValueView::SingleQuoted(s@),
    {
        Value::SingleQuoted(s.to_owned())
    }

    /// A double-quoted value.
    pub fn double_quoted(s: &str) -> (r: Value)
        ensures
            r@ == ValueView::DoubleQuoted(s@),
    {
        Value::DoubleQuoted(s.to_owned())
    }

    /// A variable reference; `s` is the name without the `$`.
    pub fn variable(s: &str) -> (r: Value)
        ensures
            r@ == ValueView::Variable(s@),
    {
        Value::Variable(s.to_owned())
    }

    /// The payload, whatever the variant.
    pub fn as_str(&self) -> (r: &str)
        ensures
            r@ == self@.text(),
    {
        match self {
            Value::Literal(s) => s.as_str(),
            Value::SingleQuoted(s) => s.as_str(),
            Value::DoubleQuoted(s) => s.as_str(),
            Value::Variable(s) => s.as_str(),
        }
    }

    /// Whether this is a variable reference.
    pub fn is_variable(&self) -> (r: bool)
        ensures
            r == (self@ is Variable),
    {
        match self {
            Value::Variable(_) => true,
            _ => false,
        }
    }

    /// Whether this is quoted, with single or with double quotes.
    pub fn is_quoted(&self) -> (r: bool)
        ensures
            r == (self@ is SingleQuoted || self@ is DoubleQuoted),
    {
        match self {
            Value::SingleQuoted(_) => true,
            Value::DoubleQuoted(_) => true,
            _ => false,
        }
    }

    /// The value as it would appear in a configuration file.
    pub fn to_config_string(&self) -> (r: String)
        ensures
            r@ == self@.config_text(),
    {
        let mut out = String::new();
        match self {
            Value::Literal(s) => {
                out.append(s.as_str());
            },
            Value::SingleQuoted(s) => {
                out.push('\'');
                out.append(s.as_str());
                out.push('\'');
            },
            Value::DoubleQuoted(s) => {
                out.push('"');
                out.append(s.as_str());
                out.push('"');
            },
            Value::Variable(s) => {
                out.push('$');
                out.append(s.as_str());
            },
        }
        assert(out@ =~= self@.config_text());
        out
    }

    /// The payload as an owned string: what the value displays as.
    pub fn to_string(&self) -> (r: String)
        ensures
            r@ == self@.text(),
    {
        self.as_str().to_owned()
    }
}

impl From<String> for Value {
    fn from(s: String) -> (r: Value) {
        Value::Literal(s)
    }
}

impl FromSpecImpl<String> for Value {
    open spec fn obeys_from_spec() -> bool {
        true
    }

    open spec fn from_spec(s: String) -> Value {
        Value::Literal(s)
    }
}

impl<'a> From<&'a str> for Value {
    fn from(s: &'a str) -> (r: Value)
        ensures
            r@ == ValueView::Literal(s@),
    {
        Value::Literal(s.to_owned())
    }
}

impl<'a> FromSpecImpl<&'a str> for Value {
    /// A `&str` names no `String`, so the result is stated by its view alone.
    open spec fn obeys_from_spec() -> bool {
        false
    }

    open spec fn from_spec(s: &'a str) -> Value {
        arbitrary()
    }
}

impl<'a> From<&'a String> for Value {
    fn from(s: &'a String) -> (r: Value) {
        Value::Literal(s.clone())
    }
}

impl<'a> FromSpecImpl<&'a String> for Value {
    open spec fn obeys_from_spec() -> bool {
        true
    }

    open spec fn from_spec(s: &'a String) -> Value {
        Value::Literal(*s)
    }
}

} // verus!
