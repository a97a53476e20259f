//! JSON-like values and key-value properties, as carried in annotations and
//! in exported feature properties.
use vstd::prelude::*;

verus! {

/// A value of a property.
#[derive(Debug)]
pub enum Value {
    Null,
    Bool(bool),
    Int(i128),
    Text(String),
    /// An exact quotient `num / den` (with `den > 0`), rendered as a decimal number.
    Quotient(i128, u64),
    /// A JSON number, array or object that is carried through unchanged, as its JSON text.
    Raw(String),
}

/// The mathematical model of a [`Value`].
pub enum ValueModel {
    Null,
    Bool(bool),
    Int(int),
    Text(Seq<char>),
    Quotient(int, nat),
    Raw(Seq<char>),
}

impl View for Value {
    type V = ValueModel;

    open spec fn view(&self) -> ValueModel {
        match self {
            Value::Null => ValueModel::Null,
            Value::Bool(b) => ValueModel::Bool(*b),
            Value::Int(i) => ValueModel::Int(*i as int),
            Value::Text(s) => ValueModel::Text(s@),
            Value::Quotient(n, d) => ValueModel::Quotient(*n as int, *d as nat),
            Value::Raw(s) => ValueModel::Raw(s@),
        }
    }
}

impl Value {
    /// A copy of the value.
    pub fn copy(&self) -> (r: Value)
        ensures
            r@ == self@,
    {
        match self {
            Value::Null => Value::Null,
            Value::Bool(b) => Value::Bool(*b),
            Value::Int(i) => Value::Int(*i),
            Value::Text(s) => Value::Text(s.clone()),
            Value::Quotient(n, d) => Value::Quotient(*n, *d),
            Value::Raw(s) => Value::Raw(s.clone()),
        }
    }
}

/// The model of an optional integer field: the integer, or null.
pub open spec fn opt_int_model(v: Option<int>) -> ValueModel {
    match v {
        Some(i) => ValueModel::Int(i),
        None => ValueModel::Null,
    }
}

/// An optional integer field as a value: the integer, or null.
pub fn opt_int(v: Option<i64>) -> (r: Value)
    ensures
        r@ == opt_int_model(
            match v {
                Some(i) => Some(i as int),
                None => None,
            },
        ),
{
    match v {
        Some(i) => Value::Int(i as i128),
        None => Value::Null,
    }
}

/// A named value.
#[derive(Debug)]
pub struct Property {
    pub key: String,
    pub value: Value,
}

/// The model of a [`Property`]: its key and the model of its value.
pub type PropModel = (Seq<char>, ValueModel);

impl View for Property {
    type V = PropModel;

    open spec fn view(&self) -> PropModel {
        (self.key@, self.value@)
    }
}

/// The models of a sequence of properties.
pub open spec fn props_model(s: Seq<Property>) -> Seq<PropModel> {
    s.map_values(|p: Property| p@)
}

impl Property {
    pub fn new(key: &str, value: Value) -> (r: Property)
        ensures
            r@ == (key@, value@),
    {
        Property { key: String::from_str(key), value }
    }

    /// A copy of the property.
    pub fn copy(&self) -> (r: Property)
        ensures
            r@ == self@,
    {
        Property { key: self.key.clone(), value: self.value.copy() }
    }
}

/// Appends `p` to `v`, and states it over the models.
pub fn push_prop(v: &mut Vec<Property>, p: Property)
    ensures
        props_model(final(v)@) == props_model(old(v)@).push(p@),
{
    let ghost pv = p@;
    v.push(p);
    assert(props_model(v@) =~= props_model(old(v)@).push(pv));
}

} // verus!
