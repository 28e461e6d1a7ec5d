//! The JSON form of stored values.
use vstd::prelude::*;
use vstd::string::*;

use crate::value::{IntVec, IntegerBehavior, Value, ValueModel};

verus! {

/// A JSON value of the forms that stored values project to.
#[derive(Debug)]
pub enum JsonValue {
    Bool(bool),
    Number(i128),
    String(String),
    /// An array of numbers.
    Numbers(Vec<i128>),
}

/// What a JSON value is, mathematically.
pub ghost enum JsonModel {
    Bool(bool),
    Number(int),
    String(Seq<char>),
    Numbers(Seq<int>),
}

impl View for JsonValue {
    type V = JsonModel;

    open spec fn view(&self) -> JsonModel {
        match self {
            JsonValue::Bool(b) => JsonModel::Bool(*b),
            JsonValue::Number(n) => JsonModel::Number(*n as int),
            JsonValue::String(s) => JsonModel::String(s@),
            JsonValue::Numbers(v) => JsonModel::Numbers(v@.map_values(|x: i128| x as int)),
        }
    }
}

/// The JSON form of a stored value: text and characters as strings,
/// integers as numbers, lists as arrays of numbers.
pub open spec fn json_of(m: ValueModel) -> JsonModel {
    match m {
        ValueModel::Text(s) => JsonModel::String(s),
        ValueModel::Str(s) => JsonModel::String(s),
        ValueModel::Bool(b) => JsonModel::Bool(b),
        ValueModel::Char(c) => JsonModel::String(seq![c]),
        ValueModel::Int(_, n) => JsonModel::Number(n),
        ValueModel::List(_, s) => JsonModel::Numbers(s),
    }
}

fn numbers_of<T: IntegerBehavior>(l: &IntVec<T>) -> (r: Vec<i128>)
    ensures
        r@.map_values(|x: i128| x as int) == l.ints(),
{
    let mut r: Vec<i128> = Vec::new();
    let mut i: usize = 0;
    while i < l.0.len()
        invariant
            i <= l.0@.len(),
            r@.len() == i,
            forall|j: int| 0 <= j < i ==> #[trigger] r@[j] as int == l.0@[j].int_value(),
        decreases l.0@.len() - i,
    {
        r.push(l.0[i].to_wide());
        i = i + 1;
    }
    proof {
        assert(r@.map_values(|x: i128| x as int) =~= l.ints());
    }
    r
}

impl Value {
    /// The JSON form of the value.
    pub fn to_json(&self) -> (r: JsonValue)
        ensures
            r@ == json_of(self@),
    {
        match self {
            Value::Text(s) => JsonValue::String(s.clone()),
            Value::Str(s) => JsonValue::String(String::from_str(s)),
            Value::Bool(b) => JsonValue::Bool(*b),
            Value::Char(_) => {
                let text = self.render();
                JsonValue::String(text)
            },
            Value::I32(n) => JsonValue::Number(*n as i128),
            Value::I64(n) => JsonValue::Number(*n as i128),
            Value::U32(n) => JsonValue::Number(*n as i128),
            Value::U64(n) => JsonValue::Number(*n as i128),
            Value::ListI32(l) => JsonValue::Numbers(numbers_of(l)),
            Value::ListI64(l) => JsonValue::Numbers(numbers_of(l)),
            Value::ListU32(l) => JsonValue::Numbers(numbers_of(l)),
            Value::ListU64(l) => JsonValue::Numbers(numbers_of(l)),
        }
    }
}

} // verus!
