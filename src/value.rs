//! The values a container can hold, their mathematical model, and their
//! textual form.
use vstd::prelude::*;
use vstd::string::*;

use crate::keys::compare_keys;
use crate::text::{dec_int, parse_int, parse_int_in, write_int};

verus! {

/// The integer types that a stored value or list may have.
#[derive(Clone, Copy, Debug, PartialEq, Eq, Structural)]
pub enum IntKind {
    I32,
    I64,
    U32,
    U64,
}

/// The dynamic type of a stored value.
pub ghost enum Kind {
    Text,
    Str,
    Bool,
    Char,
    Int(IntKind),
    List(IntKind),
}

/// What a stored value is, mathematically.
pub ghost enum ValueModel {
    /// An owned `String`.
    Text(Seq<char>),
    /// A `&'static str`.
    Str(Seq<char>),
    Bool(bool),
    Char(char),
    Int(IntKind, int),
    List(IntKind, Seq<int>),
}

impl ValueModel {
    pub open spec fn kind(self) -> Kind {
        match self {
            ValueModel::Text(_) => Kind::Text,
            ValueModel::Str(_) => Kind::Str,
            ValueModel::Bool(_) => Kind::Bool,
            ValueModel::Char(_) => Kind::Char,
            ValueModel::Int(k, _) => Kind::Int(k),
            ValueModel::List(k, _) => Kind::List(k),
        }
    }
}

/// The items of a list, each in decimal, separated by `", "`.
pub open spec fn list_items(s: Seq<int>) -> Seq<char>
    decreases s.len(),
{
    if s.len() == 0 {
        seq![]
    } else if s.len() == 1 {
        dec_int(s[0])
    } else {
        list_items(s.drop_last()) + seq![',', ' '] + dec_int(s.last())
    }
}

/// A list of integers as text: `[85, 92, 78]`.
pub open spec fn list_text(s: Seq<int>) -> Seq<char> {
    seq!['['] + list_items(s) + seq![']']
}

pub open spec fn bool_text(b: bool) -> Seq<char> {
    if b {
        seq!['t', 'r', 'u', 'e']
    } else {
        seq!['f', 'a', 'l', 's', 'e']
    }
}

/// The canonical text of a stored value.
pub open spec fn render(m: ValueModel) -> Seq<char> {
    match m {
        ValueModel::Text(s) => s,
        ValueModel::Str(s) => s,
        ValueModel::Bool(b) => bool_text(b),
        ValueModel::Char(c) => seq![c],
        ValueModel::Int(_, n) => dec_int(n),
        ValueModel::List(_, s) => list_text(s),
    }
}

/// The name of a dynamic type, for diagnostics.
pub open spec fn kind_name_of(k: Kind) -> Seq<char> {
    match k {
        Kind::Text => "String"@,
        Kind::Str => "&str"@,
        Kind::Bool => "bool"@,
        Kind::Char => "char"@,
        Kind::Int(IntKind::I32) => "i32"@,
        Kind::Int(IntKind::I64) => "i64"@,
        Kind::Int(IntKind::U32) => "u32"@,
        Kind::Int(IntKind::U64) => "u64"@,
        Kind::List(IntKind::I32) => "IntVec<i32>"@,
        Kind::List(IntKind::I64) => "IntVec<i64>"@,
        Kind::List(IntKind::U32) => "IntVec<u32>"@,
        Kind::List(IntKind::U64) => "IntVec<u64>"@,
    }
}
/// Relies on `String::push`: it appends the one character to the string.
#[verifier::external_body]
fn push_char(s: &mut String, c: char)
    ensures
        final(s)@ == old(s)@.push(c),
{
    s.push(c)
}

/// Integer types whose values can be compared against a range and rendered.
pub trait IntegerBehavior: Copy + Sized {
    /// The value as a mathematical integer.
    spec fn int_value(&self) -> int;

    /// Whether the value lies in `[min, max]`.
    fn is_within_range(&self, min: Self, max: Self) -> (r: bool)
        ensures
            r == (min.int_value() <= self.int_value() && self.int_value() <= max.int_value()),
    ;

    /// The value, widened.
    fn to_wide(&self) -> (r: i128)
        ensures
            r as int == self.int_value(),
            -0x1_0000_0000_0000_0000 < r < 0x1_0000_0000_0000_0000,
    ;
}

impl IntegerBehavior for i8 {
    open spec fn int_value(&self) -> int {
        *self as int
    }

    fn is_within_range(&self, min: Self, max: Self) -> (r: bool) {
        *self >= min && *self <= max
    }

    fn to_wide(&self) -> (r: i128) {
        *self as i128
    }
}

impl IntegerBehavior for i16 {
    open spec fn int_value(&self) -> int {
        *self as int
    }

    fn is_within_range(&self, min: Self, max: Self) -> (r: bool) {
        *self >= min && *self <= max
    }

    fn to_wide(&self) -> (r: i128) {
        *self as i128
    }
}

impl IntegerBehavior for i32 {
    open spec fn int_value(&self) -> int {
        *self as int
    }

    fn is_within_range(&self, min: Self, max: Self) -> (r: bool) {
        *self >= min && *self <= max
    }

    fn to_wide(&self) -> (r: i128) {
        *self as i128
    }
}

impl IntegerBehavior for i64 {
    open spec fn int_value(&self) -> int {
        *self as int
    }

    fn is_within_range(&self, min: Self, max: Self) -> (r: bool) {
        *self >= min && *self <= max
    }

    fn to_wide(&self) -> (r: i128) {
        *self as i128
    }
}

impl IntegerBehavior for u8 {
    open spec fn int_value(&self) -> int {
        *self as int
    }

    fn is_within_range(&self, min: Self, max: Self) -> (r: bool) {
        *self >= min && *self <= max
    }

    fn to_wide(&self) -> (r: i128) {
        *self as i128
    }
}

impl IntegerBehavior for u16 {
    open spec fn int_value(&self) -> int {
        *self as int
    }

    fn is_within_range(&self, min: Self, max: Self) -> (r: bool) {
        *self >= min && *self <= max
    }

    fn to_wide(&self) -> (r: i128) {
        *self as i128
    }
}

impl IntegerBehavior for u32 {
    open spec fn int_value(&self) -> int {
        *self as int
    }

    fn is_within_range(&self, min: Self, max: Self) -> (r: bool) {
        *self >= min && *self <= max
    }

    fn to_wide(&self) -> (r: i128) {
        *self as i128
    }
}

impl IntegerBehavior for u64 {
    open spec fn int_value(&self) -> int {
        *self as int
    }

    fn is_within_range(&self, min: Self, max: Self) -> (r: bool) {
        *self >= min && *self <= max
    }

    fn to_wide(&self) -> (r: i128) {
        *self as i128
    }
}

/// A list of integers, rendered as `[a, b, c]`.
#[derive(Debug)]
pub struct IntVec<T: IntegerBehavior>(pub Vec<T>);

impl<T: IntegerBehavior> IntVec<T> {
    /// The items as mathematical integers.
    pub open spec fn ints(&self) -> Seq<int> {
        self.0@.map_values(|x: T| x.int_value())
    }

    /// The list as text, in the form `[85, 92, 78]`.
    pub fn to_string(&self) -> (r: String)
        ensures
            r@ == list_text(self.ints()),
    {
        let mut out = String::new();
        push_char(&mut out, '[');
        let mut i: usize = 0;
        while i < self.0.len()
            invariant
                i <= self.0@.len(),
                out@ == seq!['['] + list_items(self.ints().take(i as int)),
            decreases self.0@.len() - i,
        {
            let ghost before = out@;
            if i > 0 {
                push_char(&mut out, ',');
                push_char(&mut out, ' ');
            }
            write_int(self.0[i].to_wide(), &mut out);
            proof {
                let t = self.ints().take(i + 1);
                assert(t.drop_last() =~= self.ints().take(i as int));
                assert(t.last() == self.0@[i as int].int_value());
                assert(out@ =~= seq!['['] + list_items(t));
            }
            i = i + 1;
        }
        push_char(&mut out, ']');
        proof {
            assert(self.ints().take(i as int) =~= self.ints());
            assert(out@ =~= list_text(self.ints()));
        }
        out
    }

    /// A copy holding the same items.
    pub fn duplicate(&self) -> (r: IntVec<T>)
        ensures
            r.0@ == self.0@,
    {
        let mut items: Vec<T> = Vec::new();
        let mut i: usize = 0;
        while i < self.0.len()
            invariant
                i <= self.0@.len(),
                items@ == self.0@.take(i as int),
            decreases self.0@.len() - i,
        {
            items.push(self.0[i]);
            proof {
                assert(items@ =~= self.0@.take(i + 1));
            }
            i = i + 1;
        }
        proof {
            assert(self.0@.take(i as int) =~= self.0@);
        }
        IntVec(items)
    }
}

impl<T: IntegerBehavior> From<IntVec<T>> for Vec<T> {
    fn from(value: IntVec<T>) -> (r: Vec<T>) {
        value.0
    }
}

impl<T: IntegerBehavior> vstd::std_specs::convert::FromSpecImpl<IntVec<T>> for Vec<T> {
    open spec fn obeys_from_spec() -> bool {
        true
    }

    open spec fn from_spec(v: IntVec<T>) -> Vec<T> {
        v.0
    }
}


/// A stored value of one of the supported types.
#[derive(Debug)]
pub enum Value {
    Text(String),
    Str(&'static str),
    Bool(bool),
    Char(char),
    I32(i32),
    I64(i64),
    U32(u32),
    U64(u64),
    ListI32(IntVec<i32>),
    ListI64(IntVec<i64>),
    ListU32(IntVec<u32>),
    ListU64(IntVec<u64>),
}

impl View for Value {
    type V = ValueModel;

    open spec fn view(&self) -> ValueModel {
        match self {
            Value::Text(x) => ValueModel::Text(x@),
            Value::Str(x) => ValueModel::Str(x@),
            Value::Bool(x) => ValueModel::Bool(*x),
            Value::Char(x) => ValueModel::Char(*x),
            Value::I32(x) => ValueModel::Int(IntKind::I32, *x as int),
            Value::I64(x) => ValueModel::Int(IntKind::I64, *x as int),
            Value::U32(x) => ValueModel::Int(IntKind::U32, *x as int),
            Value::U64(x) => ValueModel::Int(IntKind::U64, *x as int),
            Value::ListI32(x) => ValueModel::List(IntKind::I32, x.ints()),
            Value::ListI64(x) => ValueModel::List(IntKind::I64, x.ints()),
            Value::ListU32(x) => ValueModel::List(IntKind::U32, x.ints()),
            Value::ListU64(x) => ValueModel::List(IntKind::U64, x.ints()),
        }
    }
}

impl Value {
    /// The canonical text of the value.
    pub fn render(&self) -> (r: String)
        ensures
            r@ == render(self@),
    {
        match self {
            Value::Text(s) => s.clone(),
            Value::Str(s) => String::from_str(s),
            Value::Bool(b) => {
                proof {
                    reveal_strlit("true");
                    reveal_strlit("false");
                }
                if *b {
                    String::from_str("true")
                } else {
                    String::from_str("false")
                }
            },
            Value::Char(c) => {
                let mut out = String::new();
                push_char(&mut out, *c);
                proof {
                    assert(out@ =~= seq![*c]);
                }
                out
            },
            Value::I32(n) => {
                let mut out = String::new();
                write_int(*n as i128, &mut out);
                proof {
                    assert(out@ =~= dec_int(*n as int));
                }
                out
            },
            Value::I64(n) => {
                let mut out = String::new();
                write_int(*n as i128, &mut out);
                proof {
                    assert(out@ =~= dec_int(*n as int));
                }
                out
            },
            Value::U32(n) => {
                let mut out = String::new();
                write_int(*n as i128, &mut out);
                proof {
                    assert(out@ =~= dec_int(*n as int));
                }
                out
            },
            Value::U64(n) => {
                let mut out = String::new();
                write_int(*n as i128, &mut out);
                proof {
                    assert(out@ =~= dec_int(*n as int));
                }
                out
            },
            Value::ListI32(l) => l.to_string(),
            Value::ListI64(l) => l.to_string(),
            Value::ListU32(l) => l.to_string(),
            Value::ListU64(l) => l.to_string(),
        }
    }

    /// The name of the value's type, for diagnostics.
    pub fn kind_name(&self) -> (r: &'static str)
        ensures
            r@ == kind_name_of(self@.kind()),
    {
        match self {
            Value::Text(_) => "String",
            Value::Str(_) => "&str",
            Value::Bool(_) => "bool",
            Value::Char(_) => "char",
            Value::I32(_) => "i32",
            Value::I64(_) => "i64",
            Value::U32(_) => "u32",
            Value::U64(_) => "u64",
            Value::ListI32(_) => "IntVec<i32>",
            Value::ListI64(_) => "IntVec<i64>",
            Value::ListU32(_) => "IntVec<u32>",
            Value::ListU64(_) => "IntVec<u64>",
        }
    }

    /// An independent copy of the value.
    pub fn clone_value(&self) -> (r: Value)
        ensures
            r@ == self@,
    {
        match self {
            Value::Text(s) => Value::Text(s.clone()),
            Value::Str(s) => Value::Str(*s),
            Value::Bool(b) => Value::Bool(*b),
            Value::Char(c) => Value::Char(*c),
            Value::I32(n) => Value::I32(*n),
            Value::I64(n) => Value::I64(*n),
            Value::U32(n) => Value::U32(*n),
            Value::U64(n) => Value::U64(*n),
            Value::ListI32(l) => {
                let c = l.duplicate();
                proof {
                    assert(c.ints() =~= l.ints());
                }
                Value::ListI32(c)
            },
            Value::ListI64(l) => {
                let c = l.duplicate();
                proof {
                    assert(c.ints() =~= l.ints());
                }
                Value::ListI64(c)
            },
            Value::ListU32(l) => {
                let c = l.duplicate();
                proof {
                    assert(c.ints() =~= l.ints());
                }
                Value::ListU32(c)
            },
            Value::ListU64(l) => {
                let c = l.duplicate();
                proof {
                    assert(c.ints() =~= l.ints());
                }
                Value::ListU64(c)
            },
        }
    }
}

/// A type whose values a container can hold, and recover by their type.
///
/// It is implemented for the closed set of types that `Value` has a variant
/// for; each such type maps to a kind of its own.
pub trait ParameterValue: Sized {
    /// The stored form of a value of this type.
    spec fn model(&self) -> ValueModel;

    /// The dynamic type that this type stands for.
    spec fn kind() -> Kind;

    proof fn lemma_model_kind(&self)
        ensures
            self.model().kind() == Self::kind(),
    ;

    /// Wraps the value for storage.
    fn into_value(self) -> (r: Value)
        ensures
            r@ == self.model(),
    ;

    /// The value inside `v`, if `v` holds one of exactly this type.
    fn downcast(v: &Value) -> (r: Option<&Self>)
        ensures
            (r is Some) == (v@.kind() == Self::kind()),
            r matches Some(x) ==> x.model() == v@,
    ;
}

impl ParameterValue for String {
    open spec fn model(&self) -> ValueModel {
        ValueModel::Text(self@)
    }

    open spec fn kind() -> Kind {
        Kind::Text
    }

    proof fn lemma_model_kind(&self) {
    }

    fn into_value(self) -> (r: Value) {
        Value::Text(self)
    }

    fn downcast(v: &Value) -> (r: Option<&Self>) {
        match v {
            Value::Text(x) => Some(x),
            _ => None,
        }
    }
}

impl ParameterValue for &'static str {
    open spec fn model(&self) -> ValueModel {
        ValueModel::Str(self@)
    }

    open spec fn kind() -> Kind {
        Kind::Str
    }

    proof fn lemma_model_kind(&self) {
    }

    fn into_value(self) -> (r: Value) {
        Value::Str(self)
    }

    fn downcast(v: &Value) -> (r: Option<&Self>) {
        match v {
            Value::Str(x) => Some(x),
            _ => None,
        }
    }
}

impl ParameterValue for bool {
    open spec fn model(&self) -> ValueModel {
        ValueModel::Bool(*self)
    }

    open spec fn kind() -> Kind {
        Kind::Bool
    }

    proof fn lemma_model_kind(&self) {
    }

    fn into_value(self) -> (r: Value) {
        Value::Bool(self)
    }

    fn downcast(v: &Value) -> (r: Option<&Self>) {
        match v {
            Value::Bool(x) => Some(x),
            _ => None,
        }
    }
}

impl ParameterValue for char {
    open spec fn model(&self) -> ValueModel {
        ValueModel::Char(*self)
    }

    open spec fn kind() -> Kind {
        Kind::Char
    }

    proof fn lemma_model_kind(&self) {
    }

    fn into_value(self) -> (r: Value) {
        Value::Char(self)
    }

    fn downcast(v: &Value) -> (r: Option<&Self>) {
        match v {
            Value::Char(x) => Some(x),
            _ => None,
        }
    }
}

impl ParameterValue for i32 {
    open spec fn model(&self) -> ValueModel {
        ValueModel::Int(IntKind::I32, *self as int)
    }

    open spec fn kind() -> Kind {
        Kind::Int(IntKind::I32)
    }

    proof fn lemma_model_kind(&self) {
    }

    fn into_value(self) -> (r: Value) {
        Value::I32(self)
    }

    fn downcast(v: &Value) -> (r: Option<&Self>) {
        match v {
            Value::I32(x) => Some(x),
            _ => None,
        }
    }
}

impl ParameterValue for i64 {
    open spec fn model(&self) -> ValueModel {
        ValueModel::Int(IntKind::I64, *self as int)
    }

    open spec fn kind() -> Kind {
        Kind::Int(IntKind::I64)
    }

    proof fn lemma_model_kind(&self) {
    }

    fn into_value(self) -> (r: Value) {
        Value::I64(self)
    }

    fn downcast(v: &Value) -> (r: Option<&Self>) {
        match v {
            Value::I64(x) => Some(x),
            _ => None,
        }
    }
}

impl ParameterValue for u32 {
    open spec fn model(&self) -> ValueModel {
        ValueModel::Int(IntKind::U32, *self as int)
    }

    open spec fn kind() -> Kind {
        Kind::Int(IntKind::U32)
    }

    proof fn lemma_model_kind(&self) {
    }

    fn into_value(self) -> (r: Value) {
        Value::U32(self)
    }

    fn downcast(v: &Value) -> (r: Option<&Self>) {
        match v {
            Value::U32(x) => Some(x),
            _ => None,
        }
    }
}

impl ParameterValue for u64 {
    open spec fn model(&self) -> ValueModel {
        ValueModel::Int(IntKind::U64, *self as int)
    }

    open spec fn kind() -> Kind {
        Kind::Int(IntKind::U64)
    }

    proof fn lemma_model_kind(&self) {
    }

    fn into_value(self) -> (r: Value) {
        Value::U64(self)
    }

    fn downcast(v: &Value) -> (r: Option<&Self>) {
        match v {
            Value::U64(x) => Some(x),
            _ => None,
        }
    }
}

impl ParameterValue for IntVec<i32> {
    open spec fn model(&self) -> ValueModel {
        ValueModel::List(IntKind::I32, self.ints())
    }

    open spec fn kind() -> Kind {
        Kind::List(IntKind::I32)
    }

    proof fn lemma_model_kind(&self) {
    }

    fn into_value(self) -> (r: Value) {
        Value::ListI32(self)
    }

    fn downcast(v: &Value) -> (r: Option<&Self>) {
        match v {
            Value::ListI32(x) => Some(x),
            _ => None,
        }
    }
}

impl ParameterValue for IntVec<i64> {
    open spec fn model(&self) -> ValueModel {
        ValueModel::List(IntKind::I64, self.ints())
    }

    open spec fn kind() -> Kind {
        Kind::List(IntKind::I64)
    }

    proof fn lemma_model_kind(&self) {
    }

    fn into_value(self) -> (r: Value) {
        Value::ListI64(self)
    }

    fn downcast(v: &Value) -> (r: Option<&Self>) {
        match v {
            Value::ListI64(x) => Some(x),
            _ => None,
        }
    }
}

impl ParameterValue for IntVec<u32> {
    open spec fn model(&self) -> ValueModel {
        ValueModel::List(IntKind::U32, self.ints())
    }

    open spec fn kind() -> Kind {
        Kind::List(IntKind::U32)
    }

    proof fn lemma_model_kind(&self) {
    }

    fn into_value(self) -> (r: Value) {
        Value::ListU32(self)
    }

    fn downcast(v: &Value) -> (r: Option<&Self>) {
        match v {
            Value::ListU32(x) => Some(x),
            _ => None,
        }
    }
}

impl ParameterValue for IntVec<u64> {
    open spec fn model(&self) -> ValueModel {
        ValueModel::List(IntKind::U64, self.ints())
    }

    open spec fn kind() -> Kind {
        Kind::List(IntKind::U64)
    }

    proof fn lemma_model_kind(&self) {
    }

    fn into_value(self) -> (r: Value) {
        Value::ListU64(self)
    }

    fn downcast(v: &Value) -> (r: Option<&Self>) {
        match v {
            Value::ListU64(x) => Some(x),
            _ => None,
        }
    }
}

/// A type that can be read back from text.
pub trait FromText: ParameterValue {
    /// The value that the text denotes, if any.
    spec fn parse_spec(s: Seq<char>) -> Option<ValueModel>;

    fn from_text(s: &str) -> (r: Option<Self>)
        ensures
            (r is Some) == (Self::parse_spec(s@) is Some),
            r matches Some(v) ==> Self::parse_spec(s@) == Some(v.model()),
    ;
}

impl FromText for String {
    open spec fn parse_spec(s: Seq<char>) -> Option<ValueModel> {
        Some(ValueModel::Text(s))
    }

    fn from_text(s: &str) -> (r: Option<Self>) {
        Some(String::from_str(s))
    }
}

impl FromText for bool {
    open spec fn parse_spec(s: Seq<char>) -> Option<ValueModel> {
        if s == bool_text(true) {
            Some(ValueModel::Bool(true))
        } else if s == bool_text(false) {
            Some(ValueModel::Bool(false))
        } else {
            None
        }
    }

    fn from_text(s: &str) -> (r: Option<Self>) {
        proof {
            reveal_strlit("true");
            reveal_strlit("false");
            assert("true"@ =~= bool_text(true));
            assert("false"@ =~= bool_text(false));
        }
        if compare_keys(s, "true") == 0 {
            Some(true)
        } else if compare_keys(s, "false") == 0 {
            Some(false)
        } else {
            None
        }
    }
}

impl FromText for i32 {
    open spec fn parse_spec(s: Seq<char>) -> Option<ValueModel> {
        match parse_int(s) {
            Some(n) => if i32::MIN <= n <= i32::MAX {
                Some(ValueModel::Int(IntKind::I32, n))
            } else {
                None
            },
            None => None,
        }
    }

    fn from_text(s: &str) -> (r: Option<Self>) {
        match parse_int_in(s, i32::MIN as i128, i32::MAX as i128) {
            Some(v) => Some(v as i32),
            None => None,
        }
    }
}

impl FromText for i64 {
    open spec fn parse_spec(s: Seq<char>) -> Option<ValueModel> {
        match parse_int(s) {
            Some(n) => if i64::MIN <= n <= i64::MAX {
                Some(ValueModel::Int(IntKind::I64, n))
            } else {
                None
            },
            None => None,
        }
    }

    fn from_text(s: &str) -> (r: Option<Self>) {
        match parse_int_in(s, i64::MIN as i128, i64::MAX as i128) {
            Some(v) => Some(v as i64),
            None => None,
        }
    }
}

impl FromText for u32 {
    open spec fn parse_spec(s: Seq<char>) -> Option<ValueModel> {
        match parse_int(s) {
            Some(n) => if u32::MIN <= n <= u32::MAX {
                Some(ValueModel::Int(IntKind::U32, n))
            } else {
                None
            },
            None => None,
        }
    }

    fn from_text(s: &str) -> (r: Option<Self>) {
        match parse_int_in(s, u32::MIN as i128, u32::MAX as i128) {
            Some(v) => Some(v as u32),
            None => None,
        }
    }
}

impl FromText for u64 {
    open spec fn parse_spec(s: Seq<char>) -> Option<ValueModel> {
        match parse_int(s) {
            Some(n) => if u64::MIN <= n <= u64::MAX {
                Some(ValueModel::Int(IntKind::U64, n))
            } else {
                None
            },
            None => None,
        }
    }

    fn from_text(s: &str) -> (r: Option<Self>) {
        match parse_int_in(s, u64::MIN as i128, u64::MAX as i128) {
            Some(v) => Some(v as u64),
            None => None,
        }
    }
}

} // verus!
