//! The embedded language's values, as the boundary layer sees them.

use crate::decimal::DecimalValue;
use crate::error::{BridgeError, ErrorView};
use vstd::prelude::*;

verus! {

/// Owning reference to a function of the host runtime. The host keeps the
/// function itself; the handle is the name under which it stored it.
#[derive(Clone, Copy, Debug, PartialEq, Eq)]
pub struct HostCallableRef {
    pub handle: u64,
}

/// A value of the embedded language. The variants are the type tags that the
/// boundary layer tells apart; every other type is `Other` with its name.
#[derive(Debug, PartialEq)]
pub enum Value {
    NoneValue,
    Bool(bool),
    Int(i128),
    /// A double, held as its IEEE-754 bit pattern.
    Float(u64),
    Str(String),
    List(Vec<Value>),
    Tuple(Vec<Value>),
    /// The entries in insertion order.
    Dict(Vec<(Value, Value)>),
    Decimal(DecimalValue),
    Callable(HostCallableRef),
    /// A value of a type that the boundary layer does not look into, with
    /// the name of that type.
    Other(String),
}

/// What a `Value` holds.
pub enum ValueView {
    NoneValue,
    Bool(bool),
    Int(int),
    Float(u64),
    Str(Seq<char>),
    List(Seq<ValueView>),
    Tuple(Seq<ValueView>),
    Dict(Seq<(ValueView, ValueView)>),
    Decimal(DecimalValue),
    Callable(u64),
    Other(Seq<char>),
}

impl View for Value {
    type V = ValueView;

    open spec fn view(&self) -> ValueView
        decreases self,
    {
        match self {
            Value::NoneValue => ValueView::NoneValue,
            Value::Bool(b) => ValueView::Bool(*b),
            Value::Int(n) => ValueView::Int(*n as int),
            Value::Float(bits) => ValueView::Float(*bits),
            Value::Str(s) => ValueView::Str(s@),
            Value::List(items) => ValueView::List(view_items(items@)),
            Value::Tuple(items) => ValueView::Tuple(view_items(items@)),
            Value::Dict(entries) => ValueView::Dict(view_entries(entries@)),
            Value::Decimal(d) => ValueView::Decimal(*d),
            Value::Callable(c) => ValueView::Callable(c.handle),
            Value::Other(name) => ValueView::Other(name@),
        }
    }
}

/// The views of `items`, in order.
pub open spec fn view_items(items: Seq<Value>) -> Seq<ValueView>
    decreases items,
{
    Seq::new(
        items.len(),
        |i: int|
            if 0 <= i < items.len() {
                items[i]@
            } else {
                ValueView::NoneValue
            },
    )
}

/// The views of `entries`, in order.
pub open spec fn view_entries(entries: Seq<(Value, Value)>) -> Seq<(ValueView, ValueView)>
    decreases entries,
{
    Seq::new(
        entries.len(),
        |i: int|
            if 0 <= i < entries.len() {
                (entries[i].0@, entries[i].1@)
            } else {
                (ValueView::NoneValue, ValueView::NoneValue)
            },
    )
}

/// The name of the type of a value, as the embedded language reports it.
pub open spec fn kind_name(v: ValueView) -> Seq<char> {
    match v {
        ValueView::NoneValue => "NoneType"@,
        ValueView::Bool(_) => "bool"@,
        ValueView::Int(_) => "int"@,
        ValueView::Float(_) => "float"@,
        ValueView::Str(_) => "string"@,
        ValueView::List(_) => "list"@,
        ValueView::Tuple(_) => "tuple"@,
        ValueView::Dict(_) => "dict"@,
        ValueView::Decimal(_) => "rust_decimal"@,
        ValueView::Callable(_) => "python_callable_value"@,
        ValueView::Other(name) => name,
    }
}

/// The view of an outcome that is a value or an error.
pub open spec fn outcome_view(r: Result<Value, BridgeError>) -> Result<ValueView, ErrorView> {
    match r {
        Ok(v) => Ok(v@),
        Err(e) => Err(e@),
    }
}

impl Value {
    /// The name of the type of the value.
    pub fn get_type(&self) -> (r: String)
        ensures
            r@ == kind_name(self@),
    {
        match self {
            Value::NoneValue => "NoneType".to_owned(),
            Value::Bool(_) => "bool".to_owned(),
            Value::Int(_) => "int".to_owned(),
            Value::Float(_) => "float".to_owned(),
            Value::Str(_) => "string".to_owned(),
            Value::List(_) => "list".to_owned(),
            Value::Tuple(_) => "tuple".to_owned(),
            Value::Dict(_) => "dict".to_owned(),
            Value::Decimal(_) => "rust_decimal".to_owned(),
            Value::Callable(_) => "python_callable_value".to_owned(),
            Value::Other(name) => name.clone(),
        }
    }
}

} // verus!
