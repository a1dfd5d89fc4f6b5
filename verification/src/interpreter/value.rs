use crate::interpreter::number::{equal, number_eq};
use crate::lexer::{Token, TokenView};
use vstd::prelude::*;
use vstd::std_specs::cmp::PartialEqSpecImpl;

verus! {

/// A value at run time. A number is held as the bits of a single-precision
/// floating-point value.
#[derive(Debug)]
pub enum Value {
    Number(u32),
    String(String),
    Boolean(bool),
    Nil,
}

/// What a `Value` stands for in contracts.
pub enum ValueView {
    Number(u32),
    String(Seq<char>),
    Boolean(bool),
    Nil,
}

impl View for Value {
    type V = ValueView;

    open spec fn view(&self) -> ValueView {
        match self {
            Value::Number(bits) => ValueView::Number(*bits),
            Value::String(text) => ValueView::String(text@),
            Value::Boolean(b) => ValueView::Boolean(*b),
            Value::Nil => ValueView::Nil,
        }
    }
}

/// The truth of a value where a condition is wanted: `nil` and `false` are
/// false, everything else is true.
pub open spec fn truthy(value: ValueView) -> bool {
    match value {
        ValueView::Boolean(b) => b,
        ValueView::Nil => false,
        _ => true,
    }
}

/// Equality of two values: never between different variants; numbers as
/// numbers compare, text and booleans by what they hold.
pub open spec fn values_equal(left: ValueView, right: ValueView) -> bool {
    match (left, right) {
        (ValueView::Number(a), ValueView::Number(b)) => number_eq(a, b),
        (ValueView::String(a), ValueView::String(b)) => a == b,
        (ValueView::Boolean(a), ValueView::Boolean(b)) => a == b,
        (ValueView::Nil, ValueView::Nil) => true,
        _ => false,
    }
}

impl Value {
    pub fn is_truthy(&self) -> (r: bool)
        ensures
            r == truthy(self@),
    {
        match self {
            Value::Boolean(boolean) => *boolean,
            Value::Nil => false,
            _ => true,
        }
    }
}

impl Clone for Value {
    fn clone(&self) -> (r: Self)
        ensures
            r@ == self@,
    {
        match self {
            Value::Number(bits) => Value::Number(*bits),
            Value::String(text) => Value::String(text.clone()),
            Value::Boolean(b) => Value::Boolean(*b),
            Value::Nil => Value::Nil,
        }
    }
}

impl PartialEq for Value {
    fn eq(&self, other: &Value) -> (r: bool) {
        match (self, other) {
            (Value::Number(a), Value::Number(b)) => equal(*a, *b),
            (Value::String(a), Value::String(b)) => *a == *b,
            (Value::Boolean(a), Value::Boolean(b)) => *a == *b,
            (Value::Nil, Value::Nil) => true,
            _ => false,
        }
    }
}

impl PartialEqSpecImpl for Value {
    open spec fn obeys_eq_spec() -> bool {
        true
    }

    open spec fn eq_spec(&self, other: &Value) -> bool {
        values_equal(self@, other@)
    }
}

/// An error raised while evaluating: the operator at which it arose and the
/// message.
#[derive(Debug)]
pub enum RuntimeError {
    TypeError(Token, String),
}

/// What a `RuntimeError` stands for in contracts.
pub enum RuntimeErrorView {
    TypeError(TokenView, Seq<char>),
}

impl View for RuntimeError {
    type V = RuntimeErrorView;

    open spec fn view(&self) -> RuntimeErrorView {
        match self {
            RuntimeError::TypeError(token, message) => RuntimeErrorView::TypeError(
                token@,
                message@,
            ),
        }
    }
}

} // verus!
