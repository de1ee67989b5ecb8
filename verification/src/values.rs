//! Runtime values: nil, booleans, numbers, and strings, with the
//! display rule of each variant.
use vstd::prelude::*;

use crate::number::{display_spec, Number};

verus! {

pub enum Value {
    Nil,
    Boolean(bool),
    Number(Number),
    String(String),
}

/// The mathematical content of a runtime value.
pub ghost enum ValueModel {
    Nil,
    Bool(bool),
    Num(Number),
    Str(Seq<char>),
}

impl View for Value {
    type V = ValueModel;

    open spec fn view(&self) -> ValueModel {
        match self {
            Value::Nil => ValueModel::Nil,
            Value::Boolean(b) => ValueModel::Bool(*b),
            Value::Number(n) => ValueModel::Num(*n),
            Value::String(s) => ValueModel::Str(s@),
        }
    }
}

/// A value is well formed when a held number is.
pub open spec fn value_wf(v: ValueModel) -> bool {
    match v {
        ValueModel::Num(n) => n.wf(),
        _ => true,
    }
}

/// The truthiness rule: nil is false, a boolean is itself, a number is
/// false exactly when it is zero, and a string is false exactly when it
/// is empty.
pub open spec fn truthy_spec(v: ValueModel) -> bool {
    match v {
        ValueModel::Nil => false,
        ValueModel::Bool(b) => b,
        ValueModel::Num(n) => !n.spec_is_zero(),
        ValueModel::Str(s) => s.len() > 0,
    }
}

/// The displayed text of a value: numbers without a trailing zero
/// fraction, booleans as their names, nil as its name, and strings
/// wrapped in quotation marks.
pub open spec fn display_value_spec(v: ValueModel) -> Seq<char> {
    match v {
        ValueModel::Nil => "nil"@,
        ValueModel::Bool(b) => if b {
            "true"@
        } else {
            "false"@
        },
        ValueModel::Num(n) => display_spec(n),
        ValueModel::Str(s) => seq!['"'] + s + seq!['"'],
    }
}

impl Value {
    pub fn is_nil(&self) -> (r: bool)
        ensures
            r == (self@ is Nil),
    {
        match self {
            Value::Nil => true,
            _ => false,
        }
    }

    pub fn is_boolean(&self) -> (r: bool)
        ensures
            r == (self@ is Bool),
    {
        match self {
            Value::Boolean(_) => true,
            _ => false,
        }
    }

    pub fn is_number(&self) -> (r: bool)
        ensures
            r == (self@ is Num),
    {
        match self {
            Value::Number(_) => true,
            _ => false,
        }
    }

    pub fn is_string(&self) -> (r: bool)
        ensures
            r == (self@ is Str),
    {
        match self {
            Value::String(_) => true,
            _ => false,
        }
    }

    pub fn create_boolean(boolean: bool) -> (r: Value)
        ensures
            r@ == ValueModel::Bool(boolean),
    {
        Value::Boolean(boolean)
    }

    pub fn create_number(number: Number) -> (r: Value)
        ensures
            r@ == ValueModel::Num(number),
    {
        Value::Number(number)
    }

    pub fn create_string(string: String) -> (r: Value)
        ensures
            r@ == ValueModel::Str(string@),
    {
        Value::String(string)
    }

    pub fn create_nil() -> (r: Value)
        ensures
            r@ == ValueModel::Nil,
    {
        Value::Nil
    }

    /// Whether the value counts as true in a logical context.
    pub fn is_truthy(&self) -> (r: bool)
        ensures
            r == truthy_spec(self@),
    {
        match self {
            Value::Nil => false,
            Value::Boolean(boolean) => *boolean,
            Value::Number(number) => !number.is_zero(),
            Value::String(string) => string.as_str().unicode_len() > 0,
        }
    }

    /// The held number.
    pub fn as_number(&self) -> (r: Number)
        requires
            self@ is Num,
        ensures
            self@ == ValueModel::Num(r),
    {
        match self {
            Value::Number(number) => *number,
            _ => Number::NotANumber,
        }
    }

    /// The held string's characters.
    pub fn as_string(&self) -> (r: &str)
        requires
            self@ is Str,
        ensures
            self@ == ValueModel::Str(r@),
    {
        match self {
            Value::String(string) => string.as_str(),
            _ => "",
        }
    }

    /// The held boolean.
    pub fn as_boolean(&self) -> (r: bool)
        requires
            self@ is Bool,
        ensures
            self@ == ValueModel::Bool(r),
    {
        match self {
            Value::Boolean(boolean) => *boolean,
            _ => false,
        }
    }

    /// Renders the value for the user.
    pub fn display(&self) -> (r: String)
        requires
            value_wf(self@),
        ensures
            r@ == display_value_spec(self@),
    {
        match self {
            Value::Nil => String::from_str("nil"),
            Value::Boolean(b) => if *b {
                String::from_str("true")
            } else {
                String::from_str("false")
            },
            Value::Number(n) => n.display(),
            Value::String(s) => {
                let mut out = String::from_str("\"");
                out.append(s.as_str());
                out.append("\"");
                proof {
                    reveal_strlit("\"");
                    assert(out@ =~= seq!['"'] + s@ + seq!['"']);
                }
                out
            },
        }
    }
}

} // verus!
