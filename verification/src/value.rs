//! Values, and columns of them.

use std::sync::Arc;
use vstd::prelude::*;

use crate::names::same_name;
use crate::num::Num;

verus! {

/// A colour: red, green, blue and alpha as binary32 bit patterns.
#[derive(Clone, Copy, Debug, PartialEq, Eq, Structural)]
pub struct Color {
    /// Red.
    pub r: u32,
    /// Green.
    pub g: u32,
    /// Blue.
    pub b: u32,
    /// Alpha.
    pub a: u32,
}

/// One step of a line pattern.
#[derive(Clone, Copy, Debug, PartialEq, Eq, Structural)]
pub enum LinetypeStep {
    /// Ink over this many points.
    Dash(Num),
    /// No ink over this many points.
    Gap(Num),
    /// A marker, by its index in the shape registry.
    Marker(u32),
}

/// One cell of data, or one constant.
#[derive(Debug)]
pub enum Value {
    /// A number.
    Number(Num),
    /// A calendar date, as its numeric coordinate.
    Date(Num),
    /// A point in time, as its numeric coordinate.
    DateTime(Num),
    /// A time of day, as its numeric coordinate.
    Time(Num),
    /// A span of time, as its numeric coordinate.
    Duration(Num),
    /// A string.
    String(String),
    /// A truth value.
    Bool(bool),
    /// A colour.
    Color(Color),
    /// A line pattern.
    Linetype(Arc<Vec<LinetypeStep>>),
    /// Nothing.
    Null,
}

/// Whether `a` and `b` stand for the same key: the same kind of value with the
/// same contents.
pub open spec fn same_key(a: Value, b: Value) -> bool {
    match (a, b) {
        (Value::Number(x), Value::Number(y)) => x == y,
        (Value::Date(x), Value::Date(y)) => x == y,
        (Value::DateTime(x), Value::DateTime(y)) => x == y,
        (Value::Time(x), Value::Time(y)) => x == y,
        (Value::Duration(x), Value::Duration(y)) => x == y,
        (Value::String(x), Value::String(y)) => x@ == y@,
        (Value::Bool(x), Value::Bool(y)) => x == y,
        (Value::Color(x), Value::Color(y)) => x == y,
        (Value::Linetype(x), Value::Linetype(y)) => x@ == y@,
        (Value::Null, Value::Null) => true,
        _ => false,
    }
}

/// The number in a value of any numeric kind.
pub open spec fn number_in(v: Value) -> Option<Num> {
    match v {
        Value::Number(n) => Some(n),
        Value::Date(n) => Some(n),
        Value::DateTime(n) => Some(n),
        Value::Time(n) => Some(n),
        Value::Duration(n) => Some(n),
        _ => None,
    }
}

impl Value {
    /// The same value again.
    pub fn copied(&self) -> (r: Value)
        ensures
            r == *self,
    {
        match self {
            Value::Number(n) => Value::Number(*n),
            Value::Date(n) => Value::Date(*n),
            Value::DateTime(n) => Value::DateTime(*n),
            Value::Time(n) => Value::Time(*n),
            Value::Duration(n) => Value::Duration(*n),
            Value::String(s) => Value::String(s.clone()),
            Value::Bool(b) => Value::Bool(*b),
            Value::Color(c) => Value::Color(*c),
            Value::Linetype(l) => Value::Linetype(l.clone()),
            Value::Null => Value::Null,
        }
    }

    /// The number, for a value of any numeric kind.
    pub fn as_number(&self) -> (r: Option<Num>)
        ensures
            r == number_in(*self),
    {
        match self {
            Value::Number(n) => Some(*n),
            Value::Date(n) => Some(*n),
            Value::DateTime(n) => Some(*n),
            Value::Time(n) => Some(*n),
            Value::Duration(n) => Some(*n),
            _ => None,
        }
    }

    /// The string, for a string.
    pub fn as_str(&self) -> (r: Option<&str>)
        ensures
            match r {
                Some(s) => *self matches Value::String(t) && s@ == t@,
                None => !(*self is String),
            },
    {
        match self {
            Value::String(s) => Some(s.as_str()),
            _ => None,
        }
    }

    /// Whether two values stand for the same key.
    pub fn key_eq(&self, other: &Value) -> (r: bool)
        ensures
            r == same_key(*self, *other),
    {
        match (self, other) {
            (Value::Number(x), Value::Number(y)) => *x == *y,
            (Value::Date(x), Value::Date(y)) => *x == *y,
            (Value::DateTime(x), Value::DateTime(y)) => *x == *y,
            (Value::Time(x), Value::Time(y)) => *x == *y,
            (Value::Duration(x), Value::Duration(y)) => *x == *y,
            (Value::String(x), Value::String(y)) => same_name(x.as_str(), y.as_str()),
            (Value::Bool(x), Value::Bool(y)) => *x == *y,
            (Value::Color(x), Value::Color(y)) => *x == *y,
            (Value::Linetype(x), Value::Linetype(y)) => same_steps(x, y),
            (Value::Null, Value::Null) => true,
            _ => false,
        }
    }
}

fn same_steps(a: &Vec<LinetypeStep>, b: &Vec<LinetypeStep>) -> (r: bool)
    ensures
        r == (a@ == b@),
{
    if a.len() != b.len() {
        return false;
    }
    let mut i: usize = 0;
    while i < a.len()
        invariant
            i <= a@.len(),
            a@.len() == b@.len(),
            forall|j: int| 0 <= j < i ==> a@[j] == b@[j],
        decreases a@.len() - i,
    {
        if a[i] != b[i] {
            return false;
        }
        i = i + 1;
    }
    assert(a@ =~= b@);
    true
}

/// A column of data. Copies share their cells.
#[derive(Debug)]
pub enum DataColumn {
    /// Numbers.
    F64(Arc<Vec<Num>>),
    /// Strings.
    String(Arc<Vec<String>>),
    /// Truth values.
    Bool(Arc<Vec<bool>>),
    /// Colours.
    Color(Arc<Vec<Color>>),
    /// Values of any kind.
    Values(Arc<Vec<Value>>),
}

impl DataColumn {
    /// How many cells the column has.
    pub open spec fn count(self) -> nat {
        match self {
            DataColumn::F64(c) => c@.len(),
            DataColumn::String(c) => c@.len(),
            DataColumn::Bool(c) => c@.len(),
            DataColumn::Color(c) => c@.len(),
            DataColumn::Values(c) => c@.len(),
        }
    }

    /// The cell at place `i`; past the end there is none.
    pub open spec fn cell(self, i: int) -> Value {
        if 0 <= i < self.count() {
            match self {
                DataColumn::F64(c) => Value::Number(c@[i]),
                DataColumn::String(c) => Value::String(c@[i]),
                DataColumn::Bool(c) => Value::Bool(c@[i]),
                DataColumn::Color(c) => Value::Color(c@[i]),
                DataColumn::Values(c) => c@[i],
            }
        } else {
            Value::Null
        }
    }

    /// Whether two columns hold the same kind of cell.
    pub open spec fn same_kind(self, other: DataColumn) -> bool {
        match (self, other) {
            (DataColumn::F64(_), DataColumn::F64(_)) => true,
            (DataColumn::String(_), DataColumn::String(_)) => true,
            (DataColumn::Bool(_), DataColumn::Bool(_)) => true,
            (DataColumn::Color(_), DataColumn::Color(_)) => true,
            (DataColumn::Values(_), DataColumn::Values(_)) => true,
            _ => false,
        }
    }

    /// How many cells the column has.
    pub fn len(&self) -> (r: usize)
        ensures
            r == self.count(),
    {
        match self {
            DataColumn::F64(c) => c.len(),
            DataColumn::String(c) => c.len(),
            DataColumn::Bool(c) => c.len(),
            DataColumn::Color(c) => c.len(),
            DataColumn::Values(c) => c.len(),
        }
    }

    /// Whether the column has no cell.
    pub fn is_empty(&self) -> (r: bool)
        ensures
            r == (self.count() == 0),
    {
        self.len() == 0
    }

    /// The cell at place `i`; [`Value::Null`] past the end.
    pub fn get(&self, i: usize) -> (r: Value)
        ensures
            r == self.cell(i as int),
    {
        if i >= self.len() {
            return Value::Null;
        }
        match self {
            DataColumn::F64(c) => Value::Number(c[i]),
            DataColumn::String(c) => Value::String(c[i].clone()),
            DataColumn::Bool(c) => Value::Bool(c[i]),
            DataColumn::Color(c) => Value::Color(c[i]),
            DataColumn::Values(c) => c[i].copied(),
        }
    }

    /// The same column again, sharing its cells.
    pub fn shared(&self) -> (r: DataColumn)
        ensures
            r == *self,
    {
        match self {
            DataColumn::F64(c) => DataColumn::F64(c.clone()),
            DataColumn::String(c) => DataColumn::String(c.clone()),
            DataColumn::Bool(c) => DataColumn::Bool(c.clone()),
            DataColumn::Color(c) => DataColumn::Color(c.clone()),
            DataColumn::Values(c) => DataColumn::Values(c.clone()),
        }
    }

    /// A column of the same kind with no cell.
    pub fn empty_like(&self) -> (r: DataColumn)
        ensures
            r.count() == 0,
            r.same_kind(*self),
    {
        match self {
            DataColumn::F64(_) => DataColumn::F64(Arc::new(Vec::new())),
            DataColumn::String(_) => DataColumn::String(Arc::new(Vec::new())),
            DataColumn::Bool(_) => DataColumn::Bool(Arc::new(Vec::new())),
            DataColumn::Color(_) => DataColumn::Color(Arc::new(Vec::new())),
            DataColumn::Values(_) => DataColumn::Values(Arc::new(Vec::new())),
        }
    }
}

} // verus!
