//! A small dynamically-tagged value: text, number, boolean, or nothing,
//! with the partial arithmetic the engine defines on such values.

use vstd::prelude::*;

verus! {

/// A tagged runtime value.
#[derive(Debug, Clone)]
pub enum CoreValue {
    Nothing,
    String(String),
    Number(usize),
    Bool(bool),
}

impl From<String> for CoreValue {
    fn from(s: String) -> (r: Self) {
        CoreValue::String(s)
    }
}

impl vstd::std_specs::convert::FromSpecImpl<String> for CoreValue {
    open spec fn obeys_from_spec() -> bool {
        true
    }

    open spec fn from_spec(s: String) -> CoreValue {
        CoreValue::String(s)
    }
}

impl From<bool> for CoreValue {
    fn from(b: bool) -> (r: Self) {
        CoreValue::Bool(b)
    }
}

impl vstd::std_specs::convert::FromSpecImpl<bool> for CoreValue {
    open spec fn obeys_from_spec() -> bool {
        true
    }

    open spec fn from_spec(b: bool) -> CoreValue {
        CoreValue::Bool(b)
    }
}

impl From<usize> for CoreValue {
    fn from(u: usize) -> (r: Self) {
        CoreValue::Number(u)
    }
}

impl vstd::std_specs::convert::FromSpecImpl<usize> for CoreValue {
    open spec fn obeys_from_spec() -> bool {
        true
    }

    open spec fn from_spec(u: usize) -> CoreValue {
        CoreValue::Number(u)
    }
}

impl CoreValue {
    /// Addition: concatenation on two strings, the sum on two numbers,
    /// and the empty value on every other pairing.
    pub fn add(self, rhs: CoreValue) -> (r: CoreValue)
        requires
            self matches CoreValue::Number(a) && rhs matches CoreValue::Number(b) ==> a + b
                <= usize::MAX,
        ensures
            match (self, rhs) {
                (CoreValue::String(a), CoreValue::String(b)) => r matches CoreValue::String(s)
                    && s@ == a@ + b@,
                (CoreValue::Number(a), CoreValue::Number(b)) => r == CoreValue::Number(
                    (a + b) as usize,
                ),
                _ => r is Nothing,
            },
    {
        match (self, rhs) {
            (CoreValue::String(a), CoreValue::String(b)) => CoreValue::from(a.concat(b.as_str())),
            (CoreValue::Number(a), CoreValue::Number(b)) => CoreValue::from(a + b),
            _ => CoreValue::Nothing,
        }
    }

    /// Subtraction: defined on two numbers only.
    pub fn sub(self, rhs: CoreValue) -> (r: Option<CoreValue>)
        requires
            self matches CoreValue::Number(a) && rhs matches CoreValue::Number(b) ==> b <= a,
        ensures
            match (self, rhs) {
                (CoreValue::Number(a), CoreValue::Number(b)) => r == Some(
                    CoreValue::Number((a - b) as usize),
                ),
                _ => r is None,
            },
    {
        match (self, rhs) {
            (CoreValue::Number(a), CoreValue::Number(b)) => Some(CoreValue::from(a - b)),
            _ => None,
        }
    }

    /// Multiplication: defined on two numbers only.
    pub fn mul(self, rhs: CoreValue) -> (r: Option<CoreValue>)
        requires
            self matches CoreValue::Number(a) && rhs matches CoreValue::Number(b) ==> a * b
                <= usize::MAX,
        ensures
            match (self, rhs) {
                (CoreValue::Number(a), CoreValue::Number(b)) => r == Some(
                    CoreValue::Number((a * b) as usize),
                ),
                _ => r is None,
            },
    {
        match (self, rhs) {
            (CoreValue::Number(a), CoreValue::Number(b)) => Some(CoreValue::from(a * b)),
            _ => None,
        }
    }

    /// Division: defined on two numbers only, the divisor nonzero.
    pub fn div(self, rhs: CoreValue) -> (r: Option<CoreValue>)
        requires
            self matches CoreValue::Number(a) && rhs matches CoreValue::Number(b) ==> b != 0,
        ensures
            match (self, rhs) {
                (CoreValue::Number(a), CoreValue::Number(b)) => r == Some(
                    CoreValue::Number((a as int / b as int) as usize),
                ),
                _ => r is None,
            },
    {
        match (self, rhs) {
            (CoreValue::Number(a), CoreValue::Number(b)) => Some(CoreValue::from(a / b)),
            _ => None,
        }
    }

    /// What equality means on these values: two strings with the same
    /// characters, or two equal numbers; every other pairing, booleans
    /// and empty values included, compares unequal.
    pub open spec fn eq_spec_value(self, other: CoreValue) -> bool {
        match (self, other) {
            (CoreValue::String(a), CoreValue::String(b)) => a@ == b@,
            (CoreValue::Number(a), CoreValue::Number(b)) => a == b,
            _ => false,
        }
    }
}

impl PartialEq for CoreValue {
    fn eq(&self, other: &CoreValue) -> (r: bool) {
        match (self, other) {
            (CoreValue::String(a), CoreValue::String(b)) => *a == *b,
            (CoreValue::Number(a), CoreValue::Number(b)) => a == b,
            _ => false,
        }
    }
}

impl vstd::std_specs::cmp::PartialEqSpecImpl for CoreValue {
    open spec fn obeys_eq_spec() -> bool {
        true
    }

    open spec fn eq_spec(&self, other: &CoreValue) -> bool {
        self.eq_spec_value(*other)
    }
}

} // verus!
