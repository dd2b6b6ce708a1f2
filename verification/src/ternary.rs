use vstd::prelude::*;

verus! {

/// A balanced ternary digit: -1, 0 or +1.
#[derive(Debug, Clone, Copy, PartialEq, Eq, Hash, Structural)]
pub enum TernaryValue {
    Negative,
    Zero,
    Positive,
}

impl TernaryValue {
    /// The integer that a trit stands for.
    pub open spec fn value(self) -> int {
        match self {
            TernaryValue::Negative => -1,
            TernaryValue::Zero => 0,
            TernaryValue::Positive => 1,
        }
    }

    /// The trit that stands for `v`, if any.
    pub open spec fn from_int(v: int) -> Option<TernaryValue> {
        if v == -1 {
            Some(TernaryValue::Negative)
        } else if v == 0 {
            Some(TernaryValue::Zero)
        } else if v == 1 {
            Some(TernaryValue::Positive)
        } else {
            None
        }
    }

    pub fn to_i8(self) -> (r: i8)
        ensures
            r == self.value(),
    {
        match self {
            TernaryValue::Negative => -1,
            TernaryValue::Zero => 0,
            TernaryValue::Positive => 1,
        }
    }

    pub fn from_i8(v: i8) -> (r: Option<TernaryValue>)
        ensures
            r == TernaryValue::from_int(v as int),
    {
        match v {
            -1 => Some(TernaryValue::Negative),
            0 => Some(TernaryValue::Zero),
            1 => Some(TernaryValue::Positive),
            _ => None,
        }
    }
}

/// Reading a trit's integer back gives the trit, and a trit read from an
/// integer stands for that integer: `from_i8` and `to_i8` are inverse on
/// {-1, 0, +1}, and `from_i8` refuses every other value.
pub proof fn lemma_trit_int_roundtrip(t: TernaryValue, v: int)
    ensures
        TernaryValue::from_int(t.value()) == Some(t),
        TernaryValue::from_int(v) matches Some(u) ==> u.value() == v,
        TernaryValue::from_int(v) is None <==> !(-1 <= v <= 1),
{
}

/// The three trits are -1, 0 and +1 in balanced ternary, and the only
/// integers that stand for a trit are these three.
pub proof fn lemma_trit_values(t: TernaryValue, v: int)
    ensures
        t == TernaryValue::Negative <==> t.value() == -1,
        t == TernaryValue::Zero <==> t.value() == 0,
        t == TernaryValue::Positive <==> t.value() == 1,
        v == -1 ==> TernaryValue::from_int(v) == Some(TernaryValue::Negative),
        v == 0 ==> TernaryValue::from_int(v) == Some(TernaryValue::Zero),
        v == 1 ==> TernaryValue::from_int(v) == Some(TernaryValue::Positive),
        (v < -1 || v > 1) ==> TernaryValue::from_int(v) is None,
{
}

} // verus!
