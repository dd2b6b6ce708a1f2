use vstd::prelude::*;

verus! {

/// A bridge converts between two representations: `A` is the source, `B`
/// the target. Conversions can fail where the source has no valid mapping.
///
/// `forward` takes the bridge mutably: a bridge may keep state across
/// conversions (the protocol bridge numbers the messages it sends).
pub trait Bridge<A, B> {
    /// The error type for failed conversions.
    type Error;

    /// Whether the bridge, in its present state, can convert `value`
    /// forward at all (a bridge that numbers messages runs out of numbers).
    spec fn accepts_forward(&self, value: &A) -> bool;

    /// Converts a value of `A` into one of `B`.
    fn forward(&mut self, value: &A) -> Result<B, Self::Error>
        requires
            old(self).accepts_forward(value),
    ;

    /// Converts a value of `B` back into one of `A`.
    fn backward(&self, value: &B) -> Result<A, Self::Error>;
}

} // verus!
