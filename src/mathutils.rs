use vstd::prelude::*;
use vstd::std_specs::ops::MulSpec;

verus! {

/// The square of a value, for any type whose product is specified.
pub fn sqnum<T>(x: T) -> (r: T) where T: core::ops::Mul<Output = T> + Copy
    requires
        x.mul_req(x),
    ensures
        T::obeys_mul_spec() ==> r == x.mul_spec(x),
{
    x * x
}

} // verus!
