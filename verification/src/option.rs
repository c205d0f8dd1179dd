//! A question about optional values.

use vstd::prelude::*;
use vstd::std_specs::cmp::PartialEqSpec;

verus! {

/// Whether `x` holds a value that `y` is equal to.
pub fn contains<T, U>(x: &Option<T>, y: &U) -> (r: bool) where U: PartialEq<T>
    ensures
        U::obeys_eq_spec() ==> r == match x {
            Some(v) => y.eq_spec(v),
            None => false,
        },
{
    match x {
        Some(v) => y == v,
        None => false,
    }
}

} // verus!
