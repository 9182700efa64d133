//! Environment access and the default-value check.
use vstd::prelude::*;
use std::borrow::Cow;
use vstd::std_specs::cmp::PartialEqSpec;

verus! {

/// Read access to environment variables.
pub trait EnvIO: Send + Sync + 'static {
    fn get(&self, key: &str) -> Option<Cow<'_, str>>;
}

/// Whether `val` equals the default value of its type, by the type's `==`:
/// the result is the comparison of `val` with the value that
/// `T::default()` returned.
pub fn is_default<T: Default + Eq>(val: &T) -> (r: bool)
    ensures
        T::obeys_eq_spec() ==> exists|d: T|
            call_ensures(T::default, (), d) && r == #[trigger] val.eq_spec(&d),
{
    let d = T::default();
    let r = *val == d;
    r
}

} // verus!
