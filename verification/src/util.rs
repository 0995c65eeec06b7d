//! Small helpers shared by the server.

use vstd::prelude::*;

verus! {

/// A starting value for a type, for code that builds its values through a
/// trait; every type with a `Default` has one.
pub trait AsyncDefault: Sized {
    fn default() -> Self;
}

impl<T: Default> AsyncDefault for T {
    /// The type's `Default` value.
    fn default() -> (r: T)
        ensures
            call_ensures(T::default, (), r),
    {
        T::default()
    }
}

} // verus!
