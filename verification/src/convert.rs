//! Shorthand string conversion.

use vstd::prelude::*;

verus! {

/// Extension trait that shortens getting an owned [`String`] out of a
/// string-like value to just `.s()`.
pub trait ShortToString: View<V = Seq<char>> {
    /// Shorthand for an owned string with the same characters.
    fn s(&self) -> (r: String)
        ensures
            r@ == self@,
    ;
}

impl ShortToString for str {
    fn s(&self) -> (r: String) {
        self.to_owned()
    }
}

} // verus!
