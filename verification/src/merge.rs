//! Putting the parts of a configuration together.
use vstd::prelude::*;

verus! {

/// A setting that takes over what a part of the configuration says.
pub trait MergeWith<T>: Sized {
    /// Whether `base`, after taking over `part`, can be `merged`.
    spec fn merges_to(base: Self, part: T, merged: Self) -> bool;

    /// Takes over what `part` says.
    fn merge_with(&mut self, part: &T)
        ensures
            Self::merges_to(*old(self), *part, *final(self)),
    ;
}

/// What a part says, or else what was there before.
pub open spec fn said_or<T>(part: Option<T>, base: T) -> T {
    match part {
        Some(value) => value,
        None => base,
    }
}

/// Whether a setting has taken over what a part says, where it says something.
pub open spec fn merges_if_said<S: MergeWith<T>, T>(base: S, part: Option<T>, merged: S) -> bool {
    match part {
        Some(part) => S::merges_to(base, part, merged),
        None => merged == base,
    }
}

/// Whether clones of a type's values are always equal to the values.
pub open spec fn clones_are_equal<T: Clone>() -> bool {
    forall|value: T, clone: T| #[trigger] cloned(value, clone) ==> clone == value
}

} // verus!
