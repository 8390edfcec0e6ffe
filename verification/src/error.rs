//! Why a replacement or a restore stopped.

use vstd::prelude::*;

verus! {

/// Why a run stopped before its end. `E` is the caller's own type for a
/// failed read, write or removal.
#[derive(Debug)]
pub enum Failure<E> {
    /// The caller could not read, write or remove what it was asked to.
    /// A restore passes over what it cannot read, and fails only where it
    /// cannot write or remove.
    Io(E),
    /// The text to look for is no regular expression.
    Pattern(regex::Error),
    /// An entry of the mirror has a path that is no text, or does not lie
    /// under the mirror's root.
    InvalidPath,
}

/// A [`Failure`] without the cause of a pattern's failure.
pub enum Reason<E> {
    Io(E),
    Pattern,
    InvalidPath,
}

impl<E> View for Failure<E> {
    type V = Reason<E>;

    open spec fn view(&self) -> Reason<E> {
        match *self {
            Failure::Io(e) => Reason::Io(e),
            Failure::Pattern(_) => Reason::Pattern,
            Failure::InvalidPath => Reason::InvalidPath,
        }
    }
}

} // verus!
