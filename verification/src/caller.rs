//! What passes between a run and its caller.

use vstd::prelude::*;
use crate::error::{Failure, Reason};

verus! {

/// A text and the path to save it at.
pub struct Write {
    pub path: Seq<char>,
    pub text: Seq<char>,
}

/// What the caller read, as characters.
pub open spec fn text_view<E>(read: Result<String, E>) -> Result<Seq<char>, E> {
    match read {
        Ok(text) => Ok(text@),
        Err(e) => Err(e),
    }
}

/// The end of a run, with the cause of a pattern's failure left out.
pub open spec fn end_view<T, E>(end: Result<T, Failure<E>>) -> Result<T, Reason<E>> {
    match end {
        Ok(t) => Ok(t),
        Err(failure) => Err(failure@),
    }
}

} // verus!
