//! How the results of functions are modelled.
use vstd::prelude::*;

verus! {

/// `result` with the model of what it holds in place of what it holds.
pub open spec fn outcome<T: DeepView, E>(result: Result<T, E>) -> Result<T::V, E> {
    match result {
        Ok(value) => Ok(value.deep_view()),
        Err(error) => Err(error),
    }
}

/// `result` with the model of what it holds in place of what it holds, and what
/// is said of a failure in place of the string that says it.
pub open spec fn told<T: DeepView>(result: Result<T, String>) -> Result<T::V, Seq<char>> {
    match result {
        Ok(value) => Ok(value.deep_view()),
        Err(message) => Err(message@),
    }
}

} // verus!
