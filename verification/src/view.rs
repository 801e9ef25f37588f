//! Views of values that hold other values.

use vstd::prelude::*;

verus! {

/// The views of `items`, in order.
pub open spec fn views<T: View>(items: Seq<T>) -> Seq<T::V> {
    items.map_values(|item: T| item@)
}

/// `result`, with the value by its view where there is one.
pub open spec fn result_view<T: View, E>(result: Result<T, E>) -> Result<T::V, E> {
    match result {
        Ok(value) => Ok(value@),
        Err(error) => Err(error),
    }
}

} // verus!
