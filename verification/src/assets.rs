//! The progress of an asset that is being loaded.
use vstd::prelude::*;

verus! {

/// Either still loading, or done with the loaded value.
pub enum LoadingProgress<T> {
    Pending,
    Ready(T),
}

impl<T> From<Option<T>> for LoadingProgress<T> {
    fn from(value: Option<T>) -> (r: Self)
        ensures
            r == (match value {
                Some(loaded) => LoadingProgress::Ready(loaded),
                None => LoadingProgress::Pending,
            }),
    {
        match value {
            Some(loaded) => LoadingProgress::Ready(loaded),
            None => LoadingProgress::Pending,
        }
    }
}

impl<T> vstd::std_specs::convert::FromSpecImpl<Option<T>> for LoadingProgress<T> {
    open spec fn obeys_from_spec() -> bool {
        true
    }

    /// `None` is still pending; `Some(value)` is ready with `value`.
    open spec fn from_spec(value: Option<T>) -> Self {
        match value {
            Some(loaded) => LoadingProgress::Ready(loaded),
            None => LoadingProgress::Pending,
        }
    }
}

} // verus!
