//! Native drag-out: the source kept alive for a whole drag session, and how
//! a finished drag is animated.
use vstd::prelude::*;

verus! {

/// The drag source kept in `storage`, created on first use: the stored
/// source stays there (so it outlives the handle returned, which is a clone
/// of it) until the storage itself is dropped.
pub fn retain_drag_source<T: Clone, F: FnOnce() -> T>(storage: &mut Option<T>, create: F) -> (handle: T)
    requires
        old(storage).is_none() ==> create.requires(()),
    ensures
        old(storage).is_some() ==> *final(storage) == *old(storage),
        old(storage).is_none() ==> final(storage).is_some() && create.ensures((), final(storage).unwrap()),
        final(storage).is_some(),
        cloned(final(storage).unwrap(), handle),
{
    match storage.as_ref() {
        Some(source) => {
            return source.clone();
        },
        None => {},
    }
    let source = create();
    let handle = source.clone();
    *storage = Some(source);
    handle
}

/// The operation code of a drop that no destination accepted.
pub const DRAG_OPERATION_NONE: usize = 0;

/// A drag animates back to its origin only when no destination accepted it.
pub fn should_animate_back(operation: usize) -> (animate: bool)
    ensures
        animate == (operation == DRAG_OPERATION_NONE),
{
    operation == DRAG_OPERATION_NONE
}

} // verus!
