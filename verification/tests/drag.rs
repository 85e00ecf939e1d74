use std::cell::Cell;
use std::rc::Rc;

use pulseseek::drag::{retain_drag_source, should_animate_back};

struct DropState(Rc<Cell<usize>>);

impl Drop for DropState {
    fn drop(&mut self) {
        self.0.set(self.0.get() + 1);
    }
}

#[derive(Clone)]
struct DropProbe {
    _state: Rc<DropState>,
}

#[test]
fn drag_source_outlives_the_local_begin_session_handle() {
    let drops = Rc::new(Cell::new(0));
    let mut storage = None;

    let local_handle = retain_drag_source(&mut storage, || DropProbe {
        _state: Rc::new(DropState(Rc::clone(&drops))),
    });
    drop(local_handle);

    assert_eq!(drops.get(), 0, "the session source must remain retained");
    drop(storage);
    assert_eq!(drops.get(), 1, "the retained source is eventually released");
}

#[test]
fn retained_source_is_created_once_and_reused() {
    let mut storage: Option<u32> = None;
    let mut created = 0;
    let first = retain_drag_source(&mut storage, || {
        created += 1;
        7
    });
    assert_eq!(first, 7);
    let second = retain_drag_source(&mut storage, || 9);
    assert_eq!(second, 7);
    assert_eq!(storage, Some(7));
    assert_eq!(created, 1);
}

#[test]
fn accepted_drop_does_not_animate_back_to_pulseseek() {
    // A copy operation, as a destination accepting the files reports it.
    assert!(!should_animate_back(1));
}

#[test]
fn cancelled_drop_animates_back_to_pulseseek() {
    assert!(should_animate_back(0));
}
