use std::sync::atomic::AtomicU32;
use std::sync::atomic::AtomicUsize;
use std::sync::atomic::Ordering;
use std::sync::Arc;
use std::sync::Mutex;

use vstd::prelude::*;

use crate::note::Note;

verus! {

/// Makes `std::sync::Mutex` known to Verus as an opaque type.
#[verifier::external_type_specification]
#[verifier::external_body]
#[verifier::reject_recursive_types(T)]
pub struct ExMutex<T: ?Sized>(Mutex<T>);

/// `std::sync::Mutex::new` wraps a value in a new, unlocked mutex. Its
/// contents change through shared references, so nothing is claimed of the result.
pub assume_specification<T>[ Mutex::<T>::new ](t: T) -> Mutex<T>;

/// State shared between the audio thread and the interface: the step being
/// played, the output level (an `f32` stored by its bits) and a copy of the pattern.
pub struct SharedState {
    pub current_step: AtomicUsize,
    pub vu: AtomicU32,
    pub pattern: Mutex<[Option<Note>; 16]>,
}

impl SharedState {
    /// Fresh shared state: step 0, level 0 and an empty pattern. These live in
    /// atomics and a mutex, whose contents change through shared references, so
    /// no clause states them.
    pub fn new() -> Arc<Self> {
        Arc::new(
            SharedState {
                current_step: AtomicUsize::new(0),
                vu: AtomicU32::new(0),
                pattern: Mutex::new([None; 16]),
            },
        )
    }

    /// Announces the step that starts playing now.
    pub(crate) fn publish_step(&self, step: usize) {
        self.current_step.store(step, Ordering::Relaxed);
    }

    /// Copies `pattern` into the shared pattern through
    /// `std::sync::Mutex::try_lock`. When the lock is held elsewhere the copy is
    /// skipped; Verus sees the mutex as opaque, so nothing is claimed of its contents.
    #[verifier::external_body]
    pub(crate) fn publish_pattern(&self, pattern: [Option<Note>; 16]) {
        if let Ok(mut guard) = self.pattern.try_lock() {
            *guard = pattern;
        }
    }
}

} // verus!
