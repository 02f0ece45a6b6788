use vstd::prelude::*;

verus! {

/// A point on the monotonic clock: whole seconds and nanoseconds.
#[derive(Clone, Copy, Default)]
pub struct sunTimespec {
    pub tv_sec: i64,
    pub tv_nsec: i64,
}

} // verus!
