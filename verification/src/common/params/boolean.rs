//! [`BoolParam`]: a discrete on/off parameter.

use std::sync::atomic::AtomicBool;
use std::sync::atomic::Ordering;

use vstd::prelude::*;

use super::Param;

verus! {

/// A boolean parameter (bypass, enable, ...).
///
/// Discrete parameters do not smooth, so reads are an instantaneous atomic
/// load. The parameter is `Sync`, so it can live in a shared (`Arc`)
/// parameter struct: the control thread [`set`](Self::set)s it, the audio
/// thread [`get`](Self::get)s it, both wait-free.
///
/// The stored value lives in an atomic that other threads may write at any
/// time. The contracts say which atomic operation each method makes: `set`
/// stores exactly its argument, `get` and `value` return what a load of the
/// atomic gave. What a load gives is not claimed: std's atomics carry no
/// statement of it. The default it was built with is fixed for its lifetime.
pub struct BoolParam {
    value: AtomicBool,
    default: bool,
}

impl BoolParam {
    /// The default this parameter was built with.
    pub closed spec fn default_spec(&self) -> bool {
        self.default
    }

    /// A boolean parameter resting at `default`.
    pub fn new(default: bool) -> (r: Self)
        ensures
            r.default_spec() == default,
    {
        BoolParam { value: AtomicBool::new(default), default }
    }

    /// Whether `()` is what a relaxed store of `value` into this parameter's
    /// atomic may return: the store has been made.
    pub closed spec fn stored(&self, value: bool) -> bool {
        call_ensures(AtomicBool::store, (&self.value, value, Ordering::Relaxed), ())
    }

    /// Whether `r` is a value a relaxed load of this parameter's atomic may
    /// return.
    pub closed spec fn loaded(&self, r: bool) -> bool {
        call_ensures(AtomicBool::load, (&self.value, Ordering::Relaxed), r)
    }

    /// Set the value. Control thread (but cheap and also safe to read back).
    pub fn set(&self, value: bool)
        ensures
            self.stored(value),
    {
        self.value.store(value, Ordering::Relaxed);
    }

    /// The current value. Wait-free: audio thread or control thread.
    pub fn get(&self) -> (r: bool)
        ensures
            self.loaded(r),
    {
        self.value.load(Ordering::Relaxed)
    }
}

impl Param for BoolParam {
    type Plain = bool;

    fn default_value(&self) -> (r: bool)
        ensures
            r == self.default_spec(),
    {
        self.default
    }

    fn value(&self) -> (r: bool)
        ensures
            self.loaded(r),
    {
        self.get()
    }

    fn reset(&self) {
        // Discrete: nothing to settle.
    }
}

} // verus!
