//! The capability that stands for "this code runs on the UI thread".

use vstd::prelude::*;

verus! {

/// Proof that the holder runs on the UI thread. Every operation that creates,
/// shows, hides, resizes or closes a native view asks for one. It carries no
/// data, and the only way to one is `new`.
#[derive(Clone, Copy, Debug)]
pub struct UIThreadMarker {
    _priv: (),
}

impl UIThreadMarker {
    /// Hands out the marker where the caller has found itself on the UI
    /// thread, and nothing elsewhere. `on_ui_thread` is the answer of the
    /// rendering engine to "is the current thread the UI thread?".
    pub fn new(on_ui_thread: bool) -> (marker: Option<Self>)
        ensures
            marker is Some == on_ui_thread,
    {
        if on_ui_thread {
            Some(UIThreadMarker { _priv: () })
        } else {
            None
        }
    }
}

/// Contexts that only ever exist on the UI thread, and can therefore vouch
/// for it.
pub trait OnlyUIThread {
    /// The marker that this context vouches for.
    fn utm(self) -> UIThreadMarker;
}

} // verus!
