//! Devices that run on a thread of their own.

use vstd::prelude::*;

verus! {

/// A device that is run over and over on its own thread.
pub trait ThreadedDevice {
    /// One round of the device's work.
    fn run(&mut self);
}

} // verus!
