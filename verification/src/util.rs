//! Small pieces that waiting tasks share.
use crate::port::Progress;
use vstd::prelude::*;

verus! {

/// A slot for the waker of the one task that waits for an interrupt.
#[derive(Debug)]
pub struct WakerCell<W> {
    /// The waker, if a task waits.
    pub waker: Option<W>,
}

impl<W> WakerCell<W> {
    /// An empty slot.
    pub fn new() -> (cell: WakerCell<W>)
        ensures
            cell.waker is None,
    {
        WakerCell { waker: None }
    }

    /// Store a waker in place of whatever was there.
    pub fn set(&mut self, waker: W)
        ensures
            final(self).waker == Some(waker),
    {
        self.waker = Some(waker);
    }

    /// Take the waker that is to be woken, if any.
    pub fn wake(&mut self) -> (waker: Option<W>)
        ensures
            waker == old(self).waker,
            final(self).waker is None,
    {
        self.waker.take()
    }
}

/// Yields to the executor once, and then is done.
#[derive(Debug, PartialEq, Eq, Structural)]
pub struct YieldNow {
    /// Whether it has yielded.
    pub yielded: bool,
}

/// Something that yields to the executor once.
pub fn yield_now() -> (future: YieldNow)
    ensures
        future == (YieldNow { yielded: false }),
{
    YieldNow { yielded: false }
}

impl YieldNow {
    /// Pending the first time, in which case the task is to be woken at once; ready from then
    /// on.
    pub fn poll(&mut self) -> (progress: Progress<()>)
        ensures
            progress == (if old(self).yielded {
                Progress::Ready(())
            } else {
                Progress::Pending
            }),
            final(self).yielded,
    {
        if self.yielded {
            Progress::Ready(())
        } else {
            self.yielded = true;
            Progress::Pending
        }
    }
}

} // verus!
