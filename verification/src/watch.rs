//! The watched-state primitive: a shared cell with change notification and
//! writer-drop detection.
//!
//! A reader takes a snapshot together with the version it saw; polling with
//! that version reports a change only after a later write, or termination
//! once the last writer is gone — never spuriously. Writing to a terminated
//! cell fails; reading always succeeds.

use vstd::prelude::*;
use crate::error::Error;

verus! {

/// What polling a watched cell with a last-seen version reports.
#[derive(Copy, Clone, Debug, PartialEq, Eq, Structural)]
pub enum WatchPoll {
    /// The cell changed since that version: here is the current one.
    Changed(u64),
    /// The last writer is gone and nothing further will be written.
    Terminated,
    /// Nothing yet: a notification would block.
    Pending,
}

/// A shared mutable cell with a version counter and a live-writer count.
#[derive(Clone, Debug, PartialEq)]
pub struct Watch<T> {
    pub value: T,
    /// Bumped on every write.
    pub version: u64,
    /// Live writer handles; at zero the cell is terminated.
    pub writers: u64,
}

impl<T> Watch<T> {
    /// Whether the last writer is gone.
    pub open spec fn spec_terminated(self) -> bool {
        self.writers == 0
    }

    /// A fresh cell at version zero with `writers` live writer handles.
    pub fn new(value: T, writers: u64) -> (w: Self)
        ensures
            w.value == value,
            w.version == 0,
            w.writers == writers,
    {
        Watch { value, version: 0, writers }
    }

    /// Read the cell: the snapshot and the version it belongs to.
    pub fn read(&self) -> (r: (&T, u64))
        ensures
            *r.0 == self.value,
            r.1 == self.version,
    {
        (&self.value, self.version)
    }

    /// Write the cell, bumping the version and waking pending
    /// notifications. Fails `Done` once the cell is terminated.
    pub fn write(&mut self, value: T) -> (r: Result<(), Error>)
        requires
            old(self).version < 0xffff_ffff_ffff_ffff,
        ensures
            final(self).writers == old(self).writers,
            match r {
                Ok(()) => !old(self).spec_terminated()
                    && final(self).value == value
                    && final(self).version == old(self).version + 1,
                Err(e) => e == Error::Done && old(self).spec_terminated()
                    && *final(self) == *old(self),
            },
    {
        if self.writers == 0 {
            return Err(Error::Done);
        }
        self.value = value;
        self.version = self.version + 1;
        Ok(())
    }

    /// Drop one writer handle; dropping the last terminates the cell.
    pub fn writer_drop(&mut self)
        ensures
            final(self).value == old(self).value,
            final(self).version == old(self).version,
            old(self).writers > 0 ==> final(self).writers == old(self).writers - 1,
            old(self).writers == 0 ==> final(self).writers == 0,
    {
        if self.writers > 0 {
            self.writers = self.writers - 1;
        }
    }

    /// Poll with the version a reader last saw. Reports `Changed` exactly
    /// when a later write happened, `Terminated` exactly when nothing
    /// changed and no writer remains, and `Pending` otherwise — never a
    /// spurious wake-up.
    pub fn poll(&self, last: u64) -> (r: WatchPoll)
        ensures
            r == WatchPoll::Changed(self.version) <==> self.version != last,
            r == WatchPoll::Terminated <==> self.version == last && self.spec_terminated(),
            r == WatchPoll::Pending <==> self.version == last && !self.spec_terminated(),
    {
        if self.version != last {
            WatchPoll::Changed(self.version)
        } else if self.writers == 0 {
            WatchPoll::Terminated
        } else {
            WatchPoll::Pending
        }
    }
}

} // verus!
