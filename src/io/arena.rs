//! What every buffer manager of a device offers.
use vstd::prelude::*;
use crate::buffer::{Memory, Type};
use crate::protocol::{Command, Finished, Progress, Reply, StreamError};

verus! {

/// Manages the buffers of a device. `allocate` and `release` start an
/// operation and return its first command; each reply of the driver goes to
/// `resume`, which returns the next command, until the operation is over.
pub trait Arena: Sized {
    /// The manager's bookkeeping is consistent.
    spec fn valid(&self) -> bool;

    /// Number of buffers held.
    spec fn count(&self) -> nat;

    /// No operation is in progress.
    spec fn idle(&self) -> bool;

    /// The type of the buffers managed.
    spec fn kind(&self) -> Type;

    /// Buffers below this index were already unmapped by a release that
    /// did not finish.
    spec fn first_mapped(&self) -> nat;

    /// Size of the mapped region of buffer `index`, while it is mapped.
    spec fn region(&self, index: int) -> Option<u32>;

    /// Starts allocating `count` buffers; the driver may grant another
    /// number. A manager that is busy or holds buffers refuses.
    fn allocate(&mut self, count: u32) -> (r: Progress)
        requires
            old(self).valid(),
            count > 0,
        ensures
            final(self).valid(),
            final(self).kind() == old(self).kind(),
            !old(self).idle() || old(self).count() > 0 ==> r == Progress::Failed(
                StreamError::InvalidState,
            ),
            old(self).idle() && old(self).count() == 0 ==> r == Progress::Issue(
                Command::RequestBuffers { buf_type: old(self).kind(), memory: Memory::Mmap, count },
            ),
    ;

    /// Starts releasing: unmaps each buffer still mapped, in ascending
    /// order, then asks the driver to free them all. With no buffers it
    /// succeeds at once.
    fn release(&mut self) -> (r: Progress)
        requires
            old(self).valid(),
        ensures
            final(self).valid(),
            final(self).kind() == old(self).kind(),
            !old(self).idle() ==> r == Progress::Failed(StreamError::InvalidState),
            old(self).idle() && old(self).count() == 0 ==> r == Progress::Succeeded(Finished::Released)
                && final(self).count() == 0,
            old(self).idle() && old(self).first_mapped() < old(self).count() ==> r == Progress::Issue(
                Command::UnmapBuffer { index: old(self).first_mapped() as u32 },
            ),
            old(self).idle() && 0 < old(self).count() == old(self).first_mapped() ==> r
                == Progress::Issue(
                Command::RequestBuffers { buf_type: old(self).kind(), memory: Memory::Mmap, count: 0 },
            ),
    ;

    /// Hands the driver's reply to the last command to the operation in
    /// progress, and returns what that operation needs next.
    fn resume(&mut self, reply: Reply) -> (r: Progress)
        requires
            old(self).valid(),
        ensures
            final(self).valid(),
            final(self).kind() == old(self).kind(),
            old(self).idle() ==> r == Progress::Failed(StreamError::InvalidState),
            !(r is Issue) ==> final(self).idle(),
            forall|n: u32|
                r == Progress::Succeeded(Finished::Allocated(n)) ==> n > 0 && final(self).count() == n,
            r == Progress::Succeeded(Finished::Released) ==> final(self).count() == 0,
    ;

    /// The size of buffer `index`, if there is such a buffer and it is mapped.
    fn get(&self, index: usize) -> (r: Option<u32>)
        requires
            self.valid(),
        ensures
            r == self.region(index as int),
            index >= self.count() ==> r is None,
    ;

    /// Number of buffers held.
    fn len(&self) -> (r: usize)
        ensures
            r == self.count(),
    ;
}

} // verus!
