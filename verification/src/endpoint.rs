//! The file-like face of the completion: `open`, `read` and `write`.
use vstd::prelude::*;
use crate::state::CompletionState;
use crate::state::WaitStep;
use crate::state::Wake;
use crate::state::wait_step;

verus! {

/// Why an operation on the device failed.
#[derive(Clone, Copy, Debug, PartialEq, Eq, Structural)]
pub enum Error {
    /// The host had no room for another handle.
    Allocation,
    /// The host could not take the lock, or could not block the caller on it.
    FatalSynchronization,
}

/// The host's answer to a request for room for one more handle.
#[derive(Clone, Copy, Debug, PartialEq, Eq, Structural)]
pub enum Allocation {
    /// There is room.
    Granted,
    /// Resources are exhausted.
    Exhausted,
}

/// What `read` asks of the host after one pass.
#[derive(Clone, Copy, Debug, PartialEq, Eq, Structural)]
pub enum ReadStep {
    /// Block on the condition variable, then call `read` again.
    Park,
    /// Release the lock and report this many bytes as transferred.
    Done(usize),
}

/// What `write` asks of the host: to wake the waiters that `wake` names, to
/// release the lock, and to report `transferred` bytes as consumed.
#[derive(Clone, Copy, Debug, PartialEq, Eq, Structural)]
pub struct WriteDone {
    pub wake: Wake,
    pub transferred: usize,
}

/// What one pass of `read` answers when it finds the flag `armed`. A read
/// carries no data: where it completes, it has transferred nothing.
pub open spec fn read_step(armed: bool) -> ReadStep {
    match wait_step(armed) {
        WaitStep::Park => ReadStep::Park,
        WaitStep::Consumed => ReadStep::Done(0),
    }
}

/// What `write` answers for a source buffer of `len` bytes: all of it counts
/// as consumed, and every waiter is to be woken.
pub open spec fn write_done(len: nat) -> WriteDone {
    WriteDone { wake: Wake::All, transferred: len as usize }
}

/// An open handle on the device. It holds nothing of its own: every handle
/// works on the one `CompletionState` that the host guards.
#[derive(Debug, PartialEq, Eq, Structural)]
pub struct Cdev;

impl Cdev {
    /// Makes a handle where the host has room for one.
    pub fn open(context: &(), allocation: Allocation) -> (result: Result<Cdev, Error>)
        ensures
            allocation == Allocation::Granted ==> result == Ok::<Cdev, Error>(Cdev),
            allocation == Allocation::Exhausted ==> result == Err::<Cdev, Error>(Error::Allocation),
    {
        match allocation {
            Allocation::Granted => Ok(Cdev),
            Allocation::Exhausted => Err(Error::Allocation),
        }
    }

    /// One pass of a read. `lock` is the guarded state where the host holds
    /// the lock, `None` where it could not take it. The destination buffer is
    /// left as it was, and `offset` plays no part.
    pub fn read(
        &self,
        lock: Option<&mut CompletionState>,
        writer: &mut [u8],
        offset: u64,
    ) -> (result: Result<ReadStep, Error>)
        ensures
            final(writer)@ == old(writer)@,
            lock is None ==> result == Err::<ReadStep, Error>(Error::FatalSynchronization),
            lock matches Some(state) ==> final(state)@ && result == Ok::<ReadStep, Error>(
                read_step(state@),
            ),
    {
        match lock {
            None => Err(Error::FatalSynchronization),
            Some(state) => match state.wait_for_completion() {
                WaitStep::Park => Ok(ReadStep::Park),
                WaitStep::Consumed => Ok(ReadStep::Done(0)),
            },
        }
    }

    /// A write: it clears the flag and has every waiter woken. The source
    /// buffer is not looked into and `offset` plays no part; the whole length
    /// of the buffer is reported as consumed.
    pub fn write(
        &self,
        lock: Option<&mut CompletionState>,
        reader: &[u8],
        offset: u64,
    ) -> (result: Result<WriteDone, Error>)
        ensures
            lock is None ==> result == Err::<WriteDone, Error>(Error::FatalSynchronization),
            lock matches Some(state) ==> !final(state)@ && result == Ok::<WriteDone, Error>(
                write_done(reader@.len()),
            ),
    {
        match lock {
            None => Err(Error::FatalSynchronization),
            Some(state) => {
                let wake = state.signal_completion();
                Ok(WriteDone { wake, transferred: reader.len() })
            },
        }
    }
}

} // verus!
