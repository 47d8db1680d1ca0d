//! The control-channel vocabulary: what the library asks of the driver,
//! what the driver answers, and how an operation ends.
use vstd::prelude::*;
use crate::buffer::{Memory, Metadata, Type};

verus! {

/// The "no such device" error code: the device went away under the handle.
pub const ENODEV: i32 = 19;

/// The "out of memory" error code, which stands for a grant of no buffer.
pub const ENOMEM: i32 = 12;

/// A system call for the caller to perform on the device.
#[derive(Clone, Copy, Debug, PartialEq, Eq, Structural)]
pub enum Command {
    /// Ask the driver to reserve `count` buffers (zero frees them all).
    RequestBuffers { buf_type: Type, memory: Memory, count: u32 },
    /// Ask for the length and kernel offset of buffer `index`.
    QueryBuffer { buf_type: Type, memory: Memory, index: u32 },
    /// Map `length` bytes at kernel `offset`, read/write and shared, as buffer `index`.
    MapBuffer { index: u32, offset: u32, length: u32 },
    /// Unmap the region of buffer `index`.
    UnmapBuffer { index: u32 },
    StreamOn { buf_type: Type },
    StreamOff { buf_type: Type },
    /// Hand buffer `index` to the driver's incoming queue.
    QueueBuffer { buf_type: Type, memory: Memory, index: u32 },
    /// Wait for the driver to complete a buffer.
    DequeueBuffer { buf_type: Type, memory: Memory },
}

/// What the device answered to the last command.
#[derive(Clone, Copy, Debug, PartialEq, Eq, Structural)]
pub enum Reply {
    /// The command succeeded and returned nothing of interest.
    Done,
    /// The driver granted this many buffers.
    Granted(u32),
    /// Length and kernel offset of the queried buffer.
    Queried { length: u32, offset: u32 },
    /// The driver completed buffer `index`.
    Dequeued { index: u32, meta: Metadata },
    /// The system call failed with this error code.
    Failed(i32),
}

#[derive(Clone, Copy, Debug, PartialEq, Eq, Structural)]
pub enum StreamError {
    /// The control channel refused, with this error code.
    DriverRejected(i32),
    /// The device is no longer present.
    DeviceGone,
    /// An index beyond the allocated buffers.
    OutOfRange,
    /// The operation does not fit the current lifecycle phase, or the
    /// driver answered something the last command cannot produce.
    InvalidState,
}

pub open spec fn error_of_code(code: i32) -> StreamError {
    if code == ENODEV {
        StreamError::DeviceGone
    } else {
        StreamError::DriverRejected(code)
    }
}

impl StreamError {
    /// Classifies an error code of the control channel.
    pub fn from_code(code: i32) -> (r: StreamError)
        ensures
            r == error_of_code(code),
    {
        if code == ENODEV {
            StreamError::DeviceGone
        } else {
            StreamError::DriverRejected(code)
        }
    }
}

/// How an operation ended successfully.
#[derive(Clone, Copy, Debug, PartialEq, Eq, Structural)]
pub enum Finished {
    /// Buffers were granted and mapped; the count granted.
    Allocated(u32),
    Released,
    Started,
    Stopped,
    Queued,
    /// A completed buffer, now owned by the caller.
    Frame { index: usize, meta: Metadata },
    TornDown,
}

/// The next thing an operation needs.
#[derive(Clone, Copy, Debug, PartialEq, Eq, Structural)]
pub enum Progress {
    /// Perform this command and hand its reply back.
    Issue(Command),
    /// The operation is over and succeeded.
    Succeeded(Finished),
    /// The operation is over and failed.
    Failed(StreamError),
}

} // verus!
