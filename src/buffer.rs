//! Values carried between the driver and the caller.
use vstd::prelude::*;

verus! {

/// Logical use of a set of buffers.
#[derive(Clone, Copy, Debug, PartialEq, Eq, Structural)]
pub enum Type {
    VideoCapture,
    VideoOutput,
    VideoOverlay,
    VbiCapture,
    VbiOutput,
    SlicedVbiCapture,
    SlicedVbiOutput,
    VideoOutputOverlay,
    VideoCaptureMplane,
    VideoOutputMplane,
    SdrCapture,
    SdrOutput,
    MetaCapture,
    MetaOutput,
    Private,
}

pub open spec fn type_code(t: Type) -> u32 {
    match t {
        Type::VideoCapture => 1,
        Type::VideoOutput => 2,
        Type::VideoOverlay => 3,
        Type::VbiCapture => 4,
        Type::VbiOutput => 5,
        Type::SlicedVbiCapture => 6,
        Type::SlicedVbiOutput => 7,
        Type::VideoOutputOverlay => 8,
        Type::VideoCaptureMplane => 9,
        Type::VideoOutputMplane => 10,
        Type::SdrCapture => 11,
        Type::SdrOutput => 12,
        Type::MetaCapture => 13,
        Type::MetaOutput => 14,
        Type::Private => 0x80,
    }
}

impl Type {
    /// The number the driver uses for this buffer type.
    pub fn code(self) -> (r: u32)
        ensures
            r == type_code(self),
    {
        match self {
            Type::VideoCapture => 1,
            Type::VideoOutput => 2,
            Type::VideoOverlay => 3,
            Type::VbiCapture => 4,
            Type::VbiOutput => 5,
            Type::SlicedVbiCapture => 6,
            Type::SlicedVbiOutput => 7,
            Type::VideoOutputOverlay => 8,
            Type::VideoCaptureMplane => 9,
            Type::VideoOutputMplane => 10,
            Type::SdrCapture => 11,
            Type::SdrOutput => 12,
            Type::MetaCapture => 13,
            Type::MetaOutput => 14,
            Type::Private => 0x80,
        }
    }
}

/// How buffer memory is obtained.
#[derive(Clone, Copy, Debug, PartialEq, Eq, Structural)]
pub enum Memory {
    Mmap,
    UserPtr,
    Overlay,
    DmaBuf,
}

pub open spec fn memory_code(m: Memory) -> u32 {
    match m {
        Memory::Mmap => 1,
        Memory::UserPtr => 2,
        Memory::Overlay => 3,
        Memory::DmaBuf => 4,
    }
}

impl Memory {
    /// The number the driver uses for this memory backend.
    pub fn code(self) -> (r: u32)
        ensures
            r == memory_code(self),
    {
        match self {
            Memory::Mmap => 1,
            Memory::UserPtr => 2,
            Memory::Overlay => 3,
            Memory::DmaBuf => 4,
        }
    }
}

/// Capture time of a frame.
#[derive(Clone, Copy, Debug, PartialEq, Eq, Structural)]
pub struct Timestamp {
    pub sec: i64,
    pub usec: i64,
}

/// Per-frame facts that the driver attaches when it completes a buffer.
#[derive(Clone, Copy, Debug, PartialEq, Eq, Structural)]
pub struct Metadata {
    /// Number of bytes the driver filled in.
    pub bytesused: u32,
    /// Buffer flags, as a bitset.
    pub flags: u32,
    /// Interlace field ordering.
    pub field: u32,
    pub timestamp: Timestamp,
    /// Frame counter assigned by the driver.
    pub sequence: u32,
}

pub open spec fn zero_metadata() -> Metadata {
    Metadata {
        bytesused: 0,
        flags: 0,
        field: 0,
        timestamp: Timestamp { sec: 0, usec: 0 },
        sequence: 0,
    }
}

impl Default for Metadata {
    fn default() -> (r: Metadata)
        ensures
            r == zero_metadata(),
    {
        Metadata {
            bytesused: 0,
            flags: 0,
            field: 0,
            timestamp: Timestamp { sec: 0, usec: 0 },
            sequence: 0,
        }
    }
}

} // verus!
