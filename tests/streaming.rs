use v4l_mmap::buffer::{Memory, Metadata, Timestamp, Type};
use v4l_mmap::io::arena::Arena as BufferArena;
use v4l_mmap::io::mmap::arena::Arena;
use v4l_mmap::io::mmap::stream::{Stream, StreamInt};
use v4l_mmap::protocol::{Command, Finished, Progress, Reply, StreamError};
use std::collections::VecDeque;

/// A driver that answers commands the way a capture device does.
struct FakeDriver {
    max_buffers: u32,
    streaming: bool,
    incoming: VecDeque<u32>,
    sequence: u32,
    log: Vec<Command>,
    unmap_while_streaming: bool,
    fail: Option<(fn(&Command) -> bool, i32)>,
}

impl FakeDriver {
    fn new(max_buffers: u32) -> Self {
        FakeDriver {
            max_buffers,
            streaming: false,
            incoming: VecDeque::new(),
            sequence: 0,
            log: Vec::new(),
            unmap_while_streaming: false,
            fail: None,
        }
    }

    fn answer(&mut self, c: Command) -> Reply {
        self.log.push(c);
        if let Some((pick, code)) = self.fail {
            if pick(&c) {
                return Reply::Failed(code);
            }
        }
        match c {
            Command::RequestBuffers { count, .. } => {
                if count == 0 {
                    Reply::Done
                } else {
                    Reply::Granted(count.min(self.max_buffers))
                }
            }
            Command::QueryBuffer { index, .. } => Reply::Queried { length: 4096, offset: index * 4096 },
            Command::MapBuffer { .. } => Reply::Done,
            Command::UnmapBuffer { .. } => {
                if self.streaming {
                    self.unmap_while_streaming = true;
                    return Reply::Failed(16);
                }
                Reply::Done
            }
            Command::StreamOn { .. } => {
                self.streaming = true;
                Reply::Done
            }
            Command::StreamOff { .. } => {
                self.streaming = false;
                self.incoming.clear();
                Reply::Done
            }
            Command::QueueBuffer { index, .. } => {
                self.incoming.push_back(index);
                Reply::Done
            }
            Command::DequeueBuffer { .. } => match self.incoming.pop_front() {
                Some(index) => {
                    self.sequence += 1;
                    Reply::Dequeued { index, meta: frame_meta(self.sequence) }
                }
                None => Reply::Failed(11),
            },
        }
    }
}

fn frame_meta(sequence: u32) -> Metadata {
    Metadata {
        bytesused: 4096,
        flags: 1,
        field: 1,
        timestamp: Timestamp { sec: 10, usec: sequence as i64 },
        sequence,
    }
}

fn drive(s: &mut StreamInt, mut p: Progress, d: &mut FakeDriver) -> Result<Finished, StreamError> {
    loop {
        match p {
            Progress::Issue(c) => {
                let r = d.answer(c);
                p = s.resume(r);
            }
            Progress::Succeeded(f) => return Ok(f),
            Progress::Failed(e) => return Err(e),
        }
    }
}

fn drive_arena(a: &mut Arena, mut p: Progress, d: &mut FakeDriver) -> Result<Finished, StreamError> {
    loop {
        match p {
            Progress::Issue(c) => {
                let r = d.answer(c);
                p = a.resume(r);
            }
            Progress::Succeeded(f) => return Ok(f),
            Progress::Failed(e) => return Err(e),
        }
    }
}

fn open_stream(count: u32, d: &mut FakeDriver) -> StreamInt {
    let (mut s, p) = StreamInt::with_buffers(Type::VideoCapture, count);
    let granted = drive(&mut s, p, d).unwrap();
    assert!(matches!(granted, Finished::Allocated(_)));
    s
}

fn started_stream(count: u32, d: &mut FakeDriver) -> StreamInt {
    let mut s = open_stream(count, d);
    let p = s.start();
    assert_eq!(drive(&mut s, p, d), Ok(Finished::Started));
    s
}

#[test]
fn allocate_four_buffers() {
    let mut d = FakeDriver::new(8);
    let (mut s, p) = StreamInt::with_buffers(Type::VideoCapture, 4);
    assert_eq!(
        p,
        Progress::Issue(Command::RequestBuffers { buf_type: Type::VideoCapture, memory: Memory::Mmap, count: 4 })
    );
    assert_eq!(drive(&mut s, p, &mut d), Ok(Finished::Allocated(4)));
    assert_eq!(s.len(), 4);
    assert_eq!(s.get(3), Some(4096));
    assert!(d.log.contains(&Command::MapBuffer { index: 2, offset: 8192, length: 4096 }));
}

#[test]
fn driver_grants_fewer_buffers() {
    let mut d = FakeDriver::new(2);
    let (mut s, p) = StreamInt::new(Type::VideoCapture);
    assert_eq!(drive(&mut s, p, &mut d), Ok(Finished::Allocated(2)));
    assert_eq!(s.len(), 2);
}

#[test]
fn driver_grants_none() {
    let mut d = FakeDriver::new(0);
    let (mut s, p) = StreamInt::with_buffers(Type::VideoCapture, 3);
    assert_eq!(drive(&mut s, p, &mut d), Err(StreamError::DriverRejected(12)));
    assert_eq!(s.len(), 0);
    let mut a = Arena::new(Type::VideoCapture);
    let p = a.allocate(1);
    assert_eq!(drive_arena(&mut a, p, &mut d), Err(StreamError::DriverRejected(12)));
    assert_eq!(a.len(), 0);
}

#[test]
fn failed_mapping_keeps_earlier_buffers() {
    let mut d = FakeDriver::new(4);
    d.fail = Some((|c| matches!(c, Command::MapBuffer { index: 2, .. }), 12));
    let (mut s, p) = StreamInt::with_buffers(Type::VideoCapture, 4);
    assert_eq!(drive(&mut s, p, &mut d), Err(StreamError::DriverRejected(12)));
    assert_eq!(s.len(), 2);
}

#[test]
fn release_empties_and_is_idempotent() {
    let mut d = FakeDriver::new(4);
    let mut a = Arena::new(Type::VideoCapture);
    let p = a.allocate(3);
    assert_eq!(drive_arena(&mut a, p, &mut d), Ok(Finished::Allocated(3)));
    assert_eq!(a.len(), 3);
    let p = a.release();
    assert_eq!(p, Progress::Issue(Command::UnmapBuffer { index: 0 }));
    assert_eq!(drive_arena(&mut a, p, &mut d), Ok(Finished::Released));
    assert_eq!(a.len(), 0);
    let before = d.log.len();
    assert_eq!(a.release(), Progress::Succeeded(Finished::Released));
    assert_eq!(d.log.len(), before);
}

#[test]
fn allocate_twice_is_invalid() {
    let mut d = FakeDriver::new(4);
    let mut a = Arena::new(Type::VideoOutput);
    let p = a.allocate(2);
    assert_eq!(drive_arena(&mut a, p, &mut d), Ok(Finished::Allocated(2)));
    assert_eq!(a.allocate(2), Progress::Failed(StreamError::InvalidState));
}

#[test]
fn release_resumes_after_failed_unmap() {
    let mut d = FakeDriver::new(4);
    let mut a = Arena::new(Type::VideoCapture);
    let p = a.allocate(3);
    drive_arena(&mut a, p, &mut d).unwrap();
    d.fail = Some((|c| matches!(c, Command::UnmapBuffer { index: 1 }), 22));
    let p = a.release();
    assert_eq!(drive_arena(&mut a, p, &mut d), Err(StreamError::DriverRejected(22)));
    assert_eq!(a.get(0), None);
    assert_eq!(a.get(1), Some(4096));
    d.fail = None;
    assert_eq!(a.release(), Progress::Issue(Command::UnmapBuffer { index: 1 }));
}

#[test]
fn start_queues_every_buffer_once() {
    let mut d = FakeDriver::new(8);
    let s = started_stream(4, &mut d);
    let t = Type::VideoCapture;
    let from = d.log.iter().position(|c| *c == Command::StreamOn { buf_type: t }).unwrap();
    let expected: Vec<Command> = std::iter::once(Command::StreamOn { buf_type: t })
        .chain((0..4).map(|i| Command::QueueBuffer { buf_type: t, memory: Memory::Mmap, index: i }))
        .collect();
    assert_eq!(d.log[from..].to_vec(), expected);
    assert!(s.is_active());
}

#[test]
fn start_twice_is_invalid() {
    let mut d = FakeDriver::new(8);
    let mut s = started_stream(2, &mut d);
    assert_eq!(s.start(), Progress::Failed(StreamError::InvalidState));
}

#[test]
fn dequeue_rejects_out_of_range_index() {
    let mut d = FakeDriver::new(8);
    let mut s = started_stream(4, &mut d);
    let p = s.dequeue();
    assert!(matches!(p, Progress::Issue(Command::DequeueBuffer { .. })));
    let meta = frame_meta(1);
    assert_eq!(s.resume(Reply::Dequeued { index: 4, meta }), Progress::Failed(StreamError::OutOfRange));
    let p = s.dequeue();
    assert!(matches!(p, Progress::Issue(_)));
    assert_eq!(s.resume(Reply::Dequeued { index: 900, meta }), Progress::Failed(StreamError::OutOfRange));
}

#[test]
fn requeued_buffer_can_be_dequeued_again() {
    let mut d = FakeDriver::new(8);
    let mut s = started_stream(1, &mut d);
    let p = s.dequeue();
    let first = drive(&mut s, p, &mut d).unwrap();
    assert_eq!(first, Finished::Frame { index: 0, meta: frame_meta(1) });
    let p = s.queue(0);
    assert_eq!(drive(&mut s, p, &mut d), Ok(Finished::Queued));
    let p = s.dequeue();
    assert_eq!(drive(&mut s, p, &mut d), Ok(Finished::Frame { index: 0, meta: frame_meta(2) }));
}

#[test]
fn queue_checks_phase_and_range() {
    let mut d = FakeDriver::new(8);
    let mut s = open_stream(2, &mut d);
    assert_eq!(s.queue(0), Progress::Failed(StreamError::InvalidState));
    let p = s.start();
    drive(&mut s, p, &mut d).unwrap();
    assert_eq!(s.queue(2), Progress::Failed(StreamError::OutOfRange));
    assert_eq!(s.queue(0), Progress::Failed(StreamError::InvalidState));
}

#[test]
fn teardown_stops_before_unmapping() {
    let mut d = FakeDriver::new(8);
    let mut s = started_stream(3, &mut d);
    d.log.clear();
    let p = s.teardown();
    assert_eq!(drive(&mut s, p, &mut d), Ok(Finished::TornDown));
    assert!(!d.unmap_while_streaming);
    assert_eq!(d.log[0], Command::StreamOff { buf_type: Type::VideoCapture });
    let unmaps: Vec<usize> = (0..d.log.len()).filter(|&k| matches!(d.log[k], Command::UnmapBuffer { .. })).collect();
    assert_eq!(unmaps, vec![1, 2, 3]);
    assert_eq!(
        d.log[4],
        Command::RequestBuffers { buf_type: Type::VideoCapture, memory: Memory::Mmap, count: 0 }
    );
    assert_eq!(s.len(), 0);
}

#[test]
fn next_frame_four_times() {
    let mut d = FakeDriver::new(8);
    let mut s = started_stream(4, &mut d);
    let mut seen = Vec::new();
    let mut last_sequence = 0;
    for _ in 0..4 {
        let p = s.next_frame();
        match drive(&mut s, p, &mut d) {
            Ok(Finished::Frame { index, meta }) => {
                assert!(meta.sequence >= last_sequence);
                last_sequence = meta.sequence;
                assert!(!seen.contains(&index));
                seen.push(index);
                assert_eq!(s.get_meta(index), Some(meta));
            }
            other => panic!("unexpected {:?}", other),
        }
    }
    seen.sort();
    assert_eq!(seen, vec![0, 1, 2, 3]);
}

#[test]
fn next_frame_keeps_streaming_past_one_pass() {
    let mut d = FakeDriver::new(8);
    let mut s = started_stream(2, &mut d);
    for _ in 0..10 {
        let p = s.next_frame();
        assert!(matches!(drive(&mut s, p, &mut d), Ok(Finished::Frame { .. })));
    }
}

#[test]
fn device_gone_during_teardown_is_success() {
    let mut d = FakeDriver::new(8);
    let mut s = started_stream(2, &mut d);
    d.fail = Some((|_| true, 19));
    let p = s.teardown();
    assert_eq!(drive(&mut s, p, &mut d), Ok(Finished::TornDown));
}

#[test]
fn device_gone_on_explicit_release_is_error() {
    let mut d = FakeDriver::new(8);
    let mut a = Arena::new(Type::VideoCapture);
    let p = a.allocate(2);
    drive_arena(&mut a, p, &mut d).unwrap();
    d.fail = Some((|_| true, 19));
    let p = a.release();
    assert_eq!(drive_arena(&mut a, p, &mut d), Err(StreamError::DeviceGone));
    assert_eq!(a.len(), 2);
}

#[test]
fn other_error_during_teardown_is_reported() {
    let mut d = FakeDriver::new(8);
    let mut s = started_stream(2, &mut d);
    d.fail = Some((|c| matches!(c, Command::UnmapBuffer { .. }), 14));
    let p = s.teardown();
    assert_eq!(drive(&mut s, p, &mut d), Err(StreamError::DriverRejected(14)));
}

#[test]
fn get_out_of_range_is_none() {
    let mut d = FakeDriver::new(8);
    let s = open_stream(4, &mut d);
    assert_eq!(s.get(4), None);
    assert_eq!(s.get(usize::MAX), None);
    assert_eq!(s.get_meta(4), None);
    assert_eq!(s.get_meta(0), Some(Metadata::default()));
    let a = Arena::new(Type::VideoCapture);
    assert_eq!(a.get(0), None);
}

#[test]
fn stop_then_start_refills_queue() {
    let mut d = FakeDriver::new(8);
    let mut s = started_stream(2, &mut d);
    let p = s.stop();
    assert_eq!(drive(&mut s, p, &mut d), Ok(Finished::Stopped));
    assert!(!s.is_active());
    let p = s.start();
    assert_eq!(drive(&mut s, p, &mut d), Ok(Finished::Started));
    assert_eq!(d.incoming.len(), 2);
}

#[test]
fn explicit_stop_reports_device_gone() {
    let mut d = FakeDriver::new(8);
    let mut s = started_stream(2, &mut d);
    d.fail = Some((|_| true, 19));
    let p = s.stop();
    assert_eq!(drive(&mut s, p, &mut d), Err(StreamError::DeviceGone));
}

#[test]
fn reply_that_does_not_fit_is_invalid() {
    let mut d = FakeDriver::new(8);
    let mut s = open_stream(2, &mut d);
    assert_eq!(s.resume(Reply::Done), Progress::Failed(StreamError::InvalidState));
    let _ = s.start();
    assert_eq!(s.resume(Reply::Granted(3)), Progress::Failed(StreamError::InvalidState));
}

#[test]
fn stream_facade_runs_frames() {
    let mut d = FakeDriver::new(8);
    let (mut s, mut p) = Stream::new(Type::VideoCapture);
    loop {
        match p {
            Progress::Issue(c) => p = s.resume(d.answer(c)),
            other => {
                assert_eq!(other, Progress::Succeeded(Finished::Allocated(4)));
                break;
            }
        }
    }
    let mut p = s.start();
    while let Progress::Issue(c) = p {
        p = s.resume(d.answer(c));
    }
    let mut p = s.next();
    while let Progress::Issue(c) = p {
        p = s.resume(d.answer(c));
    }
    assert_eq!(p, Progress::Succeeded(Finished::Frame { index: 0, meta: frame_meta(1) }));
    assert_eq!(s.get(0), Some(4096));
    assert_eq!(s.get_meta(0), Some(frame_meta(1)));
    let mut p = s.stop();
    while let Progress::Issue(c) = p {
        p = s.resume(d.answer(c));
    }
    assert_eq!(p, Progress::Succeeded(Finished::Stopped));
}

#[test]
fn codes_of_types_and_errors() {
    assert_eq!(Type::VideoCapture.code(), 1);
    assert_eq!(Type::MetaOutput.code(), 14);
    assert_eq!(Type::Private.code(), 0x80);
    assert_eq!(Memory::Mmap.code(), 1);
    assert_eq!(Memory::DmaBuf.code(), 4);
    assert_eq!(StreamError::from_code(19), StreamError::DeviceGone);
    assert_eq!(StreamError::from_code(22), StreamError::DriverRejected(22));
}

#[test]
fn arena_through_its_trait() {
    let mut d = FakeDriver::new(8);
    let mut a = Arena::new(Type::VideoCapture);
    let p = BufferArena::allocate(&mut a, 2);
    assert_eq!(drive_arena(&mut a, p, &mut d), Ok(Finished::Allocated(2)));
    assert_eq!(BufferArena::len(&a), 2);
    assert_eq!(BufferArena::get(&a, 1), Some(4096));
    assert_eq!(BufferArena::get(&a, 2), None);
    assert_eq!(BufferArena::allocate(&mut a, 1), Progress::Failed(StreamError::InvalidState));
    let mut p = BufferArena::release(&mut a);
    assert_eq!(p, Progress::Issue(Command::UnmapBuffer { index: 0 }));
    while let Progress::Issue(c) = p {
        p = BufferArena::resume(&mut a, d.answer(c));
    }
    assert_eq!(p, Progress::Succeeded(Finished::Released));
    assert_eq!(BufferArena::len(&a), 0);
    assert_eq!(BufferArena::release(&mut a), Progress::Succeeded(Finished::Released));
    assert_eq!(BufferArena::resume(&mut a, Reply::Done), Progress::Failed(StreamError::InvalidState));
}

#[test]
fn arena_teardown_mid_allocation() {
    let mut d = FakeDriver::new(4);
    let mut a = Arena::new(Type::VideoCapture);
    let mut p = a.allocate(3);
    for _ in 0..4 {
        if let Progress::Issue(c) = p {
            p = a.resume(d.answer(c));
        }
    }
    assert_eq!(a.len(), 1);
    let p = a.teardown();
    assert_eq!(p, Progress::Issue(Command::UnmapBuffer { index: 0 }));
    assert_eq!(drive_arena(&mut a, p, &mut d), Ok(Finished::Released));
    assert_eq!(a.len(), 0);
}

#[test]
fn unmapping_while_streaming_is_caught() {
    let mut d = FakeDriver::new(8);
    let s = started_stream(2, &mut d);
    assert!(s.is_active());
    assert_eq!(d.answer(Command::UnmapBuffer { index: 0 }), Reply::Failed(16));
    assert!(d.unmap_while_streaming);
}
