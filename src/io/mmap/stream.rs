//! The streaming coordinator: drives the driver's capture state machine and
//! the queue/dequeue cycle of the arena's buffers.
use vstd::prelude::*;
use crate::buffer::{zero_metadata, Memory, Metadata, Type};
use crate::io::mmap::arena::{
    all_done, fails, idle_arena, lemma_arena_release_wf, lemma_arena_step_wf, succeeds, Arena,
    ArenaModel, ArenaOp, releasing_on_teardown,
};
use crate::protocol::{error_of_code, Command, Finished, Progress, Reply, StreamError, ENODEV};

verus! {

/// Why a buffer is being handed to the driver.
#[derive(Clone, Copy, Debug, PartialEq, Eq, Structural)]
pub enum QueueFor {
    /// Part of filling the incoming queue when streaming starts.
    Start,
    /// An explicit request of the caller.
    Caller,
    /// The frame handed out last, given back before the next one is taken.
    Frame,
}

/// The operation a stream is in the middle of, and what it waits for.
#[derive(Clone, Copy, Debug, PartialEq, Eq, Structural)]
pub enum StreamOp {
    Idle,
    /// The arena is allocating.
    Allocating,
    /// Waits for stream-on.
    StreamingOn,
    /// Waits for buffer `index` to be queued.
    Queueing { index: u32, purpose: QueueFor },
    /// Waits for a completed buffer.
    Dequeueing { frame: bool },
    /// Waits for stream-off.
    StreamingOff { teardown: bool },
    /// The arena is releasing, at the end of the stream's life.
    Releasing,
}

/// What a stream is, mathematically.
pub struct StreamModel {
    pub arena: ArenaModel,
    /// Metadata of the last completion of each buffer.
    pub meta: Seq<Metadata>,
    /// Which buffers the driver holds.
    pub queued: Seq<bool>,
    pub active: bool,
    /// The buffer handed out by the last `next_frame`, not given back yet.
    pub last: Option<usize>,
    pub op: StreamOp,
    /// The commands issued since the current operation began.
    pub issued: Seq<Command>,
}

pub open spec fn queue_command(t: Type, index: u32) -> Command {
    Command::QueueBuffer { buf_type: t, memory: Memory::Mmap, index }
}

/// The commands that starting a stream of `n` buffers issues: stream-on,
/// then every buffer in ascending order.
pub open spec fn start_script(t: Type, n: nat) -> Seq<Command> {
    seq![Command::StreamOn { buf_type: t }] + Seq::new(n, |i: int| queue_command(t, i as u32))
}

pub open spec fn no_buffers(n: nat) -> Seq<bool> {
    Seq::new(n, |i: int| false)
}

pub open spec fn blank_metadata(n: nat) -> Seq<Metadata> {
    Seq::new(n, |i: int| zero_metadata())
}

/// A stream that has just asked for `count` buffers of type `t`.
pub open spec fn opened(t: Type, count: u32) -> (StreamModel, Progress) {
    let (a, p) = idle_arena(t).allocate(count);
    StreamModel {
        arena: a,
        meta: Seq::empty(),
        queued: Seq::empty(),
        active: false,
        last: None,
        op: StreamOp::Allocating,
        issued: Seq::empty(),
    }.record(p)
}

pub open spec fn stream_off(t: Type) -> Command {
    Command::StreamOff { buf_type: t }
}

impl StreamModel {
    pub open spec fn buf_type(self) -> Type {
        self.arena.buf_type
    }

    pub open spec fn len(self) -> nat {
        self.arena.len()
    }

    pub open spec fn wf(self) -> bool {
        &&& self.arena.wf()
        &&& (self.op != StreamOp::Allocating && self.op != StreamOp::Releasing) ==> {
            &&& self.meta.len() == self.len()
            &&& self.queued.len() == self.len()
        }
        &&& match self.last {
            Some(i) => self.active && i < self.len() && !self.queued[i as int],
            None => true,
        }
        &&& match self.op {
            StreamOp::Queueing { .. } => true,
            _ => !self.active ==> forall|j: int| 0 <= j < self.queued.len() ==> !self.queued[j],
        }
        &&& match self.op {
            StreamOp::Idle => self.arena.op == ArenaOp::Idle,
            StreamOp::Allocating => {
                &&& !self.active
                &&& self.last is None
                &&& (self.arena.op is Requesting || self.arena.op is Querying
                    || self.arena.op is Mapping)
            },
            StreamOp::StreamingOn => {
                &&& self.arena.op == ArenaOp::Idle
                &&& !self.active
                &&& self.issued == seq![Command::StreamOn { buf_type: self.buf_type() }]
            },
            StreamOp::Queueing { index, purpose } => {
                &&& self.arena.op == ArenaOp::Idle
                &&& index < self.len()
                &&& !self.queued[index as int]
                &&& purpose == QueueFor::Start ==> {
                    &&& !self.active
                    &&& self.issued == start_script(self.buf_type(), index as nat + 1)
                    &&& forall|j: int| 0 <= j < self.len() ==> self.queued[j] == (j < index)
                }
                &&& purpose != QueueFor::Start ==> self.active
                &&& purpose == QueueFor::Frame ==> self.last == Some(index as usize)
            },
            StreamOp::Dequeueing { .. } => self.arena.op == ArenaOp::Idle && self.active,
            StreamOp::StreamingOff { teardown } => {
                &&& self.arena.op == ArenaOp::Idle
                &&& teardown ==> self.issued == seq![Command::StreamOff { buf_type: self.buf_type() }]
            },
            StreamOp::Releasing => {
                &&& releasing_on_teardown(self.arena.op)
                &&& !self.active
                &&& self.last is None
                &&& self.issued.len() > 0
                &&& self.issued[0] == Command::StreamOff { buf_type: self.buf_type() }
            },
        }
    }

    pub open spec fn with_op(self, op: StreamOp) -> StreamModel {
        StreamModel { op, ..self }
    }

    /// Notes an issued command in the log of the current operation.
    pub open spec fn record(self, p: Progress) -> (StreamModel, Progress) {
        match p {
            Progress::Issue(c) => (StreamModel { issued: self.issued.push(c), ..self }, p),
            _ => (self, p),
        }
    }

    /// The same stream at the start of a new operation.
    pub open spec fn begin(self) -> StreamModel {
        StreamModel { issued: Seq::empty(), ..self }
    }

    /// The stream once its arena is done with an operation: the
    /// per-buffer bookkeeping is sized to what the arena holds.
    pub open spec fn settle(self, arena: ArenaModel) -> StreamModel {
        StreamModel {
            arena,
            meta: blank_metadata(arena.len()),
            queued: no_buffers(arena.len()),
            active: false,
            last: None,
            op: StreamOp::Idle,
            ..self
        }
    }

    /// The stream after the driver stopped: it holds no buffer any more.
    pub open spec fn halted(self) -> StreamModel {
        StreamModel { queued: no_buffers(self.len()), active: false, last: None, ..self }
    }

    pub open spec fn issue_queue(self, index: u32, purpose: QueueFor) -> (StreamModel, Progress) {
        self.with_op(StreamOp::Queueing { index, purpose }).record(
            Progress::Issue(queue_command(self.buf_type(), index)),
        )
    }

    pub open spec fn issue_dequeue(self, frame: bool) -> (StreamModel, Progress) {
        self.with_op(StreamOp::Dequeueing { frame }).record(
            Progress::Issue(Command::DequeueBuffer { buf_type: self.buf_type(), memory: Memory::Mmap }),
        )
    }

    pub open spec fn start(self) -> (StreamModel, Progress) {
        if self.op != StreamOp::Idle || self.active {
            (self, fails(StreamError::InvalidState))
        } else {
            self.begin().with_op(StreamOp::StreamingOn).record(
                Progress::Issue(Command::StreamOn { buf_type: self.buf_type() }),
            )
        }
    }

    pub open spec fn stop(self) -> (StreamModel, Progress) {
        if self.op != StreamOp::Idle {
            (self, fails(StreamError::InvalidState))
        } else {
            self.begin().with_op(StreamOp::StreamingOff { teardown: false }).record(
                Progress::Issue(Command::StreamOff { buf_type: self.buf_type() }),
            )
        }
    }

    /// Ends the stream from whatever it was doing: stream-off first, then
    /// the release of the arena.
    pub open spec fn teardown(self) -> (StreamModel, Progress) {
        StreamModel {
            arena: self.arena.with_op(ArenaOp::Idle),
            meta: blank_metadata(self.len()),
            queued: no_buffers(self.len()),
            active: false,
            last: None,
            ..self
        }.begin().with_op(StreamOp::StreamingOff { teardown: true }).record(
            Progress::Issue(Command::StreamOff { buf_type: self.buf_type() }),
        )
    }

    /// Queueing is refused while streaming is off: stopping takes every
    /// buffer back from the driver and starting queues them all, so a buffer
    /// queued in between would be queued twice.
    pub open spec fn queue(self, index: usize) -> (StreamModel, Progress) {
        if self.op != StreamOp::Idle || !self.active {
            (self, fails(StreamError::InvalidState))
        } else if index >= self.len() {
            (self, fails(StreamError::OutOfRange))
        } else if self.queued[index as int] {
            (self, fails(StreamError::InvalidState))
        } else {
            self.begin().issue_queue(index as u32, QueueFor::Caller)
        }
    }

    pub open spec fn dequeue(self) -> (StreamModel, Progress) {
        if self.op != StreamOp::Idle || !self.active {
            (self, fails(StreamError::InvalidState))
        } else {
            self.begin().issue_dequeue(false)
        }
    }

    pub open spec fn next_frame(self) -> (StreamModel, Progress) {
        if self.op != StreamOp::Idle || !self.active {
            (self, fails(StreamError::InvalidState))
        } else {
            match self.last {
                Some(i) => self.begin().issue_queue(i as u32, QueueFor::Frame),
                None => self.begin().issue_dequeue(true),
            }
        }
    }

    /// Stream-off went through (or the device is gone) during teardown:
    /// release the arena.
    pub open spec fn release_arena(self) -> (StreamModel, Progress) {
        let (a, p) = self.arena.release(true);
        match p {
            Progress::Issue(_) => StreamModel { arena: a, op: StreamOp::Releasing, ..self }.record(p),
            Progress::Succeeded(_) => (self.settle(a), succeeds(Finished::TornDown)),
            Progress::Failed(e) => (self.settle(a), fails(e)),
        }
    }

    pub open spec fn arena_step(self, reply: Reply) -> (StreamModel, Progress) {
        let (a, p) = self.arena.step(reply);
        match p {
            Progress::Issue(_) => StreamModel { arena: a, ..self }.record(p),
            Progress::Succeeded(f) => (
                self.settle(a),
                if self.op == StreamOp::Releasing { succeeds(Finished::TornDown) } else { p },
            ),
            Progress::Failed(_) => (self.settle(a), p),
        }
    }

    pub open spec fn step(self, reply: Reply) -> (StreamModel, Progress) {
        let idle = self.with_op(StreamOp::Idle);
        match self.op {
            StreamOp::Idle => (self, fails(StreamError::InvalidState)),
            StreamOp::Allocating => self.arena_step(reply),
            StreamOp::Releasing => self.arena_step(reply),
            StreamOp::StreamingOn => match reply {
                Reply::Done => if self.len() == 0 {
                    (StreamModel { active: true, ..idle }, succeeds(Finished::Started))
                } else {
                    self.issue_queue(0, QueueFor::Start)
                },
                Reply::Failed(c) => (idle, fails(error_of_code(c))),
                _ => (idle, fails(StreamError::InvalidState)),
            },
            StreamOp::Queueing { index, purpose } => match reply {
                Reply::Done => {
                    let s = StreamModel { queued: self.queued.update(index as int, true), ..self };
                    match purpose {
                        QueueFor::Start => if index + 1 < self.len() {
                            s.issue_queue((index + 1) as u32, QueueFor::Start)
                        } else {
                            (StreamModel { active: true, op: StreamOp::Idle, ..s }, succeeds(Finished::Started))
                        },
                        QueueFor::Caller => (
                            StreamModel {
                                last: if self.last == Some(index as usize) { None } else { self.last },
                                op: StreamOp::Idle,
                                ..s
                            },
                            succeeds(Finished::Queued),
                        ),
                        QueueFor::Frame => StreamModel { last: None, ..s }.issue_dequeue(true),
                    }
                },
                // Streaming is on even when filling the queue broke off.
                Reply::Failed(c) => (StreamModel { active: true, ..idle }, fails(error_of_code(c))),
                _ => (StreamModel { active: true, ..idle }, fails(StreamError::InvalidState)),
            },
            StreamOp::Dequeueing { frame } => match reply {
                Reply::Dequeued { index, meta } => if index >= self.len() {
                    (idle, fails(StreamError::OutOfRange))
                } else if !self.queued[index as int] {
                    // The driver can only complete a buffer it was given.
                    (idle, fails(StreamError::InvalidState))
                } else {
                    (
                        StreamModel {
                            meta: self.meta.update(index as int, meta),
                            queued: self.queued.update(index as int, false),
                            last: if frame { Some(index as usize) } else { self.last },
                            ..idle
                        },
                        succeeds(Finished::Frame { index: index as usize, meta }),
                    )
                },
                Reply::Failed(c) => (idle, fails(error_of_code(c))),
                _ => (idle, fails(StreamError::InvalidState)),
            },
            StreamOp::StreamingOff { teardown } => match reply {
                Reply::Done => if teardown {
                    self.halted().release_arena()
                } else {
                    (self.halted().with_op(StreamOp::Idle), succeeds(Finished::Stopped))
                },
                Reply::Failed(c) => if teardown && c == ENODEV {
                    self.halted().release_arena()
                } else {
                    (idle, fails(error_of_code(c)))
                },
                _ => (idle, fails(StreamError::InvalidState)),
            },
        }
    }
}

proof fn lemma_start_script_grows(t: Type, n: nat)
    ensures
        start_script(t, n).push(queue_command(t, n as u32)) == start_script(t, n + 1),
        start_script(t, 0) == seq![Command::StreamOn { buf_type: t }],
{
    assert(start_script(t, n).push(queue_command(t, n as u32)) =~= start_script(t, n + 1));
    assert(start_script(t, 0) =~= seq![Command::StreamOn { buf_type: t }]);
}

proof fn lemma_arena_step_keeps_wf(s: StreamModel, reply: Reply)
    requires
        s.wf(),
        s.op == StreamOp::Allocating || s.op == StreamOp::Releasing,
    ensures
        s.arena_step(reply).0.wf(),
{
    lemma_arena_step_wf(s.arena, reply);
    if s.arena.step(reply).1 is Issue {
        let n = s.arena_step(reply).0;
        if s.op == StreamOp::Releasing {
            assert(n.issued[0] == s.issued[0]);
        }
    } else {
        let n = s.arena_step(reply).0;
        assert(forall|j: int| 0 <= j < n.queued.len() ==> !n.queued[j]);
    }
}

proof fn lemma_step_wf(s: StreamModel, reply: Reply)
    requires
        s.wf(),
    ensures
        s.step(reply).0.wf(),
{
    let t = s.buf_type();
    match s.op {
        StreamOp::Allocating => lemma_arena_step_keeps_wf(s, reply),
        StreamOp::Releasing => lemma_arena_step_keeps_wf(s, reply),
        StreamOp::StreamingOn => lemma_start_script_grows(t, 0),
        StreamOp::Queueing { index, purpose } => {
            if reply == Reply::Done && purpose == QueueFor::Start && index + 1 < s.len() {
                lemma_start_script_grows(t, index as nat + 1);
                let q = s.queued.update(index as int, true);
                assert forall|j: int| 0 <= j < s.len() implies q[j] == (j < index + 1) by {}
            }
        },
        StreamOp::StreamingOff { .. } => lemma_arena_release_wf(s.halted().arena),
        _ => {},
    }
}

fn no_buffers_vec(n: usize) -> (r: Vec<bool>)
    ensures
        r@ == no_buffers(n as nat),
{
    let mut r: Vec<bool> = Vec::new();
    let mut i: usize = 0;
    while i < n
        invariant
            i <= n,
            r@ == no_buffers(i as nat),
        decreases n - i,
    {
        r.push(false);
        i = i + 1;
        proof {
            assert(r@ =~= no_buffers(i as nat));
        }
    }
    r
}

fn blank_metadata_vec(n: usize) -> (r: Vec<Metadata>)
    ensures
        r@ == blank_metadata(n as nat),
{
    let mut r: Vec<Metadata> = Vec::new();
    let mut i: usize = 0;
    while i < n
        invariant
            i <= n,
            r@ == blank_metadata(i as nat),
        decreases n - i,
    {
        r.push(Metadata::default());
        i = i + 1;
        proof {
            assert(r@ =~= blank_metadata(i as nat));
        }
    }
    r
}

/// A stream of memory-mapped buffers: an arena, the metadata of each of its
/// buffers, and the capture state of the driver.
pub struct StreamInt {
    arena: Arena,
    buf_meta: Vec<Metadata>,
    queued: Vec<bool>,
    active: bool,
    last: Option<usize>,
    op: StreamOp,
    issued: Ghost<Seq<Command>>,
}

impl View for StreamInt {
    type V = StreamModel;

    closed spec fn view(&self) -> StreamModel {
        StreamModel {
            arena: self.arena@,
            meta: self.buf_meta@,
            queued: self.queued@,
            active: self.active,
            last: self.last,
            op: self.op,
            issued: self.issued@,
        }
    }
}

impl StreamInt {
    pub open spec fn wf(&self) -> bool {
        self@.wf()
    }

    /// A stream for capturing with `buf_count` buffers of type `buf_type`.
    /// The arena's allocation has begun: perform the command returned and
    /// hand each reply to `resume` until the operation is over.
    pub fn with_buffers(buf_type: Type, buf_count: u32) -> (r: (StreamInt, Progress))
        requires
            buf_count > 0,
        ensures
            r.0.wf(),
            (r.0@, r.1) == opened(buf_type, buf_count),
    {
        let mut arena = Arena::new(buf_type);
        let p = arena.allocate(buf_count);
        let mut stream = StreamInt {
            arena,
            buf_meta: Vec::new(),
            queued: Vec::new(),
            active: false,
            last: None,
            op: StreamOp::Allocating,
            issued: Ghost(Seq::empty()),
        };
        proof {
            assert(stream@.meta =~= Seq::<Metadata>::empty());
            assert(stream@.queued =~= Seq::<bool>::empty());
        }
        let p = stream.record(p);
        (stream, p)
    }

    /// A stream with four buffers of type `buf_type`, as `with_buffers`.
    pub fn new(buf_type: Type) -> (r: (StreamInt, Progress))
        ensures
            r.0.wf(),
            (r.0@, r.1) == opened(buf_type, 4),
    {
        StreamInt::with_buffers(buf_type, 4)
    }

    fn record(&mut self, p: Progress) -> (r: Progress)
        ensures
            (final(self)@, r) == old(self)@.record(p),
    {
        if let Progress::Issue(c) = p {
            self.issued = Ghost(self.issued@.push(c));
        }
        p
    }

    fn begin(&mut self)
        ensures
            final(self)@ == old(self)@.begin(),
    {
        self.issued = Ghost(Seq::empty());
    }

    fn issue_queue(&mut self, index: u32, purpose: QueueFor) -> (r: Progress)
        ensures
            (final(self)@, r) == old(self)@.issue_queue(index, purpose),
    {
        self.op = StreamOp::Queueing { index, purpose };
        let t = self.arena.buf_type();
        self.record(Progress::Issue(Command::QueueBuffer { buf_type: t, memory: Memory::Mmap, index }))
    }

    fn issue_dequeue(&mut self, frame: bool) -> (r: Progress)
        ensures
            (final(self)@, r) == old(self)@.issue_dequeue(frame),
    {
        self.op = StreamOp::Dequeueing { frame };
        let t = self.arena.buf_type();
        self.record(Progress::Issue(Command::DequeueBuffer { buf_type: t, memory: Memory::Mmap }))
    }

    fn settle(&mut self)
        ensures
            final(self)@ == old(self)@.settle(old(self)@.arena),
    {
        let n = self.arena.len();
        self.buf_meta = blank_metadata_vec(n);
        self.queued = no_buffers_vec(n);
        self.active = false;
        self.last = None;
        self.op = StreamOp::Idle;
    }

    fn halt(&mut self)
        ensures
            final(self)@ == old(self)@.halted(),
    {
        self.queued = no_buffers_vec(self.arena.len());
        self.active = false;
        self.last = None;
    }

    fn release_arena(&mut self) -> (r: Progress)
        requires
            old(self)@.arena.wf(),
            old(self)@.arena.op == ArenaOp::Idle,
        ensures
            (final(self)@, r) == old(self)@.release_arena(),
    {
        assert(self@.arena.with_op(ArenaOp::Idle) == self@.arena);
        let p = self.arena.teardown();
        match p {
            Progress::Issue(_) => {
                self.op = StreamOp::Releasing;
                self.record(p)
            },
            Progress::Succeeded(_) => {
                self.settle();
                Progress::Succeeded(Finished::TornDown)
            },
            Progress::Failed(e) => {
                self.settle();
                Progress::Failed(e)
            },
        }
    }

    fn arena_step(&mut self, reply: Reply) -> (r: Progress)
        requires
            old(self)@.arena.wf(),
        ensures
            (final(self)@, r) == old(self)@.arena_step(reply),
    {
        let releasing = self.op == StreamOp::Releasing;
        let p = self.arena.resume(reply);
        match p {
            Progress::Issue(_) => self.record(p),
            Progress::Succeeded(_) => {
                self.settle();
                if releasing {
                    Progress::Succeeded(Finished::TornDown)
                } else {
                    p
                }
            },
            Progress::Failed(_) => {
                self.settle();
                p
            },
        }
    }

    /// Starts streaming: stream-on, then every buffer into the driver's
    /// incoming queue in ascending order.
    pub fn start(&mut self) -> (r: Progress)
        requires
            old(self).wf(),
        ensures
            final(self).wf(),
            (final(self)@, r) == old(self)@.start(),
    {
        if self.op != StreamOp::Idle || self.active {
            return Progress::Failed(StreamError::InvalidState);
        }
        self.begin();
        self.op = StreamOp::StreamingOn;
        let t = self.arena.buf_type();
        self.record(Progress::Issue(Command::StreamOn { buf_type: t }))
    }

    /// Stops streaming; the driver gives up every buffer it held.
    pub fn stop(&mut self) -> (r: Progress)
        requires
            old(self).wf(),
        ensures
            final(self).wf(),
            (final(self)@, r) == old(self)@.stop(),
    {
        if self.op != StreamOp::Idle {
            return Progress::Failed(StreamError::InvalidState);
        }
        self.begin();
        self.op = StreamOp::StreamingOff { teardown: false };
        let t = self.arena.buf_type();
        self.record(Progress::Issue(Command::StreamOff { buf_type: t }))
    }

    /// Ends the stream's life from whatever it was doing: stream-off, then
    /// the release of every buffer. A device that is gone counts as done;
    /// any other failure leaves the mappings in a state nobody can trust.
    pub fn teardown(&mut self) -> (r: Progress)
        requires
            old(self).wf(),
        ensures
            final(self).wf(),
            (final(self)@, r) == old(self)@.teardown(),
    {
        self.arena.abandon();
        let n = self.arena.len();
        self.buf_meta = blank_metadata_vec(n);
        self.queued = no_buffers_vec(n);
        self.active = false;
        self.last = None;
        self.begin();
        self.op = StreamOp::StreamingOff { teardown: true };
        let t = self.arena.buf_type();
        self.record(Progress::Issue(Command::StreamOff { buf_type: t }))
    }

    /// Hands buffer `index` to the driver's incoming queue. Refused with
    /// `InvalidState` while streaming is off or while the driver already
    /// holds the buffer, and with `OutOfRange` past the last buffer.
    pub fn queue(&mut self, index: usize) -> (r: Progress)
        requires
            old(self).wf(),
        ensures
            final(self).wf(),
            (final(self)@, r) == old(self)@.queue(index),
    {
        if self.op != StreamOp::Idle || !self.active {
            return Progress::Failed(StreamError::InvalidState);
        }
        if index >= self.arena.len() {
            return Progress::Failed(StreamError::OutOfRange);
        }
        if self.queued[index] {
            return Progress::Failed(StreamError::InvalidState);
        }
        self.begin();
        self.issue_queue(index as u32, QueueFor::Caller)
    }

    /// Waits for the driver to complete a buffer. A completion of an index
    /// past the last buffer ends in `OutOfRange`; one of a buffer the driver
    /// was not holding ends in `InvalidState`.
    pub fn dequeue(&mut self) -> (r: Progress)
        requires
            old(self).wf(),
        ensures
            final(self).wf(),
            (final(self)@, r) == old(self)@.dequeue(),
    {
        if self.op != StreamOp::Idle || !self.active {
            return Progress::Failed(StreamError::InvalidState);
        }
        self.begin();
        self.issue_dequeue(false)
    }

    /// The next frame: gives back the buffer handed out last, if any, then
    /// waits for the driver to complete one.
    pub fn next_frame(&mut self) -> (r: Progress)
        requires
            old(self).wf(),
        ensures
            final(self).wf(),
            (final(self)@, r) == old(self)@.next_frame(),
    {
        if self.op != StreamOp::Idle || !self.active {
            return Progress::Failed(StreamError::InvalidState);
        }
        self.begin();
        match self.last {
            Some(i) => self.issue_queue(i as u32, QueueFor::Frame),
            None => self.issue_dequeue(true),
        }
    }

    /// Hands the driver's reply to the last command to the operation in
    /// progress, and returns what that operation needs next.
    pub fn resume(&mut self, reply: Reply) -> (r: Progress)
        requires
            old(self).wf(),
        ensures
            final(self).wf(),
            (final(self)@, r) == old(self)@.step(reply),
    {
        proof {
            lemma_step_wf(self@, reply);
        }
        match self.op {
            StreamOp::Idle => Progress::Failed(StreamError::InvalidState),
            StreamOp::Allocating => self.arena_step(reply),
            StreamOp::Releasing => self.arena_step(reply),
            StreamOp::StreamingOn => match reply {
                Reply::Done => if self.arena.len() == 0 {
                    self.active = true;
                    self.op = StreamOp::Idle;
                    Progress::Succeeded(Finished::Started)
                } else {
                    self.issue_queue(0, QueueFor::Start)
                },
                Reply::Failed(c) => {
                    self.op = StreamOp::Idle;
                    Progress::Failed(StreamError::from_code(c))
                },
                _ => {
                    self.op = StreamOp::Idle;
                    Progress::Failed(StreamError::InvalidState)
                },
            },
            StreamOp::Queueing { index, purpose } => match reply {
                Reply::Done => {
                    self.queued.set(index as usize, true);
                    match purpose {
                        QueueFor::Start => if (index as usize) + 1 < self.arena.len() {
                            self.issue_queue(index + 1, QueueFor::Start)
                        } else {
                            self.active = true;
                            self.op = StreamOp::Idle;
                            Progress::Succeeded(Finished::Started)
                        },
                        QueueFor::Caller => {
                            if let Some(l) = self.last {
                                if l == index as usize {
                                    self.last = None;
                                }
                            }
                            self.op = StreamOp::Idle;
                            Progress::Succeeded(Finished::Queued)
                        },
                        QueueFor::Frame => {
                            self.last = None;
                            self.issue_dequeue(true)
                        },
                    }
                },
                Reply::Failed(c) => {
                    self.active = true;
                    self.op = StreamOp::Idle;
                    Progress::Failed(StreamError::from_code(c))
                },
                _ => {
                    self.active = true;
                    self.op = StreamOp::Idle;
                    Progress::Failed(StreamError::InvalidState)
                },
            },
            StreamOp::Dequeueing { frame } => match reply {
                Reply::Dequeued { index, meta } => {
                    self.op = StreamOp::Idle;
                    let i = index as usize;
                    if i >= self.arena.len() {
                        Progress::Failed(StreamError::OutOfRange)
                    } else if !self.queued[i] {
                        Progress::Failed(StreamError::InvalidState)
                    } else {
                        self.buf_meta.set(i, meta);
                        self.queued.set(i, false);
                        if frame {
                            self.last = Some(i);
                        }
                        Progress::Succeeded(Finished::Frame { index: i, meta })
                    }
                },
                Reply::Failed(c) => {
                    self.op = StreamOp::Idle;
                    Progress::Failed(StreamError::from_code(c))
                },
                _ => {
                    self.op = StreamOp::Idle;
                    Progress::Failed(StreamError::InvalidState)
                },
            },
            StreamOp::StreamingOff { teardown } => match reply {
                Reply::Done => {
                    self.halt();
                    if teardown {
                        self.release_arena()
                    } else {
                        self.op = StreamOp::Idle;
                        Progress::Succeeded(Finished::Stopped)
                    }
                },
                Reply::Failed(c) => if teardown && c == ENODEV {
                    self.halt();
                    self.release_arena()
                } else {
                    self.op = StreamOp::Idle;
                    Progress::Failed(StreamError::from_code(c))
                },
                _ => {
                    self.op = StreamOp::Idle;
                    Progress::Failed(StreamError::InvalidState)
                },
            },
        }
    }

    /// Number of buffers.
    pub fn len(&self) -> (r: usize)
        ensures
            r == self@.len(),
    {
        self.arena.len()
    }

    pub fn is_active(&self) -> (r: bool)
        ensures
            r == self@.active,
    {
        self.active
    }

    pub fn op(&self) -> (r: StreamOp)
        ensures
            r == self@.op,
    {
        self.op
    }

    /// Length of the mapped region of buffer `index`; none when there is no
    /// such buffer.
    pub fn get(&self, index: usize) -> (r: Option<u32>)
        requires
            self.wf(),
        ensures
            r == self@.arena.region(index as int),
    {
        self.arena.get(index)
    }

    /// Metadata of the last completion of buffer `index`.
    pub fn get_meta(&self, index: usize) -> (r: Option<Metadata>)
        ensures
            r == (if index < self@.meta.len() { Some(self@.meta[index as int]) } else { None }),
    {
        if index < self.buf_meta.len() {
            Some(self.buf_meta[index])
        } else {
            None
        }
    }
}


/// A capture stream: the coordinator behind a smaller surface.
pub struct Stream {
    stream_int: StreamInt,
}

impl View for Stream {
    type V = StreamModel;

    closed spec fn view(&self) -> StreamModel {
        self.stream_int@
    }
}

impl Stream {
    pub open spec fn wf(&self) -> bool {
        self@.wf()
    }

    /// A stream with four buffers, as `with_buffers`.
    pub fn new(buf_type: Type) -> (r: (Stream, Progress))
        ensures
            r.0.wf(),
            (r.0@, r.1) == opened(buf_type, 4),
    {
        Stream::with_buffers(buf_type, 4)
    }

    /// A stream with `buf_count` buffers of type `buf_type`; its allocation
    /// has begun.
    pub fn with_buffers(buf_type: Type, buf_count: u32) -> (r: (Stream, Progress))
        requires
            buf_count > 0,
        ensures
            r.0.wf(),
            (r.0@, r.1) == opened(buf_type, buf_count),
    {
        let (stream_int, p) = StreamInt::with_buffers(buf_type, buf_count);
        (Stream { stream_int }, p)
    }

    pub fn start(&mut self) -> (r: Progress)
        requires
            old(self).wf(),
        ensures
            final(self).wf(),
            (final(self)@, r) == old(self)@.start(),
    {
        self.stream_int.start()
    }

    pub fn stop(&mut self) -> (r: Progress)
        requires
            old(self).wf(),
        ensures
            final(self).wf(),
            (final(self)@, r) == old(self)@.stop(),
    {
        self.stream_int.stop()
    }

    /// The next frame, as `StreamInt::next_frame`.
    pub fn next(&mut self) -> (r: Progress)
        requires
            old(self).wf(),
        ensures
            final(self).wf(),
            (final(self)@, r) == old(self)@.next_frame(),
    {
        self.stream_int.next_frame()
    }

    pub fn resume(&mut self, reply: Reply) -> (r: Progress)
        requires
            old(self).wf(),
        ensures
            final(self).wf(),
            (final(self)@, r) == old(self)@.step(reply),
    {
        self.stream_int.resume(reply)
    }

    pub fn teardown(&mut self) -> (r: Progress)
        requires
            old(self).wf(),
        ensures
            final(self).wf(),
            (final(self)@, r) == old(self)@.teardown(),
    {
        self.stream_int.teardown()
    }

    pub fn get(&self, index: usize) -> (r: Option<u32>)
        requires
            self.wf(),
        ensures
            r == self@.arena.region(index as int),
    {
        self.stream_int.get(index)
    }

    pub fn get_meta(&self, index: usize) -> (r: Option<Metadata>)
        ensures
            r == (if index < self@.meta.len() { Some(self@.meta[index as int]) } else { None }),
    {
        self.stream_int.get_meta(index)
    }

    pub fn len(&self) -> (r: usize)
        ensures
            r == self@.len(),
    {
        self.stream_int.len()
    }
}

/// Once an allocation succeeds, the stream holds exactly as many buffers as
/// the driver granted, and that count is positive.
pub proof fn lemma_allocation_count(s: StreamModel, reply: Reply, n: u32)
    requires
        s.wf(),
        s.op == StreamOp::Allocating,
        s.step(reply).1 == succeeds(Finished::Allocated(n)),
    ensures
        s.step(reply).0.len() == n,
        n > 0,
{
}

/// A successful release leaves no buffer; releasing an arena without
/// buffers succeeds at once, changes nothing and issues no command.
pub proof fn lemma_release_empties(a: ArenaModel, reply: Reply)
    requires
        a.wf(),
    ensures
        a.step(reply).1 == succeeds(Finished::Released) ==> a.step(reply).0.len() == 0,
        a.op == ArenaOp::Idle && a.len() == 0 ==> a.release(false) == (a, succeeds(Finished::Released)),
{
}

/// `c` stands at position `k` of `log`.
pub open spec fn issued_at(log: Seq<Command>, c: Command, k: int) -> bool {
    0 <= k < log.len() && log[k] == c
}

/// `c` stands in `log` exactly once.
pub open spec fn issued_once(log: Seq<Command>, c: Command) -> bool {
    exists|k: int| #[trigger] issued_at(log, c, k) && forall|j: int| #[trigger] issued_at(log, c, j) ==> j == k
}

/// When starting succeeds, the operation issued stream-on and then every
/// buffer index exactly once, and no dequeue.
pub proof fn lemma_start_submits_each_once(s: StreamModel, reply: Reply)
    requires
        s.wf(),
        s.step(reply).1 == succeeds(Finished::Started),
    ensures
        s.step(reply).0.issued == start_script(s.buf_type(), s.len()),
        forall|i: int|
            0 <= i < s.len() ==> #[trigger] issued_once(s.step(reply).0.issued, queue_command(s.buf_type(), i as u32)),
        forall|k: int|
            0 <= k < s.step(reply).0.issued.len() ==> !(#[trigger] s.step(reply).0.issued[k] is DequeueBuffer),
{
    let t = s.buf_type();
    let n = s.len();
    if s.op == StreamOp::StreamingOn {
        lemma_start_script_grows(t, 0);
    }
    assert(s.step(reply).0.issued == start_script(t, n));
    lemma_start_script_each_once(t, n);
}

/// Every index a completed dequeue reports is one of the stream's buffers.
pub proof fn lemma_frames_in_range(s: StreamModel, reply: Reply, index: usize, meta: Metadata)
    requires
        s.wf(),
        s.step(reply).1 == succeeds((Finished::Frame { index, meta })),
    ensures
        index < s.step(reply).0.len(),
{
}

/// A buffer taken from the driver and queued again can be taken again: the
/// queue/dequeue cycle never loses a buffer.
pub proof fn lemma_requeue_round_trip(s: StreamModel, i: u32, first: Metadata, second: Metadata)
    requires
        s.wf(),
        s.op == StreamOp::Idle,
        s.active,
        i < s.len(),
        s.queued[i as int],
    ensures
        ({
            let (waiting, _) = s.dequeue();
            let (taken, took) = waiting.step(Reply::Dequeued { index: i, meta: first });
            let (giving, give) = taken.queue(i as usize);
            let (given, gave) = giving.step(Reply::Done);
            let (waiting_again, _) = given.dequeue();
            let (_, retook) = waiting_again.step(Reply::Dequeued { index: i, meta: second });
            &&& took == succeeds(Finished::Frame { index: i as usize, meta: first })
            &&& give == Progress::Issue(queue_command(s.buf_type(), i))
            &&& gave == succeeds(Finished::Queued)
            &&& retook == succeeds(Finished::Frame { index: i as usize, meta: second })
        }),
{
}

/// Teardown turns streaming off before anything else, so no buffer is
/// unmapped while the driver may still write into it.
pub proof fn lemma_teardown_stops_first(s: StreamModel, reply: Reply)
    requires
        s.wf(),
        s.op == (StreamOp::StreamingOff { teardown: true }) || s.op == StreamOp::Releasing,
    ensures
        s.teardown().1 == Progress::Issue(stream_off(s.buf_type())),
        s.teardown().0.issued == seq![stream_off(s.buf_type())],
        forall|k: int|
            0 <= k < s.step(reply).0.issued.len() && (#[trigger] s.step(reply).0.issued[k] is UnmapBuffer) ==> (0 < k
                && s.step(reply).0.issued[0] == stream_off(s.buf_type())),
{
    assert(s.teardown().0.issued =~= seq![Command::StreamOff { buf_type: s.buf_type() }]);
    lemma_step_wf(s, reply);
    let n = s.step(reply).0;
    if s.op == StreamOp::Releasing {
        lemma_arena_step_wf(s.arena, reply);
        if s.arena.step(reply).1 is Issue {
            assert(n.issued[0] == s.issued[0]);
        }
    } else {
        lemma_arena_release_wf(s.halted().arena);
        if s.halted().arena.release(true).1 is Issue {
            assert(n.issued[0] == s.issued[0]);
        }
    }
}


impl StreamModel {
    /// Feeds `replies` one by one to the operation that last returned `p`,
    /// up to the end of that operation.
    pub open spec fn feed(self, p: Progress, replies: Seq<Reply>) -> (StreamModel, Progress)
        decreases replies.len(),
    {
        if replies.len() == 0 || !(p is Issue) {
            (self, p)
        } else {
            let (next, q) = self.step(replies[0]);
            next.feed(q, replies.drop_first())
        }
    }
}

proof fn lemma_queueing_run(x: StreamModel, p: Progress)
    requires
        x.wf(),
        x.op is Queueing,
        x.op->purpose == QueueFor::Start,
        p is Issue,
    ensures
        ({
            let (done, q) = x.feed(p, all_done((x.len() - x.op->index) as nat));
            &&& q == succeeds(Finished::Started)
            &&& done.issued == start_script(x.buf_type(), x.len())
            &&& done.active
        }),
    decreases x.len() - x.op->index,
{
    let m = (x.len() - x.op->index) as nat;
    lemma_step_wf(x, Reply::Done);
    assert(all_done(m).drop_first() =~= all_done((m - 1) as nat));
    let (y, r) = x.step(Reply::Done);
    assert(x.feed(p, all_done(m)) == y.feed(r, all_done((m - 1) as nat)));
    if y.op is Queueing {
        lemma_queueing_run(y, r);
    }
}

/// Starting a stream whose driver accepts every command succeeds, having
/// issued stream-on and then every buffer index exactly once, in ascending
/// order, and no dequeue.
pub proof fn lemma_start_run(s: StreamModel)
    requires
        s.wf(),
        s.op == StreamOp::Idle,
        !s.active,
    ensures
        ({
            let (s0, p0) = s.start();
            let (done, p) = s0.feed(p0, all_done(s.len() + 1));
            &&& p == succeeds(Finished::Started)
            &&& done.issued == start_script(s.buf_type(), s.len())
            &&& forall|i: int|
                0 <= i < s.len() ==> #[trigger] issued_once(
                    done.issued,
                    queue_command(s.buf_type(), i as u32),
                )
            &&& forall|k: int| 0 <= k < done.issued.len() ==> !(#[trigger] done.issued[k] is DequeueBuffer)
        }),
{
    let t = s.buf_type();
    let n = s.len();
    let (s0, p0) = s.start();
    lemma_start_script_grows(t, 0);
    assert(s0.issued =~= seq![Command::StreamOn { buf_type: t }]);
    lemma_step_wf(s0, Reply::Done);
    assert(all_done(n + 1).drop_first() =~= all_done(n));
    let (s1, p1) = s0.step(Reply::Done);
    assert(s0.feed(p0, all_done(n + 1)) == s1.feed(p1, all_done(n)));
    if n > 0 {
        lemma_queueing_run(s1, p1);
    } else {
        assert(all_done(0) =~= Seq::<Reply>::empty());
    }
    lemma_start_script_each_once(t, n);
}

proof fn lemma_start_script_each_once(t: Type, n: nat)
    requires
        n <= u32::MAX,
    ensures
        forall|i: int| 0 <= i < n ==> #[trigger] issued_once(start_script(t, n), queue_command(t, i as u32)),
        forall|k: int|
            0 <= k < start_script(t, n).len() ==> !(#[trigger] start_script(t, n)[k] is DequeueBuffer),
{
    let log = start_script(t, n);
    assert forall|i: int| 0 <= i < n implies #[trigger] issued_once(log, queue_command(t, i as u32)) by {
        let c = queue_command(t, i as u32);
        assert(issued_at(log, c, i + 1));
        assert forall|j: int| #[trigger] issued_at(log, c, j) implies j == i + 1 by {
            assert(j != 0);
            assert(log[j] == queue_command(t, (j - 1) as u32));
        }
    }
    assert forall|k: int| 0 <= k < log.len() implies !(#[trigger] log[k] is DequeueBuffer) by {
        if k > 0 {
            assert(log[k] == queue_command(t, (k - 1) as u32));
        }
    }
}

/// The commands that tearing down a stream of `n` mapped buffers issues:
/// stream-off, every unmap in ascending order, then the free.
pub open spec fn teardown_script(t: Type, n: nat) -> Seq<Command> {
    seq![stream_off(t)] + unmap_commands(n) + seq![
        Command::RequestBuffers { buf_type: t, memory: Memory::Mmap, count: 0 },
    ]
}

pub open spec fn unmap_commands(n: nat) -> Seq<Command> {
    Seq::new(n, |i: int| Command::UnmapBuffer { index: i as u32 })
}

proof fn lemma_releasing_run(x: StreamModel, p: Progress)
    requires
        x.wf(),
        x.op == StreamOp::Releasing,
        x.arena.op == (ArenaOp::Unmapping { teardown: true }),
        x.issued == seq![stream_off(x.buf_type())] + unmap_commands(x.arena.unmapped + 1),
        p is Issue,
    ensures
        ({
            let (done, q) = x.feed(p, all_done((x.len() - x.arena.unmapped + 1) as nat));
            &&& q == succeeds(Finished::TornDown)
            &&& done.issued == teardown_script(x.buf_type(), x.len())
            &&& done.len() == 0
        }),
    decreases x.len() - x.arena.unmapped,
{
    let t = x.buf_type();
    let u = x.arena.unmapped;
    let m = (x.len() - u + 1) as nat;
    lemma_step_wf(x, Reply::Done);
    assert(all_done(m).drop_first() =~= all_done((m - 1) as nat));
    let (y, r) = x.step(Reply::Done);
    assert(x.feed(p, all_done(m)) == y.feed(r, all_done((m - 1) as nat)));
    if y.arena.op is Unmapping {
        assert(y.issued =~= seq![stream_off(t)] + unmap_commands(u + 2));
        lemma_releasing_run(y, r);
    } else {
        assert(y.issued =~= teardown_script(t, x.len()));
        assert(all_done(1).drop_first() =~= all_done(0));
        let (z, w) = y.step(Reply::Done);
        assert(y.feed(r, all_done(1)) == z.feed(w, all_done(0)));
    }
}

/// Tearing down a stream whose buffers are all mapped, with every command
/// succeeding, turns streaming off, then unmaps each buffer in ascending
/// order, then frees them: stream-off comes before any unmap.
pub proof fn lemma_teardown_run(s: StreamModel)
    requires
        s.wf(),
        s.len() > 0,
        s.arena.unmapped == 0,
    ensures
        ({
            let (s0, p0) = s.teardown();
            let (done, p) = s0.feed(p0, all_done(s.len() + 2));
            &&& p == succeeds(Finished::TornDown)
            &&& done.issued == teardown_script(s.buf_type(), s.len())
            &&& done.len() == 0
        }),
{
    let t = s.buf_type();
    let n = s.len();
    let (s0, p0) = s.teardown();
    assert(s0.issued =~= seq![stream_off(t)]);
    assert(all_done(n + 2).drop_first() =~= all_done(n + 1));
    let (s1, p1) = s0.step(Reply::Done);
    assert(s0.feed(p0, all_done(n + 2)) == s1.feed(p1, all_done(n + 1)));
    assert(s1.issued =~= seq![stream_off(t)] + unmap_commands(1));
    lemma_releasing_run(s1, p1);
}

} // verus!
