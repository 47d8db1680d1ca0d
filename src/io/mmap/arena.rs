//! The buffer arena: negotiates buffers with the driver, tracks the mapped
//! region of each, and owns their unmap/free lifecycle.
use vstd::prelude::*;
use crate::buffer::{Memory, Type};
use crate::io::arena::Arena as BufferArena;
use crate::protocol::{error_of_code, Command, Finished, Progress, Reply, StreamError, ENODEV, ENOMEM};

verus! {

/// The operation an arena is in the middle of, and what it waits for.
#[derive(Clone, Copy, Debug, PartialEq, Eq, Structural)]
pub enum ArenaOp {
    Idle,
    /// Waits for the grant of a non-zero request.
    Requesting,
    /// Waits for the length and offset of the next buffer to map.
    Querying { granted: u32 },
    /// Waits for the mapping of the next buffer, of this length.
    Mapping { granted: u32, length: u32 },
    /// Waits for the unmapping of the first buffer still mapped.
    Unmapping { teardown: bool },
    /// Waits for the driver to free all buffers.
    Freeing { teardown: bool },
}

/// What an arena is, mathematically.
pub struct ArenaModel {
    pub buf_type: Type,
    /// Length of each mapped region, by arena index.
    pub lengths: Seq<u32>,
    /// Buffers below this index were already unmapped by an unfinished release.
    pub unmapped: nat,
    pub op: ArenaOp,
}

pub open spec fn idle_arena(buf_type: Type) -> ArenaModel {
    ArenaModel { buf_type, lengths: Seq::empty(), unmapped: 0, op: ArenaOp::Idle }
}

pub open spec fn fails(e: StreamError) -> Progress {
    Progress::Failed(e)
}

pub open spec fn succeeds(f: Finished) -> Progress {
    Progress::Succeeded(f)
}

impl ArenaModel {
    pub open spec fn wf(self) -> bool {
        &&& self.unmapped <= self.lengths.len()
        &&& self.lengths.len() <= u32::MAX
        &&& match self.op {
            ArenaOp::Idle => true,
            ArenaOp::Requesting => self.lengths.len() == 0,
            ArenaOp::Querying { granted } => self.unmapped == 0 && self.lengths.len() < granted,
            ArenaOp::Mapping { granted, .. } => self.unmapped == 0 && self.lengths.len() < granted,
            ArenaOp::Unmapping { .. } => self.unmapped < self.lengths.len(),
            ArenaOp::Freeing { .. } => self.unmapped == self.lengths.len(),
        }
    }

    pub open spec fn len(self) -> nat {
        self.lengths.len()
    }

    /// The region at `index`, while it is mapped.
    pub open spec fn region(self, index: int) -> Option<u32> {
        if self.unmapped <= index < self.lengths.len() {
            Some(self.lengths[index])
        } else {
            None
        }
    }

    pub open spec fn with_op(self, op: ArenaOp) -> ArenaModel {
        ArenaModel { op, ..self }
    }

    pub open spec fn cleared(self) -> ArenaModel {
        idle_arena(self.buf_type)
    }

    pub open spec fn allocate(self, count: u32) -> (ArenaModel, Progress) {
        if self.op != ArenaOp::Idle || self.lengths.len() > 0 {
            (self, fails(StreamError::InvalidState))
        } else {
            (
                self.with_op(ArenaOp::Requesting),
                Progress::Issue(
                    Command::RequestBuffers { buf_type: self.buf_type, memory: Memory::Mmap, count },
                ),
            )
        }
    }

    /// Unmaps the next mapped buffer, or frees them all once none is left.
    pub open spec fn unmap_next(self, teardown: bool) -> (ArenaModel, Progress) {
        if self.unmapped < self.lengths.len() {
            (
                self.with_op(ArenaOp::Unmapping { teardown }),
                Progress::Issue(Command::UnmapBuffer { index: self.unmapped as u32 }),
            )
        } else {
            (
                self.with_op(ArenaOp::Freeing { teardown }),
                Progress::Issue(
                    Command::RequestBuffers { buf_type: self.buf_type, memory: Memory::Mmap, count: 0 },
                ),
            )
        }
    }

    pub open spec fn release(self, teardown: bool) -> (ArenaModel, Progress) {
        if self.op != ArenaOp::Idle {
            (self, fails(StreamError::InvalidState))
        } else if self.lengths.len() == 0 {
            (self, succeeds(Finished::Released))
        } else {
            self.unmap_next(teardown)
        }
    }

    /// A failed step of a release. During teardown a vanished device counts
    /// as done; any other failure ends the release where it stands.
    pub open spec fn release_failed(self, teardown: bool, e: StreamError) -> (ArenaModel, Progress) {
        if teardown && e == StreamError::DeviceGone {
            (self.cleared(), succeeds(Finished::Released))
        } else {
            (self.with_op(ArenaOp::Idle), fails(e))
        }
    }

    pub open spec fn step(self, reply: Reply) -> (ArenaModel, Progress) {
        let idle = self.with_op(ArenaOp::Idle);
        match self.op {
            ArenaOp::Idle => (self, fails(StreamError::InvalidState)),
            ArenaOp::Requesting => match reply {
                // A grant of no buffer leaves nothing to stream with.
                Reply::Granted(n) => if n == 0 {
                    (idle, fails(StreamError::DriverRejected(ENOMEM)))
                } else {
                    (
                        self.with_op(ArenaOp::Querying { granted: n }),
                        Progress::Issue(
                            Command::QueryBuffer { buf_type: self.buf_type, memory: Memory::Mmap, index: 0 },
                        ),
                    )
                },
                Reply::Failed(c) => (idle, fails(error_of_code(c))),
                _ => (idle, fails(StreamError::InvalidState)),
            },
            ArenaOp::Querying { granted } => match reply {
                Reply::Queried { length, offset } => (
                    self.with_op(ArenaOp::Mapping { granted, length }),
                    Progress::Issue(
                        Command::MapBuffer { index: self.lengths.len() as u32, offset, length },
                    ),
                ),
                Reply::Failed(c) => (idle, fails(error_of_code(c))),
                _ => (idle, fails(StreamError::InvalidState)),
            },
            ArenaOp::Mapping { granted, length } => match reply {
                Reply::Done => {
                    let grown = ArenaModel { lengths: self.lengths.push(length), ..self };
                    if grown.lengths.len() < granted {
                        (
                            grown.with_op(ArenaOp::Querying { granted }),
                            Progress::Issue(
                                Command::QueryBuffer {
                                    buf_type: self.buf_type,
                                    memory: Memory::Mmap,
                                    index: grown.lengths.len() as u32,
                                },
                            ),
                        )
                    } else {
                        (grown.with_op(ArenaOp::Idle), succeeds(Finished::Allocated(granted)))
                    }
                },
                Reply::Failed(c) => (idle, fails(error_of_code(c))),
                _ => (idle, fails(StreamError::InvalidState)),
            },
            ArenaOp::Unmapping { teardown } => match reply {
                Reply::Done => ArenaModel { unmapped: self.unmapped + 1, ..self }.unmap_next(teardown),
                Reply::Failed(c) => self.release_failed(teardown, error_of_code(c)),
                _ => self.release_failed(teardown, StreamError::InvalidState),
            },
            ArenaOp::Freeing { teardown } => match reply {
                Reply::Done => (self.cleared(), succeeds(Finished::Released)),
                Reply::Granted(_) => (self.cleared(), succeeds(Finished::Released)),
                Reply::Failed(c) => self.release_failed(teardown, error_of_code(c)),
                _ => self.release_failed(teardown, StreamError::InvalidState),
            },
        }
    }
}

/// A reply of plain success to each of `n` commands.
pub open spec fn all_done(n: nat) -> Seq<Reply> {
    Seq::new(n, |i: int| Reply::Done)
}

/// The replies of a driver that reports, buffer after buffer, each length
/// and offset and then maps it.
pub open spec fn mapping_replies(lengths: Seq<u32>, offsets: Seq<u32>) -> Seq<Reply>
    decreases lengths.len(),
{
    if lengths.len() == 0 {
        Seq::empty()
    } else {
        seq![Reply::Queried { length: lengths[0], offset: offsets[0] }, Reply::Done] + mapping_replies(
            lengths.drop_first(),
            offsets.drop_first(),
        )
    }
}

impl ArenaModel {
    /// Feeds `replies` one by one to the operation that last returned `p`,
    /// up to the end of that operation.
    pub open spec fn feed(self, p: Progress, replies: Seq<Reply>) -> (ArenaModel, Progress)
        decreases replies.len(),
    {
        if replies.len() == 0 || !(p is Issue) {
            (self, p)
        } else {
            let (next, q) = self.step(replies[0]);
            next.feed(q, replies.drop_first())
        }
    }
}

proof fn lemma_mapping_run(x: ArenaModel, p: Progress, rest: Seq<u32>, offsets: Seq<u32>, granted: u32)
    requires
        x.wf(),
        x.op == (ArenaOp::Querying { granted }),
        p is Issue,
        rest.len() > 0,
        x.lengths.len() + rest.len() == granted,
        offsets.len() >= rest.len(),
    ensures
        x.feed(p, mapping_replies(rest, offsets)) == (
        ArenaModel { lengths: x.lengths + rest, op: ArenaOp::Idle, ..x },
        succeeds(Finished::Allocated(granted)),
        ),
    decreases rest.len(),
{
    let replies = mapping_replies(rest, offsets);
    let tail = mapping_replies(rest.drop_first(), offsets.drop_first());
    assert(replies.drop_first() =~= seq![Reply::Done] + tail);
    assert((seq![Reply::Done] + tail).drop_first() =~= tail);
    assert(replies[0] == Reply::Queried { length: rest[0], offset: offsets[0] });
    let (y, q) = x.step(replies[0]);
    let (z, r) = y.step(Reply::Done);
    assert(x.feed(p, replies) == y.feed(q, seq![Reply::Done] + tail));
    assert(y.feed(q, seq![Reply::Done] + tail) == z.feed(r, tail));
    if rest.len() == 1 {
        assert(x.lengths + rest =~= x.lengths.push(rest[0]));
    } else {
        assert(x.lengths + rest =~= z.lengths + rest.drop_first());
        lemma_mapping_run(z, r, rest.drop_first(), offsets.drop_first(), granted);
    }
}

/// An allocation that the driver grants in full, and whose buffers it all
/// describes and maps, succeeds with the count granted, and the arena then
/// holds exactly one region of each reported length.
pub proof fn lemma_allocation_run(
    a: ArenaModel,
    count: u32,
    granted: u32,
    lengths: Seq<u32>,
    offsets: Seq<u32>,
)
    requires
        a.wf(),
        a.op == ArenaOp::Idle,
        a.len() == 0,
        count > 0,
        granted > 0,
        lengths.len() == granted,
        offsets.len() == granted,
    ensures
        ({
            let (a0, p0) = a.allocate(count);
            let (done, p) = a0.feed(p0, seq![Reply::Granted(granted)] + mapping_replies(lengths, offsets));
            &&& p == succeeds(Finished::Allocated(granted))
            &&& done.len() == granted
            &&& done.lengths == lengths
        }),
{
    let (a0, p0) = a.allocate(count);
    let replies = seq![Reply::Granted(granted)] + mapping_replies(lengths, offsets);
    assert(replies.drop_first() =~= mapping_replies(lengths, offsets));
    let (a1, p1) = a0.step(Reply::Granted(granted));
    lemma_mapping_run(a1, p1, lengths, offsets, granted);
    assert(a1.lengths + lengths =~= lengths);
}

proof fn lemma_unmapping_run(x: ArenaModel, p: Progress, teardown: bool)
    requires
        x.wf(),
        x.op == (ArenaOp::Unmapping { teardown }),
        p is Issue,
    ensures
        x.feed(p, all_done((x.len() - x.unmapped + 1) as nat)) == (x.cleared(), succeeds(Finished::Released)),
    decreases x.len() - x.unmapped,
{
    let m = (x.len() - x.unmapped + 1) as nat;
    assert(all_done(m).drop_first() =~= all_done((m - 1) as nat));
    let (y, q) = x.step(Reply::Done);
    assert(x.feed(p, all_done(m)) == y.feed(q, all_done((m - 1) as nat)));
    if y.op is Unmapping {
        lemma_unmapping_run(y, q, teardown);
    } else {
        assert(all_done(1).drop_first() =~= all_done(0));
        let (z, r) = y.step(Reply::Done);
        assert(y.feed(q, all_done(1)) == z.feed(r, all_done(0)));
    }
}

/// Releasing an arena whose buffers are all mapped, with every unmap and the
/// final free succeeding, ends in success and leaves no buffer.
pub proof fn lemma_release_run(a: ArenaModel)
    requires
        a.wf(),
        a.op == ArenaOp::Idle,
        a.len() > 0,
        a.unmapped == 0,
    ensures
        ({
            let (a0, p0) = a.release(false);
            let (done, p) = a0.feed(p0, all_done(a.len() + 1));
            &&& p == succeeds(Finished::Released)
            &&& done.len() == 0
        }),
{
    let (a0, p0) = a.release(false);
    lemma_unmapping_run(a0, p0, false);
}

/// The device vanishing under a release is an error when the release was
/// asked for, and a finished release when it ends the arena's life.
pub proof fn lemma_device_gone_during_release(a: ArenaModel)
    requires
        a.wf(),
    ensures
        a.op is Unmapping || a.op is Freeing ==> ({
            let (b, p) = a.step(Reply::Failed(ENODEV));
            &&& releasing_on_teardown(a.op) ==> p == succeeds(Finished::Released) && b.len() == 0
            &&& !releasing_on_teardown(a.op) ==> p == fails(StreamError::DeviceGone)
        }),
{
}

/// The arena is in the middle of the release that ends its life.
pub open spec fn releasing_on_teardown(op: ArenaOp) -> bool {
    op == (ArenaOp::Unmapping { teardown: true }) || op == (ArenaOp::Freeing { teardown: true })
}

/// A step keeps an arena consistent; an operation that goes on stays in
/// its kind, and one that ends leaves the arena idle.
pub(crate) proof fn lemma_arena_step_wf(a: ArenaModel, reply: Reply)
    requires
        a.wf(),
    ensures
        a.step(reply).0.wf(),
        a.step(reply).1 is Issue && releasing_on_teardown(a.op) ==> releasing_on_teardown(
            a.step(reply).0.op,
        ),
        a.step(reply).1 is Issue && (a.op is Requesting || a.op is Querying || a.op is Mapping) ==> (
        a.step(reply).0.op is Querying || a.step(reply).0.op is Mapping),
        !(a.step(reply).1 is Issue) ==> a.step(reply).0.op == ArenaOp::Idle,
{
}

/// Beginning a release keeps an idle arena consistent.
pub(crate) proof fn lemma_arena_release_wf(a: ArenaModel)
    requires
        a.wf(),
        a.op == ArenaOp::Idle,
    ensures
        a.release(true).0.wf(),
        a.release(true).1 is Issue ==> releasing_on_teardown(a.release(true).0.op),
{
}

/// Manages the mapped buffers of one device and buffer type.
pub struct Arena {
    buf_type: Type,
    lengths: Vec<u32>,
    unmapped: usize,
    op: ArenaOp,
}

impl View for Arena {
    type V = ArenaModel;

    closed spec fn view(&self) -> ArenaModel {
        ArenaModel {
            buf_type: self.buf_type,
            lengths: self.lengths@,
            unmapped: self.unmapped as nat,
            op: self.op,
        }
    }
}

impl Arena {
    pub open spec fn wf(&self) -> bool {
        self@.wf()
    }

    /// A new arena with no buffers, for buffers of `buf_type`.
    pub fn new(buf_type: Type) -> (r: Arena)
        ensures
            r.wf(),
            r@ == idle_arena(buf_type),
    {
        let r = Arena { buf_type, lengths: Vec::new(), unmapped: 0, op: ArenaOp::Idle };
        proof {
            assert(r@.lengths =~= Seq::<u32>::empty());
        }
        r
    }

    pub fn buf_type(&self) -> (r: Type)
        ensures
            r == self@.buf_type,
    {
        self.buf_type
    }

    pub fn op(&self) -> (r: ArenaOp)
        ensures
            r == self@.op,
    {
        self.op
    }

    /// Number of allocated buffers.
    pub fn len(&self) -> (r: usize)
        ensures
            r == self@.len(),
    {
        self.lengths.len()
    }

    /// Length of the mapped region of buffer `index`; none when `index` is
    /// out of range or its region was already unmapped.
    pub fn get(&self, index: usize) -> (r: Option<u32>)
        requires
            self.wf(),
        ensures
            r == self@.region(index as int),
    {
        if self.unmapped <= index && index < self.lengths.len() {
            Some(self.lengths[index])
        } else {
            None
        }
    }

    /// Starts allocating `count` buffers. An arena that still holds buffers,
    /// or is busy, refuses.
    pub fn allocate(&mut self, count: u32) -> (r: Progress)
        requires
            old(self).wf(),
            count > 0,
        ensures
            final(self).wf(),
            (final(self)@, r) == old(self)@.allocate(count),
    {
        if self.op != ArenaOp::Idle || self.lengths.len() > 0 {
            return Progress::Failed(StreamError::InvalidState);
        }
        self.op = ArenaOp::Requesting;
        Progress::Issue(Command::RequestBuffers { buf_type: self.buf_type, memory: Memory::Mmap, count })
    }

    /// Forgets the operation in progress, keeping the buffers as they are.
    pub fn abandon(&mut self)
        requires
            old(self).wf(),
        ensures
            final(self).wf(),
            final(self)@ == old(self)@.with_op(ArenaOp::Idle),
    {
        self.op = ArenaOp::Idle;
    }

    fn unmap_next(&mut self, teardown: bool) -> (r: Progress)
        requires
            old(self)@.unmapped <= old(self)@.lengths.len() <= u32::MAX,
        ensures
            final(self).wf(),
            (final(self)@, r) == old(self)@.unmap_next(teardown),
    {
        if self.unmapped < self.lengths.len() {
            self.op = ArenaOp::Unmapping { teardown };
            Progress::Issue(Command::UnmapBuffer { index: self.unmapped as u32 })
        } else {
            self.op = ArenaOp::Freeing { teardown };
            Progress::Issue(Command::RequestBuffers { buf_type: self.buf_type, memory: Memory::Mmap, count: 0 })
        }
    }

    fn release_with(&mut self, teardown: bool) -> (r: Progress)
        requires
            old(self).wf(),
        ensures
            final(self).wf(),
            (final(self)@, r) == old(self)@.release(teardown),
    {
        if self.op != ArenaOp::Idle {
            Progress::Failed(StreamError::InvalidState)
        } else if self.lengths.len() == 0 {
            Progress::Succeeded(Finished::Released)
        } else {
            self.unmap_next(teardown)
        }
    }

    /// Starts releasing: unmaps every buffer still mapped, from index 0
    /// upward, then asks the driver to free them all. With no buffers it
    /// succeeds at once, without any command.
    pub fn release(&mut self) -> (r: Progress)
        requires
            old(self).wf(),
        ensures
            final(self).wf(),
            (final(self)@, r) == old(self)@.release(false),
    {
        self.release_with(false)
    }

    /// Starts the release that ends the arena's life, from whatever the
    /// arena was doing: as `release`, but a device that is gone counts as
    /// released.
    pub fn teardown(&mut self) -> (r: Progress)
        requires
            old(self).wf(),
        ensures
            final(self).wf(),
            (final(self)@, r) == old(self)@.with_op(ArenaOp::Idle).release(true),
    {
        self.op = ArenaOp::Idle;
        self.release_with(true)
    }

    fn clear(&mut self)
        requires
            old(self).wf(),
        ensures
            final(self).wf(),
            final(self)@ == old(self)@.cleared(),
    {
        self.lengths.clear();
        self.unmapped = 0;
        self.op = ArenaOp::Idle;
        proof {
            assert(self@.lengths =~= Seq::<u32>::empty());
        }
    }

    fn release_failed(&mut self, teardown: bool, e: StreamError) -> (r: Progress)
        requires
            old(self).wf(),
        ensures
            final(self).wf(),
            (final(self)@, r) == old(self)@.release_failed(teardown, e),
    {
        if teardown && e == StreamError::DeviceGone {
            self.clear();
            Progress::Succeeded(Finished::Released)
        } else {
            self.op = ArenaOp::Idle;
            Progress::Failed(e)
        }
    }

    /// Hands the driver's reply to the last command to the operation in
    /// progress, and returns what that operation needs next.
    pub fn resume(&mut self, reply: Reply) -> (r: Progress)
        requires
            old(self).wf(),
        ensures
            final(self).wf(),
            (final(self)@, r) == old(self)@.step(reply),
    {
        match self.op {
            ArenaOp::Idle => Progress::Failed(StreamError::InvalidState),
            ArenaOp::Requesting => {
                self.op = ArenaOp::Idle;
                match reply {
                    Reply::Granted(n) => if n == 0 {
                        Progress::Failed(StreamError::DriverRejected(ENOMEM))
                    } else {
                        self.op = ArenaOp::Querying { granted: n };
                        Progress::Issue(
                            Command::QueryBuffer { buf_type: self.buf_type, memory: Memory::Mmap, index: 0 },
                        )
                    },
                    Reply::Failed(c) => Progress::Failed(StreamError::from_code(c)),
                    _ => Progress::Failed(StreamError::InvalidState),
                }
            },
            ArenaOp::Querying { granted } => {
                self.op = ArenaOp::Idle;
                match reply {
                    Reply::Queried { length, offset } => {
                        self.op = ArenaOp::Mapping { granted, length };
                        Progress::Issue(
                            Command::MapBuffer { index: self.lengths.len() as u32, offset, length },
                        )
                    },
                    Reply::Failed(c) => Progress::Failed(StreamError::from_code(c)),
                    _ => Progress::Failed(StreamError::InvalidState),
                }
            },
            ArenaOp::Mapping { granted, length } => {
                self.op = ArenaOp::Idle;
                match reply {
                    Reply::Done => {
                        self.lengths.push(length);
                        if self.lengths.len() < granted as usize {
                            self.op = ArenaOp::Querying { granted };
                            Progress::Issue(
                                Command::QueryBuffer {
                                    buf_type: self.buf_type,
                                    memory: Memory::Mmap,
                                    index: self.lengths.len() as u32,
                                },
                            )
                        } else {
                            Progress::Succeeded(Finished::Allocated(granted))
                        }
                    },
                    Reply::Failed(c) => Progress::Failed(StreamError::from_code(c)),
                    _ => Progress::Failed(StreamError::InvalidState),
                }
            },
            ArenaOp::Unmapping { teardown } => match reply {
                Reply::Done => {
                    self.unmapped = self.unmapped + 1;
                    self.unmap_next(teardown)
                },
                Reply::Failed(c) => self.release_failed(teardown, StreamError::from_code(c)),
                _ => self.release_failed(teardown, StreamError::InvalidState),
            },
            ArenaOp::Freeing { teardown } => match reply {
                Reply::Done => {
                    self.clear();
                    Progress::Succeeded(Finished::Released)
                },
                Reply::Granted(_) => {
                    self.clear();
                    Progress::Succeeded(Finished::Released)
                },
                Reply::Failed(c) => self.release_failed(teardown, StreamError::from_code(c)),
                _ => self.release_failed(teardown, StreamError::InvalidState),
            },
        }
    }
}

impl BufferArena for Arena {
    open spec fn valid(&self) -> bool {
        self.wf()
    }

    open spec fn count(&self) -> nat {
        self@.len()
    }

    open spec fn idle(&self) -> bool {
        self@.op == ArenaOp::Idle
    }

    open spec fn kind(&self) -> Type {
        self@.buf_type
    }

    open spec fn first_mapped(&self) -> nat {
        self@.unmapped
    }

    open spec fn region(&self, index: int) -> Option<u32> {
        self@.region(index)
    }

    fn allocate(&mut self, count: u32) -> (r: Progress) {
        Arena::allocate(self, count)
    }

    fn release(&mut self) -> (r: Progress) {
        Arena::release(self)
    }

    fn resume(&mut self, reply: Reply) -> (r: Progress) {
        Arena::resume(self, reply)
    }

    fn get(&self, index: usize) -> (r: Option<u32>) {
        Arena::get(self, index)
    }

    fn len(&self) -> (r: usize) {
        Arena::len(self)
    }
}

} // verus!
