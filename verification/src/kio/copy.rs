//! Copying between two streams in both directions at once.

use vstd::prelude::*;
use vstd::slice::slice_subrange;

verus! {

/// The size of the buffer of each direction.
pub const BIDI_BUF_SIZE: usize = 65536;

/// What is under way between two streams, A and B: for each direction a buffer
/// with the bytes that were read and not written yet, the bytes written so far,
/// and whether the source has ended.
pub struct BidiState {
    buf_a: Vec<u8>,
    buf_b: Vec<u8>,
    pending_ab: usize,
    n_a: usize,
    pending_ba: usize,
    n_b: usize,
    total_a_to_b: u64,
    total_b_to_a: u64,
    a_eof: bool,
    b_eof: bool,
    read_a: Ghost<Seq<u8>>,
    read_b: Ghost<Seq<u8>>,
    written_b: Ghost<Seq<u8>>,
    written_a: Ghost<Seq<u8>>,
}

/// One direction of a copy.
pub struct Direction {
    /// All bytes that were read from the source.
    pub read: Seq<u8>,
    /// All bytes that were written to the other side.
    pub written: Seq<u8>,
    /// The bytes that were read and not written.
    pub pending: Seq<u8>,
    /// The source has ended.
    pub eof: bool,
}

impl Direction {
    /// What was written and what is still to be written is what was read.
    pub open spec fn wf(self) -> bool {
        self.written + self.pending == self.read
    }
}

impl BidiState {
    /// The direction from A to B.
    pub closed spec fn ab(&self) -> Direction {
        Direction {
            read: self.read_a@,
            written: self.written_b@,
            pending: self.buf_a@.subrange(self.pending_ab as int, self.n_a as int),
            eof: self.a_eof,
        }
    }

    /// The direction from B to A.
    pub closed spec fn ba(&self) -> Direction {
        Direction {
            read: self.read_b@,
            written: self.written_a@,
            pending: self.buf_b@.subrange(self.pending_ba as int, self.n_b as int),
            eof: self.b_eof,
        }
    }

    /// Where the bytes that wait to be written to B begin and end in the buffer
    /// of A.
    pub closed spec fn ab_span(&self) -> (usize, usize) {
        (self.pending_ab, self.n_a)
    }

    /// Where the bytes that wait to be written to A begin and end in the buffer
    /// of B.
    pub closed spec fn ba_span(&self) -> (usize, usize) {
        (self.pending_ba, self.n_b)
    }

    /// What the buffer for reading from A holds.
    pub closed spec fn a_buf(&self) -> Seq<u8> {
        self.buf_a@
    }

    /// What the buffer for reading from B holds.
    pub closed spec fn b_buf(&self) -> Seq<u8> {
        self.buf_b@
    }

    /// The copy is in order: in both directions nothing was lost, changed or
    /// added, and what was written is counted.
    pub closed spec fn wf(&self) -> bool {
        &&& self.buf_a@.len() == BIDI_BUF_SIZE
        &&& self.buf_b@.len() == BIDI_BUF_SIZE
        &&& self.pending_ab <= self.n_a <= BIDI_BUF_SIZE
        &&& self.pending_ba <= self.n_b <= BIDI_BUF_SIZE
        &&& self.ab().wf()
        &&& self.ba().wf()
        &&& self.total_a_to_b == self.written_b@.len()
        &&& self.total_b_to_a == self.written_a@.len()
    }

    /// A copy that has not begun.
    pub fn new() -> (s: Self)
        ensures
            s.wf(),
            s.ab() == (Direction {
                read: Seq::empty(),
                written: Seq::empty(),
                pending: Seq::empty(),
                eof: false,
            }),
            s.ba() == s.ab(),
            s.a_buf() == crate::wire::zero_bytes(BIDI_BUF_SIZE as nat),
            s.b_buf() == crate::wire::zero_bytes(BIDI_BUF_SIZE as nat),
            s.ab_span() == (0usize, 0usize),
            s.ba_span() == (0usize, 0usize),
    {
        let mut buf_a: Vec<u8> = Vec::new();
        crate::wire::resize_bytes(&mut buf_a, BIDI_BUF_SIZE);
        let mut buf_b: Vec<u8> = Vec::new();
        crate::wire::resize_bytes(&mut buf_b, BIDI_BUF_SIZE);
        let s = BidiState {
            buf_a,
            buf_b,
            pending_ab: 0,
            n_a: 0,
            pending_ba: 0,
            n_b: 0,
            total_a_to_b: 0,
            total_b_to_a: 0,
            a_eof: false,
            b_eof: false,
            read_a: Ghost(Seq::empty()),
            read_b: Ghost(Seq::empty()),
            written_b: Ghost(Seq::empty()),
            written_a: Ghost(Seq::empty()),
        };
        assert(s.a_buf() =~= crate::wire::zero_bytes(BIDI_BUF_SIZE as nat));
        assert(s.b_buf() =~= crate::wire::zero_bytes(BIDI_BUF_SIZE as nat));
        assert(s.ab().pending =~= Seq::<u8>::empty());
        assert(s.ba().pending =~= Seq::<u8>::empty());
        assert(s.ab().written + s.ab().pending =~= s.ab().read);
        assert(s.ba().written + s.ba().pending =~= s.ba().read);
        s
    }

    /// Whether bytes wait to be written to B.
    pub fn has_pending_ab(&self) -> (b: bool)
        requires
            self.wf(),
        ensures
            b == (self.ab().pending.len() > 0),
    {
        self.pending_ab < self.n_a
    }

    /// Whether bytes wait to be written to A.
    pub fn has_pending_ba(&self) -> (b: bool)
        requires
            self.wf(),
        ensures
            b == (self.ba().pending.len() > 0),
    {
        self.pending_ba < self.n_b
    }

    /// How many bytes wait to be written to B.
    pub fn pending_ab_size(&self) -> (n: usize)
        requires
            self.wf(),
        ensures
            n == self.ab().pending.len(),
    {
        self.n_a - self.pending_ab
    }

    /// How many bytes wait to be written to A.
    pub fn pending_ba_size(&self) -> (n: usize)
        requires
            self.wf(),
        ensures
            n == self.ba().pending.len(),
    {
        self.n_b - self.pending_ba
    }

    /// The first `n` bytes that waited were written to B.
    pub fn advance_ab(&mut self, n: usize)
        requires
            old(self).wf(),
            n <= old(self).ab().pending.len(),
            old(self).ab().written.len() + n <= u64::MAX,
        ensures
            final(self).wf(),
            final(self).ab() == (Direction {
                written: old(self).ab().written + old(self).ab().pending.take(n as int),
                pending: old(self).ab().pending.skip(n as int),
                ..old(self).ab()
            }),
            final(self).ba() == old(self).ba(),
            final(self).a_buf() == old(self).a_buf(),
            final(self).b_buf() == old(self).b_buf(),
            final(self).ab_span() == (
                (old(self).ab_span().0 + n) as usize,
                old(self).ab_span().1,
            ),
            final(self).ba_span() == old(self).ba_span(),
    {
        let ghost d0 = self.ab();
        self.total_a_to_b = self.total_a_to_b + n as u64;
        self.pending_ab = self.pending_ab + n;
        self.written_b = Ghost(self.written_b@ + d0.pending.take(n as int));
        proof {
            assert(self.ab().pending =~= d0.pending.skip(n as int));
            assert((d0.written + d0.pending.take(n as int)) + d0.pending.skip(n as int)
                =~= d0.written + d0.pending);
        }
    }

    /// The first `n` bytes that waited were written to A.
    pub fn advance_ba(&mut self, n: usize)
        requires
            old(self).wf(),
            n <= old(self).ba().pending.len(),
            old(self).ba().written.len() + n <= u64::MAX,
        ensures
            final(self).wf(),
            final(self).ba() == (Direction {
                written: old(self).ba().written + old(self).ba().pending.take(n as int),
                pending: old(self).ba().pending.skip(n as int),
                ..old(self).ba()
            }),
            final(self).ab() == old(self).ab(),
            final(self).a_buf() == old(self).a_buf(),
            final(self).b_buf() == old(self).b_buf(),
            final(self).ab_span() == old(self).ab_span(),
            final(self).ba_span() == (
                (old(self).ba_span().0 + n) as usize,
                old(self).ba_span().1,
            ),
    {
        let ghost d0 = self.ba();
        self.total_b_to_a = self.total_b_to_a + n as u64;
        self.pending_ba = self.pending_ba + n;
        self.written_a = Ghost(self.written_a@ + d0.pending.take(n as int));
        proof {
            assert(self.ba().pending =~= d0.pending.skip(n as int));
            assert((d0.written + d0.pending.take(n as int)) + d0.pending.skip(n as int)
                =~= d0.written + d0.pending);
        }
    }

    /// `n` bytes were read from A into its buffer.
    pub fn set_ab_read(&mut self, n: usize)
        requires
            old(self).wf(),
            old(self).ab().pending.len() == 0,
            n <= BIDI_BUF_SIZE,
        ensures
            final(self).wf(),
            final(self).ab() == (Direction {
                read: old(self).ab().read + old(self).a_buf().take(n as int),
                pending: old(self).a_buf().take(n as int),
                ..old(self).ab()
            }),
            final(self).ba() == old(self).ba(),
            final(self).a_buf() == old(self).a_buf(),
            final(self).b_buf() == old(self).b_buf(),
            final(self).ab_span() == (0usize, n),
            final(self).ba_span() == old(self).ba_span(),
    {
        let ghost d0 = self.ab();
        self.pending_ab = 0;
        self.n_a = n;
        self.read_a = Ghost(self.read_a@ + self.buf_a@.take(n as int));
        proof {
            assert(d0.pending =~= Seq::<u8>::empty());
            assert(d0.written + d0.pending =~= d0.written);
            assert(self.ab().pending =~= self.buf_a@.take(n as int));
        }
    }

    /// `n` bytes were read from B into its buffer.
    pub fn set_ba_read(&mut self, n: usize)
        requires
            old(self).wf(),
            old(self).ba().pending.len() == 0,
            n <= BIDI_BUF_SIZE,
        ensures
            final(self).wf(),
            final(self).ba() == (Direction {
                read: old(self).ba().read + old(self).b_buf().take(n as int),
                pending: old(self).b_buf().take(n as int),
                ..old(self).ba()
            }),
            final(self).ab() == old(self).ab(),
            final(self).a_buf() == old(self).a_buf(),
            final(self).b_buf() == old(self).b_buf(),
            final(self).ab_span() == old(self).ab_span(),
            final(self).ba_span() == (0usize, n),
    {
        let ghost d0 = self.ba();
        self.pending_ba = 0;
        self.n_b = n;
        self.read_b = Ghost(self.read_b@ + self.buf_b@.take(n as int));
        proof {
            assert(d0.pending =~= Seq::<u8>::empty());
            assert(d0.written + d0.pending =~= d0.written);
            assert(self.ba().pending =~= self.buf_b@.take(n as int));
        }
    }

    /// Makes the buffer of A ready for reading from its start; nothing may wait
    /// in it.
    pub fn reset_ab(&mut self)
        requires
            old(self).wf(),
            old(self).ab().pending.len() == 0,
        ensures
            final(self).wf(),
            final(self).ab() == old(self).ab(),
            final(self).ba() == old(self).ba(),
            final(self).a_buf() == old(self).a_buf(),
            final(self).b_buf() == old(self).b_buf(),
            final(self).ab_span() == (0usize, 0usize),
            final(self).ba_span() == old(self).ba_span(),
    {
        let ghost d0 = self.ab();
        self.pending_ab = 0;
        self.n_a = 0;
        assert(self.ab().pending =~= d0.pending);
    }

    /// Makes the buffer of B ready for reading from its start; nothing may wait
    /// in it.
    pub fn reset_ba(&mut self)
        requires
            old(self).wf(),
            old(self).ba().pending.len() == 0,
        ensures
            final(self).wf(),
            final(self).ab() == old(self).ab(),
            final(self).ba() == old(self).ba(),
            final(self).a_buf() == old(self).a_buf(),
            final(self).b_buf() == old(self).b_buf(),
            final(self).ab_span() == old(self).ab_span(),
            final(self).ba_span() == (0usize, 0usize),
    {
        let ghost d0 = self.ba();
        self.pending_ba = 0;
        self.n_b = 0;
        assert(self.ba().pending =~= d0.pending);
    }

    /// The bytes that wait to be written to B.
    pub fn pending_ab_slice(&self) -> (s: &[u8])
        requires
            self.wf(),
        ensures
            s@ == self.ab().pending,
    {
        slice_subrange(self.buf_a.as_slice(), self.pending_ab, self.n_a)
    }

    /// The bytes that wait to be written to A.
    pub fn pending_ba_slice(&self) -> (s: &[u8])
        requires
            self.wf(),
        ensures
            s@ == self.ba().pending,
    {
        slice_subrange(self.buf_b.as_slice(), self.pending_ba, self.n_b)
    }

    /// The buffer to read from A into, while nothing waits in it.
    pub fn a_buf_mut(&mut self) -> (s: &mut [u8])
        requires
            old(self).wf(),
            old(self).ab().pending.len() == 0,
        ensures
            s@ == old(self).a_buf(),
            s@.len() == BIDI_BUF_SIZE,
            final(self).a_buf() == final(s)@,
            final(self).a_buf().len() == BIDI_BUF_SIZE ==> final(self).wf(),
            final(self).ab() == old(self).ab(),
            final(self).ba() == old(self).ba(),
            final(self).b_buf() == old(self).b_buf(),
            final(self).ab_span() == (0usize, 0usize),
            final(self).ba_span() == old(self).ba_span(),
    {
        assert(self.ab().pending =~= Seq::<u8>::empty());
        self.n_a = 0;
        self.pending_ab = 0;
        assert forall|q: Seq<u8>| #[trigger] q.subrange(0, 0) =~= Seq::<u8>::empty() by {}
        self.buf_a.as_mut_slice()
    }

    /// The buffer to read from B into, while nothing waits in it.
    pub fn b_buf_mut(&mut self) -> (s: &mut [u8])
        requires
            old(self).wf(),
            old(self).ba().pending.len() == 0,
        ensures
            s@ == old(self).b_buf(),
            s@.len() == BIDI_BUF_SIZE,
            final(self).b_buf() == final(s)@,
            final(self).b_buf().len() == BIDI_BUF_SIZE ==> final(self).wf(),
            final(self).ba() == old(self).ba(),
            final(self).ab() == old(self).ab(),
            final(self).a_buf() == old(self).a_buf(),
            final(self).ab_span() == old(self).ab_span(),
            final(self).ba_span() == (0usize, 0usize),
    {
        assert(self.ba().pending =~= Seq::<u8>::empty());
        self.n_b = 0;
        self.pending_ba = 0;
        assert forall|q: Seq<u8>| #[trigger] q.subrange(0, 0) =~= Seq::<u8>::empty() by {}
        self.buf_b.as_mut_slice()
    }

    /// Whether both sources have ended.
    pub fn both_eof(&self) -> (b: bool)
        ensures
            b == (self.ab().eof && self.ba().eof),
    {
        self.a_eof && self.b_eof
    }

    /// How many bytes were written to B and to A.
    pub fn into_result(self) -> (r: (u64, u64))
        requires
            self.wf(),
        ensures
            r.0 == self.ab().written.len(),
            r.1 == self.ba().written.len(),
    {
        (self.total_a_to_b, self.total_b_to_a)
    }
}

/// What became of an attempt to read or write.
#[derive(Clone, Copy, Debug, PartialEq, Eq, Structural)]
pub enum Attempt {
    /// So many bytes were read or written.
    Done(usize),
    /// The stream is not ready.
    NotReady,
    /// The stream failed.
    Failed,
}

/// What is to be done next in a copy.
#[derive(Clone, Copy, Debug, PartialEq, Eq, Structural)]
pub enum CopyAction {
    /// Write to B what waits for it.
    WriteB,
    /// Read from A.
    ReadA,
    /// Write to A what waits for it.
    WriteA,
    /// Read from B.
    ReadB,
    /// Close the streams named here for writing, and end the pass.
    Close { b: bool, a: bool },
}

/// How a pass over both directions ended.
#[derive(Clone, Copy, Debug, PartialEq, Eq, Structural)]
pub enum PassEnd {
    /// Both sources have ended.
    Finished,
    /// A stream failed.
    Failed,
    /// Something was done: make another pass.
    Again,
    /// Nothing could be done: wait for a stream or for this time.
    Wait(Option<u128>),
    /// Nothing flowed for too long.
    Idle,
}

/// The steps of a pass.
#[derive(Clone, Copy, Debug, PartialEq, Eq, Structural)]
pub enum Stage {
    WriteB,
    ReadA,
    WriteA,
    ReadB,
    Close,
}

/// A copy in both directions that runs until both sources have ended, a stream
/// fails, or nothing flows for the idle time.
pub struct BidiCopy {
    state: BidiState,
    stage: Stage,
    failed: bool,
    progress: bool,
    flowed: bool,
    idle_ns: u128,
    deadline: u128,
}

/// What a copy has come to, apart from the bytes.
pub struct CopyPass {
    pub stage: Stage,
    pub failed: bool,
    /// Something was done in this pass.
    pub progress: bool,
    /// Data was read or written in this pass.
    pub flowed: bool,
}

/// The step that is taken at `stage` or after it.
pub open spec fn action_from(stage: Stage, ab: Direction, ba: Direction, failed: bool) -> CopyAction
    decreases
            (match stage {
                Stage::WriteB => 4nat,
                Stage::ReadA => 3nat,
                Stage::WriteA => 2nat,
                Stage::ReadB => 1nat,
                Stage::Close => 0nat,
            }),
{
    match stage {
        Stage::WriteB => if ab.pending.len() > 0 {
            CopyAction::WriteB
        } else {
            action_from(Stage::ReadA, ab, ba, failed)
        },
        Stage::ReadA => if ab.pending.len() == 0 && !ab.eof && !failed {
            CopyAction::ReadA
        } else {
            action_from(Stage::WriteA, ab, ba, failed)
        },
        Stage::WriteA => if ba.pending.len() > 0 {
            CopyAction::WriteA
        } else {
            action_from(Stage::ReadB, ab, ba, failed)
        },
        Stage::ReadB => if ba.pending.len() == 0 && !ba.eof && !failed {
            CopyAction::ReadB
        } else {
            CopyAction::Close { b: ab.eof, a: ba.eof }
        },
        Stage::Close => CopyAction::Close { b: ab.eof, a: ba.eof },
    }
}

/// The stage at which an action stands.
pub open spec fn stage_of(action: CopyAction) -> Stage {
    match action {
        CopyAction::WriteB => Stage::WriteB,
        CopyAction::ReadA => Stage::ReadA,
        CopyAction::WriteA => Stage::WriteA,
        CopyAction::ReadB => Stage::ReadB,
        CopyAction::Close { .. } => Stage::Close,
    }
}

/// A direction after an attempt to write what waits in it.
pub open spec fn after_write(d: Direction, r: Attempt) -> Direction {
    match r {
        Attempt::Done(n) => Direction {
            written: d.written + d.pending.take(n as int),
            pending: d.pending.skip(n as int),
            ..d
        },
        Attempt::NotReady => d,
        Attempt::Failed => Direction { eof: true, ..d },
    }
}

/// A direction after an attempt to read into `buf`.
pub open spec fn after_read(d: Direction, buf: Seq<u8>, r: Attempt) -> Direction {
    match r {
        Attempt::Done(n) => if n == 0 {
            Direction { eof: true, ..d }
        } else {
            Direction { read: d.read + buf.take(n as int), pending: buf.take(n as int), ..d }
        },
        Attempt::NotReady => d,
        Attempt::Failed => Direction { eof: true, ..d },
    }
}

/// The pass after an attempt to write: it stays at writing while bytes are taken.
pub open spec fn pass_after_write(p: CopyPass, r: Attempt, next: Stage) -> CopyPass {
    match r {
        Attempt::Done(n) => if n == 0 {
            CopyPass { stage: next, ..p }
        } else {
            CopyPass { progress: true, flowed: true, ..p }
        },
        Attempt::NotReady => CopyPass { stage: next, ..p },
        Attempt::Failed => CopyPass { stage: next, failed: true, progress: true, ..p },
    }
}

/// The pass after an attempt to read.
pub open spec fn pass_after_read(p: CopyPass, r: Attempt, next: Stage) -> CopyPass {
    match r {
        Attempt::Done(n) => CopyPass {
            stage: next,
            progress: true,
            flowed: p.flowed || n > 0,
            ..p
        },
        Attempt::NotReady => CopyPass { stage: next, ..p },
        Attempt::Failed => CopyPass { stage: next, failed: true, progress: true, ..p },
    }
}

/// Nanoseconds in a second.
pub const NANOS: u128 = 1_000_000_000;

impl BidiCopy {
    /// The direction from A to B.
    pub closed spec fn ab(&self) -> Direction {
        self.state.ab()
    }

    /// The direction from B to A.
    pub closed spec fn ba(&self) -> Direction {
        self.state.ba()
    }

    /// Where the copy is in its pass.
    pub closed spec fn pass(&self) -> CopyPass {
        CopyPass {
            stage: self.stage,
            failed: self.failed,
            progress: self.progress,
            flowed: self.flowed,
        }
    }

    /// How long nothing may flow, in nanoseconds; 0 for no limit.
    pub closed spec fn idle_ns(&self) -> u128 {
        self.idle_ns
    }

    /// When the copy ends if nothing flows until then.
    pub closed spec fn deadline(&self) -> u128 {
        self.deadline
    }

    /// What was read from A last.
    pub closed spec fn a_buf(&self) -> Seq<u8> {
        self.state.a_buf()
    }

    /// What was read from B last.
    pub closed spec fn b_buf(&self) -> Seq<u8> {
        self.state.b_buf()
    }

    /// The copy is in order: nothing was lost, changed or added in either
    /// direction, and while no stream has failed a source that ended leaves
    /// nothing behind.
    pub closed spec fn wf(&self) -> bool {
        &&& self.state.wf()
        &&& self.state.ab().wf()
        &&& self.state.ba().wf()
        &&& !self.failed && self.state.ab().eof ==> self.state.ab().pending.len() == 0
        &&& !self.failed && self.state.ba().eof ==> self.state.ba().pending.len() == 0
    }

    /// A copy that begins now; it ends when nothing flows for `idle_secs`
    /// seconds, or never on that account where that is 0.
    pub fn start(idle_secs: u64, now: u64) -> (c: Self)
        ensures
            c.wf(),
            c.ab() == (Direction {
                read: Seq::empty(),
                written: Seq::empty(),
                pending: Seq::empty(),
                eof: false,
            }),
            c.ba() == c.ab(),
            c.pass() == (CopyPass {
                stage: Stage::WriteB,
                failed: false,
                progress: false,
                flowed: false,
            }),
            c.idle_ns() == idle_secs * NANOS,
            c.deadline() == now + idle_secs * NANOS,
    {
        let state = BidiState::new();
        proof {
            lemma_nanos(idle_secs);
        }
        BidiCopy {
            state,
            stage: Stage::WriteB,
            failed: false,
            progress: false,
            flowed: false,
            idle_ns: idle_secs as u128 * NANOS,
            deadline: now as u128 + idle_secs as u128 * NANOS,
        }
    }

    /// What is to be done next.
    pub fn next(&mut self) -> (action: CopyAction)
        requires
            old(self).wf(),
        ensures
            action == action_from(
                old(self).pass().stage,
                old(self).ab(),
                old(self).ba(),
                old(self).pass().failed,
            ),
            final(self).wf(),
            final(self).pass() == (CopyPass { stage: stage_of(action), ..old(self).pass() }),
            final(self).ab() == old(self).ab(),
            final(self).ba() == old(self).ba(),
            final(self).idle_ns() == old(self).idle_ns(),
            final(self).deadline() == old(self).deadline(),
    {
        proof {
            reveal_with_fuel(action_from, 6);
        }
        if self.stage == Stage::WriteB {
            if self.state.has_pending_ab() {
                return CopyAction::WriteB;
            }
            self.stage = Stage::ReadA;
        }
        if self.stage == Stage::ReadA {
            if !self.state.has_pending_ab() && !self.state.a_eof && !self.failed {
                return CopyAction::ReadA;
            }
            self.stage = Stage::WriteA;
        }
        if self.stage == Stage::WriteA {
            if self.state.has_pending_ba() {
                return CopyAction::WriteA;
            }
            self.stage = Stage::ReadB;
        }
        if self.stage == Stage::ReadB {
            if !self.state.has_pending_ba() && !self.state.b_eof && !self.failed {
                return CopyAction::ReadB;
            }
            self.stage = Stage::Close;
        }
        CopyAction::Close { b: self.state.a_eof, a: self.state.b_eof }
    }

    /// The bytes that wait to be written to B.
    pub fn for_b(&self) -> (s: &[u8])
        requires
            self.wf(),
        ensures
            s@ == self.ab().pending,
    {
        self.state.pending_ab_slice()
    }

    /// The bytes that wait to be written to A.
    pub fn for_a(&self) -> (s: &[u8])
        requires
            self.wf(),
        ensures
            s@ == self.ba().pending,
    {
        self.state.pending_ba_slice()
    }

    /// What came of writing to B.
    pub fn wrote_b(&mut self, r: Attempt)
        requires
            old(self).wf(),
            old(self).pass().stage == Stage::WriteB,
            r matches Attempt::Done(n) ==> n <= old(self).ab().pending.len()
                && old(self).ab().written.len() + n <= u64::MAX,
        ensures
            final(self).wf(),
            final(self).ab() == after_write(old(self).ab(), r),
            final(self).ba() == old(self).ba(),
            final(self).pass() == pass_after_write(old(self).pass(), r, Stage::ReadA),
            final(self).idle_ns() == old(self).idle_ns(),
            final(self).deadline() == old(self).deadline(),
    {
        match r {
            Attempt::Done(n) => {
                self.state.advance_ab(n);
                if n == 0 {
                    self.stage = Stage::ReadA;
                } else {
                    self.progress = true;
                    self.flowed = true;
                }
            },
            Attempt::NotReady => {
                self.stage = Stage::ReadA;
            },
            Attempt::Failed => {
                self.state.a_eof = true;
                self.failed = true;
                self.progress = true;
                self.stage = Stage::ReadA;
            },
        }
    }

    /// What came of writing to A.
    pub fn wrote_a(&mut self, r: Attempt)
        requires
            old(self).wf(),
            old(self).pass().stage == Stage::WriteA,
            r matches Attempt::Done(n) ==> n <= old(self).ba().pending.len()
                && old(self).ba().written.len() + n <= u64::MAX,
        ensures
            final(self).wf(),
            final(self).ba() == after_write(old(self).ba(), r),
            final(self).ab() == old(self).ab(),
            final(self).pass() == pass_after_write(old(self).pass(), r, Stage::ReadB),
            final(self).idle_ns() == old(self).idle_ns(),
            final(self).deadline() == old(self).deadline(),
    {
        match r {
            Attempt::Done(n) => {
                self.state.advance_ba(n);
                if n == 0 {
                    self.stage = Stage::ReadB;
                } else {
                    self.progress = true;
                    self.flowed = true;
                }
            },
            Attempt::NotReady => {
                self.stage = Stage::ReadB;
            },
            Attempt::Failed => {
                self.state.b_eof = true;
                self.failed = true;
                self.progress = true;
                self.stage = Stage::ReadB;
            },
        }
    }

    /// The buffer to read from A into.
    pub fn a_buf_mut(&mut self) -> (s: &mut [u8])
        requires
            old(self).wf(),
            old(self).ab().pending.len() == 0,
        ensures
            s@ == old(self).a_buf(),
            s@.len() == BIDI_BUF_SIZE,
            final(self).a_buf() == final(s)@,
            final(self).a_buf().len() == BIDI_BUF_SIZE ==> final(self).wf(),
            final(self).ab() == old(self).ab(),
            final(self).ba() == old(self).ba(),
            final(self).pass() == old(self).pass(),
            final(self).idle_ns() == old(self).idle_ns(),
            final(self).deadline() == old(self).deadline(),
    {
        self.state.a_buf_mut()
    }

    /// The buffer to read from B into.
    pub fn b_buf_mut(&mut self) -> (s: &mut [u8])
        requires
            old(self).wf(),
            old(self).ba().pending.len() == 0,
        ensures
            s@ == old(self).b_buf(),
            s@.len() == BIDI_BUF_SIZE,
            final(self).b_buf() == final(s)@,
            final(self).b_buf().len() == BIDI_BUF_SIZE ==> final(self).wf(),
            final(self).ab() == old(self).ab(),
            final(self).ba() == old(self).ba(),
            final(self).pass() == old(self).pass(),
            final(self).idle_ns() == old(self).idle_ns(),
            final(self).deadline() == old(self).deadline(),
    {
        self.state.b_buf_mut()
    }

    /// What came of reading from A into its buffer.
    pub fn read_a(&mut self, r: Attempt)
        requires
            old(self).wf(),
            old(self).pass().stage == Stage::ReadA,
            old(self).ab().pending.len() == 0,
            !old(self).ab().eof,
            r matches Attempt::Done(n) ==> n <= BIDI_BUF_SIZE,
        ensures
            final(self).wf(),
            final(self).ab() == after_read(old(self).ab(), old(self).a_buf(), r),
            final(self).ba() == old(self).ba(),
            final(self).pass() == pass_after_read(old(self).pass(), r, Stage::WriteA),
            final(self).idle_ns() == old(self).idle_ns(),
            final(self).deadline() == old(self).deadline(),
    {
        match r {
            Attempt::Done(n) => {
                if n == 0 {
                    self.state.a_eof = true;
                } else {
                    self.state.set_ab_read(n);
                    self.flowed = true;
                }
                self.progress = true;
            },
            Attempt::NotReady => {},
            Attempt::Failed => {
                self.state.a_eof = true;
                self.failed = true;
                self.progress = true;
            },
        }
        self.stage = Stage::WriteA;
    }

    /// What came of reading from B into its buffer.
    pub fn read_b(&mut self, r: Attempt)
        requires
            old(self).wf(),
            old(self).pass().stage == Stage::ReadB,
            old(self).ba().pending.len() == 0,
            !old(self).ba().eof,
            r matches Attempt::Done(n) ==> n <= BIDI_BUF_SIZE,
        ensures
            final(self).wf(),
            final(self).ba() == after_read(old(self).ba(), old(self).b_buf(), r),
            final(self).ab() == old(self).ab(),
            final(self).pass() == pass_after_read(old(self).pass(), r, Stage::Close),
            final(self).idle_ns() == old(self).idle_ns(),
            final(self).deadline() == old(self).deadline(),
    {
        match r {
            Attempt::Done(n) => {
                if n == 0 {
                    self.state.b_eof = true;
                } else {
                    self.state.set_ba_read(n);
                    self.flowed = true;
                }
                self.progress = true;
            },
            Attempt::NotReady => {},
            Attempt::Failed => {
                self.state.b_eof = true;
                self.failed = true;
                self.progress = true;
            },
        }
        self.stage = Stage::Close;
    }

    /// Ends the pass, and says what follows. Where data flowed, the idle time
    /// begins anew.
    pub fn end_pass(&mut self, now: u64) -> (end: PassEnd)
        requires
            old(self).wf(),
        ensures
            final(self).wf(),
            final(self).ab() == old(self).ab(),
            final(self).ba() == old(self).ba(),
            final(self).idle_ns() == old(self).idle_ns(),
            final(self).deadline() == pass_deadline(
                old(self).pass(),
                old(self).idle_ns(),
                old(self).deadline(),
                now,
            ),
            final(self).pass() == (CopyPass {
                stage: Stage::WriteB,
                failed: old(self).pass().failed,
                progress: false,
                flowed: false,
            }),
            end == pass_end(
                old(self).pass(),
                old(self).ab().eof && old(self).ba().eof,
                old(self).idle_ns(),
                old(self).deadline(),
                now,
            ),
    {
        let end = if self.failed {
            PassEnd::Failed
        } else if self.state.both_eof() {
            PassEnd::Finished
        } else if self.progress {
            PassEnd::Again
        } else if self.idle_ns == 0 {
            PassEnd::Wait(None)
        } else if now as u128 >= self.deadline {
            PassEnd::Idle
        } else {
            PassEnd::Wait(Some(self.deadline))
        };
        if self.flowed {
            self.deadline = (now as u128).saturating_add(self.idle_ns);
        }
        self.progress = false;
        self.flowed = false;
        self.stage = Stage::WriteB;
        end
    }

    /// How many bytes were written to B and to A.
    pub fn into_result(self) -> (r: (u64, u64))
        requires
            self.wf(),
        ensures
            r.0 == self.ab().written.len(),
            r.1 == self.ba().written.len(),
    {
        self.state.into_result()
    }
}

/// How a pass ends.
pub open spec fn pass_end(
    p: CopyPass,
    both_eof: bool,
    idle_ns: u128,
    deadline: u128,
    now: u64,
) -> PassEnd {
    if p.failed {
        PassEnd::Failed
    } else if both_eof {
        PassEnd::Finished
    } else if p.progress {
        PassEnd::Again
    } else if idle_ns == 0 {
        PassEnd::Wait(None)
    } else if now >= deadline {
        PassEnd::Idle
    } else {
        PassEnd::Wait(Some(deadline))
    }
}

/// The deadline after a pass: data that flowed puts it off.
pub open spec fn pass_deadline(p: CopyPass, idle_ns: u128, deadline: u128, now: u64) -> u128 {
    if p.flowed {
        if now + idle_ns > u128::MAX {
            u128::MAX
        } else {
            (now + idle_ns) as u128
        }
    } else {
        deadline
    }
}

proof fn lemma_nanos(secs: u64)
    ensures
        0 <= secs * NANOS <= u64::MAX * NANOS,
        u64::MAX * NANOS + u64::MAX <= u128::MAX,
{
    assert(0 <= secs * NANOS <= u64::MAX * NANOS) by (nonlinear_arith)
        requires
            0 <= secs <= u64::MAX,
            NANOS == 1_000_000_000,
    ;
}

/// How long to wait after a copy has ended, in seconds; none for no wait.
pub fn postwait(postwait_secs: u64) -> (wait: Option<u64>)
    ensures
        wait == (if postwait_secs > 0 {
            Some(postwait_secs)
        } else {
            None
        }),
{
    if postwait_secs > 0 {
        Some(postwait_secs)
    } else {
        None
    }
}

/// A copy that ends because both sources ended has written to each side exactly
/// what was read from the other, in order.
pub proof fn law_finished_copy_is_complete(c: BidiCopy, now: u64)
    requires
        c.wf(),
        pass_end(c.pass(), c.ab().eof && c.ba().eof, c.idle_ns(), c.deadline(), now)
            == PassEnd::Finished,
    ensures
        c.ab().written == c.ab().read,
        c.ba().written == c.ba().read,
{
    assert(c.ab().written + c.ab().pending =~= c.ab().written);
    assert(c.ba().written + c.ba().pending =~= c.ba().written);
}

/// At any time, also after a failure, what was written to a side is a beginning
/// of what was read from the other.
pub proof fn law_copy_keeps_bytes_in_order(c: BidiCopy)
    requires
        c.wf(),
    ensures
        c.ab().written.is_prefix_of(c.ab().read),
        c.ba().written.is_prefix_of(c.ba().read),
{
    assert(c.ab().written =~= c.ab().read.subrange(0, c.ab().written.len() as int));
    assert(c.ba().written =~= c.ba().read.subrange(0, c.ba().written.len() as int));
}

} // verus!
