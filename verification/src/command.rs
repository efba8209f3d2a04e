//! The command/response synchronizer: a command line is written to the
//! transport terminated by a carriage return, and the incoming stream is
//! then scanned, read by read, until the command text reappears as the
//! node's echo or a fixed wait buffer is exhausted.
//!
//! The transport itself lives outside this crate: the scanner is fed the
//! bytes each read produced and answers whether the echo has arrived,
//! more bytes are needed, or the wait buffer filled without a match.

use vstd::prelude::*;

verus! {

/// Capacity of the wait buffer that accumulates echo bytes.
pub const WAIT_BUFFER_SIZE: usize = 1024;

/// True when `needle` occurs in `hay` starting at index `i`.
pub open spec fn contains_at(hay: Seq<u8>, needle: Seq<u8>, i: int) -> bool {
    0 <= i && i + needle.len() <= hay.len() && hay.subrange(i, i + needle.len()) == needle
}

/// True when `needle` occurs somewhere in `hay`.
pub open spec fn contains_seq(hay: Seq<u8>, needle: Seq<u8>) -> bool {
    exists|i: int| contains_at(hay, needle, i)
}

/// True when `needle` occurs in `hay` at index `i`, as executable code.
fn matches_at(hay: &[u8], needle: &[u8], i: usize) -> (r: bool)
    requires
        i + needle@.len() <= hay@.len() <= usize::MAX,
    ensures
        r == contains_at(hay@, needle@, i as int),
{
    let mut j: usize = 0;
    while j < needle.len()
        invariant
            0 <= j <= needle@.len(),
            i + needle@.len() <= hay@.len() <= usize::MAX,
            forall|t: int| 0 <= t < j ==> hay@[i + t] == needle@[t],
        decreases needle@.len() - j,
    {
        if *vstd::slice::slice_index_get(hay, i + j) != *vstd::slice::slice_index_get(needle, j) {
            proof {
                assert(hay@.subrange(i as int, i + needle@.len())[j as int] == hay@[i + j]);
            }
            return false;
        }
        j = j + 1;
    }
    proof {
        assert(hay@.subrange(i as int, i + needle@.len()) =~= needle@);
    }
    true
}

/// True when `needle` occurs in `hay`, as executable code.
pub fn contains_bytes(hay: &[u8], needle: &[u8]) -> (r: bool)
    ensures
        r == contains_seq(hay@, needle@),
{
    if needle.len() == 0 {
        proof {
            assert(hay@.subrange(0, 0) =~= needle@);
            assert(contains_at(hay@, needle@, 0));
        }
        return true;
    }
    if needle.len() > hay.len() {
        assert(forall|i: int| !contains_at(hay@, needle@, i));
        return false;
    }
    let last_start: usize = hay.len() - needle.len();
    let mut i: usize = 0;
    while i <= last_start
        invariant
            0 <= i <= last_start + 1,
            last_start == hay@.len() - needle@.len(),
            1 <= needle@.len() <= hay@.len() <= usize::MAX,
            forall|k: int| 0 <= k < i ==> !contains_at(hay@, needle@, k),
        decreases last_start + 1 - i,
    {
        if matches_at(hay, needle, i) {
            return true;
        }
        i = i + 1;
    }
    assert(forall|k: int| !contains_at(hay@, needle@, k));
    false
}

/// The wire form of one outgoing command: its text followed by the
/// single carriage-return terminator.
pub fn command_frame(command: &[u8]) -> (r: Vec<u8>)
    ensures
        r@ == command@ + seq![13u8],
{
    let mut out: Vec<u8> = Vec::new();
    let mut i: usize = 0;
    while i < command.len()
        invariant
            0 <= i <= command@.len(),
            out@ == command@.take(i as int),
        decreases command@.len() - i,
    {
        out.push(*vstd::slice::slice_index_get(command, i));
        i = i + 1;
        proof {
            assert(out@ =~= command@.take(i as int));
        }
    }
    out.push(13u8);
    proof {
        assert(out@ =~= command@ + seq![13u8]);
    }
    out
}

/// How many more bytes the wait buffer can take on top of what it holds.
pub open spec fn wait_room(received: Seq<u8>) -> int {
    WAIT_BUFFER_SIZE - received.len()
}

/// What one scan pass answered.
#[derive(Clone, Copy, Debug, PartialEq, Eq, Structural)]
pub enum WaitStatus {
    /// The command echo has arrived: the accumulated bytes contain the
    /// command text.
    Matched,
    /// No echo yet and the wait buffer still has room: read again.
    NeedMore,
    /// The wait buffer filled without a match: the wait failed.
    Exhausted,
}

/// Accumulates the bytes read while waiting for a command echo and
/// scans them for the command text. Holds at most `WAIT_BUFFER_SIZE`
/// bytes; bytes beyond that are never examined.
pub struct EchoScanner {
    command: Vec<u8>,
    buf: Vec<u8>,
}

impl EchoScanner {
    /// The command text whose echo is awaited.
    pub closed spec fn command(&self) -> Seq<u8> {
        self.command@
    }

    /// The bytes accumulated so far.
    pub closed spec fn received(&self) -> Seq<u8> {
        self.buf@
    }

    /// The accumulated bytes fit the wait buffer.
    pub closed spec fn wf(&self) -> bool {
        self.buf@.len() <= WAIT_BUFFER_SIZE
    }

    /// Creates a scanner waiting for the echo of `command`.
    pub fn new(command: &[u8]) -> (s: EchoScanner)
        ensures
            s.wf(),
            s.command() == command@,
            s.received() == Seq::<u8>::empty(),
    {
        let mut own: Vec<u8> = Vec::new();
        let mut i: usize = 0;
        while i < command.len()
            invariant
                0 <= i <= command@.len(),
                own@ == command@.take(i as int),
            decreases command@.len() - i,
        {
            own.push(*vstd::slice::slice_index_get(command, i));
            i = i + 1;
            proof {
                assert(own@ =~= command@.take(i as int));
            }
        }
        proof {
            assert(own@ =~= command@);
        }
        EchoScanner { command: own, buf: Vec::new() }
    }

    /// Accepts the bytes one transport read produced, keeping as many as
    /// the wait buffer has room for, and answers whether the accumulated
    /// bytes now contain the command text, more reads are needed, or the
    /// buffer filled without a match.
    pub fn feed(&mut self, bytes: &[u8]) -> (r: WaitStatus)
        requires
            old(self).wf(),
        ensures
            final(self).wf(),
            final(self).command() == old(self).command(),
            ({
                let room = wait_room(old(self).received());
                let kept = if bytes@.len() <= room {
                    bytes@.len() as int
                } else {
                    room
                };
                final(self).received() == old(self).received() + bytes@.take(kept)
            }),
            (r == WaitStatus::Matched) == contains_seq(final(self).received(), old(self).command()),
            (r == WaitStatus::Exhausted) == (!contains_seq(final(self).received(), old(self).command())
                && final(self).received().len() == WAIT_BUFFER_SIZE),
            (r == WaitStatus::NeedMore) == (!contains_seq(final(self).received(), old(self).command())
                && final(self).received().len() < WAIT_BUFFER_SIZE),
    {
        let room: usize = WAIT_BUFFER_SIZE - self.buf.len();
        let take: usize = if bytes.len() <= room {
            bytes.len()
        } else {
            room
        };
        let mut k: usize = 0;
        while k < take
            invariant
                0 <= k <= take <= bytes@.len(),
                self.buf@ == old(self).received() + bytes@.take(k as int),
                self.command@ == old(self).command(),
                old(self).received().len() + take <= WAIT_BUFFER_SIZE,
            decreases take - k,
        {
            self.buf.push(*vstd::slice::slice_index_get(bytes, k));
            k = k + 1;
            proof {
                assert(self.buf@ =~= old(self).received() + bytes@.take(k as int));
            }
        }
        if contains_bytes(self.buf.as_slice(), self.command.as_slice()) {
            WaitStatus::Matched
        } else if self.buf.len() == WAIT_BUFFER_SIZE {
            WaitStatus::Exhausted
        } else {
            WaitStatus::NeedMore
        }
    }
}

} // verus!
