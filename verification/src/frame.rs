//! The frame assembler: a fixed-capacity byte buffer that accepts raw
//! chunks from the transport, carves the complete newline-terminated
//! lines out of them, routes every decoded vector to the matching
//! channel, and retains the unconsumed tail for the next pass.
//!
//! A line that does not decode is kept in the buffer and retried on the
//! next pass, so a persistently malformed fragment occupies space until
//! more bytes change how the stream splits or the buffer fills. Bytes
//! that are not valid UTF-8, and a pending region that would outgrow the
//! buffer, are fatal: the assembler reports them and consumes nothing.

use vstd::prelude::*;

use crate::channel::{spec_route, Channel};
use crate::decode::{find_byte, parse_line, spec_parse_line};
use crate::types::{FixedPointVector, ParsedLine};

verus! {

/// Capacity of the assembler's byte buffer.
pub const FRAME_BUFFER_SIZE: usize = 128;

/// The conditions fatal to a session: bytes that are not valid UTF-8,
/// and more unconsumed bytes than the buffer can hold.
#[derive(Clone, Copy, Debug, PartialEq, Eq, Structural)]
pub enum FrameError {
    /// The pending bytes are not valid UTF-8 text.
    InvalidUtf8,
    /// The pending bytes outgrew the fixed buffer.
    Overflow,
}

/// Relies on `core::str::from_utf8`: it accepts exactly the byte
/// sequences that are valid UTF-8.
#[verifier::external_body]
fn utf8_ok(bytes: &[u8]) -> (r: bool)
    ensures
        r == vstd::utf8::valid_utf8(bytes@),
{
    core::str::from_utf8(bytes).is_ok()
}

/// One pass over the pending bytes: each complete newline-terminated
/// line is decoded in order and its vector routed to the matching
/// channel; the pass stops at the first line that does not decode, or
/// when no complete line is left. Yields the unconsumed remainder and
/// the two channel contents.
pub open spec fn process_lines(
    b: Seq<u8>,
    accel: Seq<FixedPointVector>,
    grav: Seq<FixedPointVector>,
) -> (Seq<u8>, Seq<FixedPointVector>, Seq<FixedPointVector>)
    decreases b.len(),
{
    match find_byte(b, 10) {
        Some(i) => {
            if 0 <= i < b.len() {
                let line = b.take(i);
                let rest = b.skip(i + 1);
                match spec_parse_line(line) {
                    ParsedLine::Accel(v) => process_lines(rest, spec_route(accel, v), grav),
                    ParsedLine::Grav(v) => process_lines(rest, accel, spec_route(grav, v)),
                    ParsedLine::Unrecognized => (b, accel, grav),
                }
            } else {
                (b, accel, grav)
            }
        },
        None => (b, accel, grav),
    }
}

/// The stateful byte-buffer manager between the transport and the line
/// decoder. Holds at most `FRAME_BUFFER_SIZE` unconsumed bytes.
pub struct FrameAssembler {
    buf: Vec<u8>,
}

impl FrameAssembler {
    /// The unconsumed bytes retained from earlier passes.
    pub closed spec fn pending(&self) -> Seq<u8> {
        self.buf@
    }

    /// The pending bytes fit the fixed buffer.
    pub closed spec fn wf(&self) -> bool {
        self.buf@.len() <= FRAME_BUFFER_SIZE
    }

    /// How many unconsumed bytes are retained.
    pub fn pending_len(&self) -> (r: usize)
        ensures
            r == self.pending().len(),
    {
        self.buf.len()
    }

    /// Creates an assembler with an empty buffer.
    pub fn new() -> (a: FrameAssembler)
        ensures
            a.wf(),
            a.pending() == Seq::<u8>::empty(),
    {
        FrameAssembler { buf: Vec::new() }
    }

    /// Appends one chunk of freshly read bytes and processes the buffer:
    /// every complete line is decoded in order, vectors are routed to
    /// `accel` or `grav` (and dropped when the channel is full), and the
    /// unconsumed tail is retained. Fails without consuming anything when
    /// the chunk would overflow the buffer or the pending bytes are not
    /// valid UTF-8.
    pub fn feed(&mut self, new_bytes: &[u8], accel: &mut Channel, grav: &mut Channel) -> (r:
        Result<(), FrameError>)
        requires
            old(self).wf(),
        ensures
            final(self).wf(),
            ({
                let combined = old(self).pending() + new_bytes@;
                let outcome = process_lines(combined, old(accel)@, old(grav)@);
                &&& (combined.len() > FRAME_BUFFER_SIZE ==> r is Err && r->Err_0
                    == FrameError::Overflow && final(self).pending() == old(self).pending()
                    && final(accel)@ == old(accel)@ && final(grav)@ == old(grav)@)
                &&& (combined.len() <= FRAME_BUFFER_SIZE && !vstd::utf8::valid_utf8(combined)
                    ==> r is Err && r->Err_0 == FrameError::InvalidUtf8 && final(self).pending()
                    == combined && final(accel)@ == old(accel)@ && final(grav)@ == old(grav)@)
                &&& (combined.len() <= FRAME_BUFFER_SIZE && vstd::utf8::valid_utf8(combined)
                    ==> r is Ok && final(self).pending() == outcome.0 && final(accel)@ == outcome.1
                    && final(grav)@ == outcome.2)
            }),
    {
        let ghost combined = self.buf@ + new_bytes@;
        if new_bytes.len() > FRAME_BUFFER_SIZE - self.buf.len() {
            return Err(FrameError::Overflow);
        }
        let mut k: usize = 0;
        while k < new_bytes.len()
            invariant
                0 <= k <= new_bytes@.len(),
                self.buf@ == old(self).pending() + new_bytes@.take(k as int),
                combined == old(self).pending() + new_bytes@,
                combined.len() <= FRAME_BUFFER_SIZE,
            decreases new_bytes@.len() - k,
        {
            self.buf.push(*vstd::slice::slice_index_get(new_bytes, k));
            k = k + 1;
            proof {
                assert(self.buf@ =~= old(self).pending() + new_bytes@.take(k as int));
            }
        }
        proof {
            assert(self.buf@ =~= combined);
        }
        if !utf8_ok(self.buf.as_slice()) {
            return Err(FrameError::InvalidUtf8);
        }
        let ghost accel0 = accel@;
        let ghost grav0 = grav@;
        let mut consumed: usize = 0;
        proof {
            assert(combined.skip(0) =~= combined);
        }
        loop
            invariant
                0 <= consumed <= combined.len(),
                self.buf@ == combined,
                combined.len() <= FRAME_BUFFER_SIZE,
                process_lines(combined, accel0, grav0) == process_lines(
                    combined.skip(consumed as int),
                    accel@,
                    grav@,
                ),
            ensures
                0 <= consumed <= combined.len(),
                self.buf@ == combined,
                process_lines(combined, accel0, grav0) == (
                    combined.skip(consumed as int),
                    accel@,
                    grav@,
                ),
            decreases combined.len() - consumed,
        {
            let buf_len: usize = self.buf.len();
            let tail: &[u8] = vstd::slice::slice_subrange(self.buf.as_slice(), consumed, buf_len);
            proof {
                assert(tail@ =~= combined.skip(consumed as int));
            }
            let nl: usize = match crate::decode::find_byte_in(tail, 10) {
                None => {
                    break ;
                },
                Some(i) => i,
            };
            let line: &[u8] = vstd::slice::slice_subrange(tail, 0, nl);
            proof {
                assert(line@ =~= combined.skip(consumed as int).take(nl as int));
            }
            let parsed: ParsedLine = parse_line(line);
            let ghost before = combined.skip(consumed as int);
            match parsed {
                ParsedLine::Accel(v) => {
                    let _ = accel.enqueue(v);
                },
                ParsedLine::Grav(v) => {
                    let _ = grav.enqueue(v);
                },
                ParsedLine::Unrecognized => {
                    break ;
                },
            }
            consumed = consumed + nl + 1;
            proof {
                assert(combined.skip(consumed as int) =~= before.skip(nl + 1));
            }
        }
        if consumed > 0 {
            let rest = self.buf.split_off(consumed);
            self.buf = rest;
            proof {
                assert(self.buf@ =~= combined.skip(consumed as int));
            }
        } else {
            proof {
                assert(self.buf@ =~= combined.skip(consumed as int));
            }
        }
        Ok(())
    }
}

} // verus!
