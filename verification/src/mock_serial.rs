//! A mock serial port for exercising the protocol engine without
//! hardware: writes append to an internal buffer, reads drain it from
//! the front, so bytes come back in the order they were written.

use vstd::prelude::*;

verus! {

/// The mock port: one byte buffer standing for the wire.
#[derive(Clone)]
pub struct MockSerial {
    buffer: Vec<u8>,
}

impl View for MockSerial {
    type V = Seq<u8>;

    closed spec fn view(&self) -> Seq<u8> {
        self.buffer@
    }
}

impl Default for MockSerial {
    /// Creates a mock port with an empty buffer.
    fn default() -> (r: MockSerial)
        ensures
            r@ == Seq::<u8>::empty(),
    {
        MockSerial { buffer: Vec::new() }
    }
}

impl MockSerial {
    /// Appends `buf` to the wire; every byte is accepted.
    pub fn write(&mut self, buf: &[u8]) -> (r: usize)
        ensures
            r == buf@.len(),
            final(self)@ == old(self)@ + buf@,
    {
        let mut k: usize = 0;
        while k < buf.len()
            invariant
                0 <= k <= buf@.len(),
                self@ == old(self)@ + buf@.take(k as int),
            decreases buf@.len() - k,
        {
            self.buffer.push(*vstd::slice::slice_index_get(buf, k));
            k = k + 1;
            proof {
                assert(self@ =~= old(self)@ + buf@.take(k as int));
            }
        }
        proof {
            assert(self@ =~= old(self)@ + buf@);
        }
        buf.len()
    }

    /// Flushing the mock port does nothing.
    pub fn flush(&mut self)
        ensures
            *final(self) == *old(self),
    {
    }

    /// Reads into the front of `buf`: as many bytes as both the wire
    /// holds and `buf` has room for are copied and drained, the rest of
    /// `buf` keeps its old contents.
    pub fn read(&mut self, buf: &mut Vec<u8>) -> (r: usize)
        ensures
            ({
                let k = if old(buf)@.len() <= old(self)@.len() {
                    old(buf)@.len() as int
                } else {
                    old(self)@.len() as int
                };
                &&& r == k
                &&& final(buf)@ == old(self)@.take(k) + old(buf)@.skip(k)
                &&& final(self)@ == old(self)@.skip(k)
            }),
    {
        let k: usize = if buf.len() <= self.buffer.len() {
            buf.len()
        } else {
            self.buffer.len()
        };
        let mut i: usize = 0;
        while i < k
            invariant
                0 <= i <= k <= old(buf)@.len(),
                k <= self@.len(),
                self@ == old(self)@,
                buf@ == old(self)@.take(i as int) + old(buf)@.skip(i as int),
            decreases k - i,
        {
            let b: u8 = *self.buffer.get(i).unwrap();
            buf.set(i, b);
            i = i + 1;
            proof {
                assert(buf@ =~= old(self)@.take(i as int) + old(buf)@.skip(i as int));
            }
        }
        let tail = self.buffer.split_off(k);
        self.buffer = tail;
        proof {
            assert(self@ =~= old(self)@.skip(k as int));
        }
        k
    }
}

} // verus!
