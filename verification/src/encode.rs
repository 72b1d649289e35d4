//! A growable byte sink for encoders that cannot fail.
//!
//! Binary encoders write through a sink; this one collects everything in
//! memory, so a write can never report an error.
use vstd::prelude::*;

verus! {

/// An in-memory byte sink.
#[derive(Debug, PartialEq)]
pub struct InfallibleEncoder(Vec<u8>);

impl View for InfallibleEncoder {
    type V = Seq<u8>;

    closed spec fn view(&self) -> Seq<u8> {
        self.0@
    }
}

impl InfallibleEncoder {
    /// An empty sink with room for the given number of bytes.
    pub fn new(len: usize) -> (r: InfallibleEncoder)
        ensures
            r@ == Seq::<u8>::empty(),
    {
        InfallibleEncoder(Vec::with_capacity(len))
    }

    /// Everything written so far.
    pub fn into_inner(self) -> (r: Vec<u8>)
        ensures
            r@ == self@,
    {
        self.0
    }

    /// Append a buffer's bytes to the sink.
    pub fn write_all(&mut self, buf: &[u8])
        ensures
            final(self)@ == old(self)@ + buf@,
    {
        let mut i: usize = 0;
        while i < buf.len()
            invariant
                0 <= i <= buf@.len(),
                self@ == old(self)@ + buf@.subrange(0, i as int),
            decreases buf@.len() - i,
        {
            proof {
                assert(old(self)@ + buf@.subrange(0, i as int + 1) =~= (old(self)@ + buf@.subrange(
                    0,
                    i as int,
                )).push(buf@[i as int]));
            }
            self.0.push(buf[i]);
            i = i + 1;
        }
        proof {
            assert(buf@.subrange(0, buf@.len() as int) =~= buf@);
        }
    }
}

} // verus!
