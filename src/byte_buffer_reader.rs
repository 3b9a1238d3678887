use vstd::prelude::*;

verus! {

/// A cursor over an owned copy of a byte buffer.
pub struct ByteBufferReader {
    index: usize,
    buffer: Vec<u8>,
}

impl ByteBufferReader {
    pub closed spec fn position(&self) -> int {
        self.index as int
    }

    pub closed spec fn bytes(&self) -> Seq<u8> {
        self.buffer@
    }

    /// The bytes not read yet.
    pub open spec fn rest(&self) -> Seq<u8> {
        if self.position() <= self.bytes().len() {
            self.bytes().subrange(self.position(), self.bytes().len() as int)
        } else {
            Seq::empty()
        }
    }

    /// A reader at the start of a copy of `buffer`.
    pub fn from(buffer: &[u8]) -> (r: ByteBufferReader)
        ensures
            r.position() == 0,
            r.bytes() == buffer@,
            r.rest() == buffer@,
    {
        let r = ByteBufferReader { index: 0, buffer: vstd::slice::slice_to_vec(buffer) };
        assert(r.bytes().subrange(0, r.bytes().len() as int) =~= r.bytes());
        r
    }

    /// The next byte, or `None` at the end.
    pub fn read_byte(&mut self) -> (r: Option<u8>)
        ensures
            final(self).bytes() == old(self).bytes(),
            old(self).rest().len() > 0 ==> r == Some(old(self).rest()[0]) && final(self).rest()
                == old(self).rest().drop_first(),
            old(self).rest().len() == 0 ==> r is None && final(self).rest() == old(self).rest(),
    {
        if self.index < self.buffer.len() {
            let b = self.buffer[self.index];
            self.index = self.index + 1;
            assert(self.rest() =~= old(self).rest().drop_first());
            Some(b)
        } else {
            None
        }
    }

    /// Copies as many unread bytes as fit into `buf` and returns how many were copied.
    pub fn read(&mut self, buf: &mut [u8]) -> (n: usize)
        ensures
            final(self).bytes() == old(self).bytes(),
            n == if old(self).rest().len() < old(buf)@.len() {
                old(self).rest().len() as int
            } else {
                old(buf)@.len() as int
            },
            final(buf)@.len() == old(buf)@.len(),
            final(buf)@.subrange(0, n as int) == old(self).rest().subrange(0, n as int),
            final(buf)@.subrange(n as int, old(buf)@.len() as int) == old(buf)@.subrange(n as int, old(buf)@.len() as int),
            final(self).rest() == old(self).rest().subrange(n as int, old(self).rest().len() as int),
    {
        let mut byte_idx: usize = 0;
        let len = buf.len();
        while byte_idx < len
            invariant
                len == buf@.len(),
                buf@.len() == old(buf)@.len(),
                byte_idx <= len,
                self.bytes() == old(self).bytes(),
                byte_idx <= old(self).rest().len(),
                self.rest() == old(self).rest().subrange(byte_idx as int, old(self).rest().len() as int),
                buf@.subrange(0, byte_idx as int) == old(self).rest().subrange(0, byte_idx as int),
                buf@.subrange(byte_idx as int, len as int) == old(buf)@.subrange(byte_idx as int, len as int),
            ensures
                self.bytes() == old(self).bytes(),
                buf@.len() == old(buf)@.len(),
                byte_idx == if old(self).rest().len() < old(buf)@.len() {
                    old(self).rest().len() as int
                } else {
                    old(buf)@.len() as int
                },
                buf@.subrange(0, byte_idx as int) == old(self).rest().subrange(0, byte_idx as int),
                buf@.subrange(byte_idx as int, len as int) == old(buf)@.subrange(byte_idx as int, len as int),
                self.rest() == old(self).rest().subrange(byte_idx as int, old(self).rest().len() as int),
            decreases len - byte_idx,
        {
            let ghost prev_rest = self.rest();
            let ghost prev_buf = buf@;
            match self.read_byte() {
                None => {
                    break;
                },
                Some(byte) => {
                    buf[byte_idx] = byte;
                    proof {
                        assert(buf@.subrange(0, byte_idx + 1) =~= old(self).rest().subrange(0, byte_idx + 1)) by {
                            assert(prev_buf.subrange(0, byte_idx as int) =~= buf@.subrange(0, byte_idx as int));
                        }
                        assert forall|k: int| byte_idx + 1 <= k < len implies #[trigger] buf@[k] == old(buf)@[k] by {
                            assert(prev_buf.subrange(byte_idx as int, len as int)[k - byte_idx] == old(buf)@.subrange(
                                byte_idx as int,
                                len as int,
                            )[k - byte_idx]);
                        }
                        assert(buf@.subrange(byte_idx + 1, len as int) =~= old(buf)@.subrange(byte_idx + 1, len as int));
                        assert(self.rest() =~= old(self).rest().subrange(byte_idx + 1, old(self).rest().len() as int));
                    }
                    byte_idx = byte_idx + 1;
                },
            }
        }
        byte_idx
    }
}

} // verus!
