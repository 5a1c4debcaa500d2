use vstd::prelude::*;

verus! {

/// Position of the first newline byte in `s`, if any.
pub open spec fn newline_at(s: Seq<u8>) -> Option<int> {
    if exists|i: int| 0 <= i < s.len() && s[i] == 10u8 {
        Some(choose|i: int| 0 <= i < s.len() && s[i] == 10u8 && forall|j: int| 0 <= j < i ==> s[j] != 10u8)
    } else {
        None
    }
}

/// Splits a streamed byte body into newline-terminated records. Bytes arrive
/// in chunks of any size; each complete record comes back once, without its
/// terminator, in stream order. What follows the last newline stays pending
/// until the stream ends.
pub struct LineSplitter {
    buf: Vec<u8>,
}

impl LineSplitter {
    /// The bytes received and not yet handed out as complete records.
    pub closed spec fn pending(&self) -> Seq<u8> {
        self.buf@
    }

    /// Creates a splitter with nothing pending.
    pub fn new() -> (r: Self)
        ensures
            r.pending() == Seq::<u8>::empty(),
    {
        LineSplitter { buf: Vec::new() }
    }

    /// Feeds the next chunk of the stream.
    pub fn push_chunk(&mut self, chunk: &[u8])
        ensures
            final(self).pending() == old(self).pending() + chunk@,
    {
        let n = chunk.len();
        let mut i: usize = 0;
        while i < n
            invariant
                n == chunk@.len(),
                0 <= i <= n,
                self.buf@ == old(self).buf@ + chunk@.take(i as int),
            decreases n - i,
        {
            self.buf.push(chunk[i]);
            proof {
                assert(chunk@.take(i + 1) =~= chunk@.take(i as int).push(chunk@[i as int]));
                assert(old(self).buf@ + chunk@.take(i + 1) =~= (old(self).buf@ + chunk@.take(
                    i as int,
                )).push(chunk@[i as int]));
            }
            i = i + 1;
        }
        proof {
            assert(chunk@.take(n as int) =~= chunk@);
        }
    }

    /// Hands out the next complete record, without its newline terminator,
    /// or nothing when no complete record is pending.
    pub fn next_line(&mut self) -> (r: Option<Vec<u8>>)
        ensures
            r matches Some(line) ==> {
                &&& newline_at(old(self).pending()) matches Some(i) && line@ == old(
                    self,
                ).pending().take(i) && final(self).pending() == old(self).pending().skip(i + 1)
            },
            r is None ==> newline_at(old(self).pending()) is None && final(self).pending() == old(
                self,
            ).pending(),
    {
        let n = self.buf.len();
        let mut i: usize = 0;
        while i < n && self.buf[i] != 10u8
            invariant
                n == self.buf@.len(),
                0 <= i <= n,
                forall|j: int| 0 <= j < i ==> self.buf@[j] != 10u8,
                *self == *old(self),
            decreases n - i,
        {
            i = i + 1;
        }
        if i == n {
            proof {
                if newline_at(self.buf@) matches Some(k) {
                    let w = choose|w: int|
                        0 <= w < self.buf@.len() && self.buf@[w] == 10u8 && forall|j: int|
                            0 <= j < w ==> self.buf@[j] != 10u8;
                }
            }
            return None;
        }
        let mut line: Vec<u8> = Vec::new();
        let mut k: usize = 0;
        while k < i
            invariant
                k <= i < n,
                n == self.buf@.len(),
                line@ == self.buf@.take(i as int).take(k as int),
                *self == *old(self),
            decreases i - k,
        {
            line.push(self.buf[k]);
            proof {
                assert(self.buf@.take(i as int).take(k + 1) =~= self.buf@.take(i as int).take(
                    k as int,
                ).push(self.buf@[k as int]));
            }
            k = k + 1;
        }
        proof {
            assert(line@ =~= self.buf@.take(i as int));
        }
        let mut rest: Vec<u8> = Vec::new();
        let mut m: usize = i + 1;
        while m < n
            invariant
                i + 1 <= m <= n,
                i < n,
                n == self.buf@.len(),
                rest@ == self.buf@.subrange(i + 1, m as int),
                line@ == self.buf@.take(i as int),
                *self == *old(self),
            decreases n - m,
        {
            rest.push(self.buf[m]);
            proof {
                assert(self.buf@.subrange(i + 1, m + 1) =~= self.buf@.subrange(i + 1, m as int).push(
                    self.buf@[m as int],
                ));
            }
            m = m + 1;
        }
        proof {
            assert(rest@ =~= self.buf@.skip(i + 1));
        }
        self.buf = rest;
        proof {
            assert(0 <= i < old(self).buf@.len() && old(self).buf@[i as int] == 10u8 && forall|
                j: int,
            |
                0 <= j < i ==> old(self).buf@[j] != 10u8);
            let w = choose|w: int|
                0 <= w < old(self).buf@.len() && old(self).buf@[w] == 10u8 && forall|j: int|
                    0 <= j < w ==> old(self).buf@[j] != 10u8;
            assert(newline_at(old(self).pending()) == Some(w));
            assert(w == i as int) by {
                if w < i {
                    assert(old(self).buf@[w] != 10u8);
                } else if w > i {
                    assert(old(self).buf@[i as int] != 10u8);
                }
            }
        }
        Some(line)
    }

    /// Hands out what remains after the last newline once the stream has
    /// ended, or nothing when the stream ended on a record boundary.
    pub fn finish(&mut self) -> (r: Option<Vec<u8>>)
        ensures
            final(self).pending() == Seq::<u8>::empty(),
            r matches Some(line) ==> line@ == old(self).pending() && old(self).pending().len() > 0,
            r is None ==> old(self).pending().len() == 0,
    {
        if self.buf.len() == 0 {
            return None;
        }
        let mut rest: Vec<u8> = Vec::new();
        core::mem::swap(&mut self.buf, &mut rest);
        Some(rest)
    }
}

} // verus!
