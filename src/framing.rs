use vstd::prelude::*;
use std::sync::Arc;

verus! {

/// Newline framing: each line is one frame, cut to `max_line_length` bytes when set.
#[derive(Clone, Copy, Debug, PartialEq, Eq, Structural)]
pub struct NewlineDelimitedFraming {
    pub max_line_length: Option<u64>,
}

#[derive(Clone, Copy, Debug, PartialEq, Eq, Structural)]
pub enum FramingMethod {
    Newline(NewlineDelimitedFraming),
}

/// How a buffer is cut into frames.
#[derive(Clone, Copy, Debug, PartialEq, Eq, Structural)]
pub struct Framing {
    pub method: FramingMethod,
}

pub const NEWLINE: u8 = 10;

/// The position of the first newline at or after `from`, or the buffer's length.
pub open spec fn next_newline(buf: Seq<u8>, from: int) -> int
    decreases buf.len() - from,
{
    if from >= buf.len() {
        buf.len() as int
    } else if buf[from] == NEWLINE {
        from
    } else {
        next_newline(buf, from + 1)
    }
}

pub proof fn lemma_next_newline_bounds(buf: Seq<u8>, from: int)
    requires
        0 <= from <= buf.len(),
    ensures
        from <= next_newline(buf, from) <= buf.len(),
    decreases buf.len() - from,
{
    if from < buf.len() && buf[from] != NEWLINE {
        lemma_next_newline_bounds(buf, from + 1);
    }
}

/// The length a line of `len` bytes is cut to.
pub open spec fn cut_length(len: int, max_line_length: Option<u64>) -> int {
    match max_line_length {
        Some(m) if m < len => m as int,
        _ => len,
    }
}

/// The frames of `buf` from `offset` on under newline framing: each line, without its
/// newline and cut to the maximum length; a final newline opens no empty frame.
pub open spec fn line_frames(buf: Seq<u8>, offset: int, max_line_length: Option<u64>) -> Seq<Seq<u8>>
    decreases buf.len() - offset,
{
    if offset >= buf.len() || offset < 0 {
        Seq::empty()
    } else {
        let end = next_newline(buf, offset);
        if end < offset || end >= buf.len() {
            seq![buf.subrange(offset, offset + cut_length(buf.len() - offset, max_line_length))]
        } else {
            seq![buf.subrange(offset, offset + cut_length(end - offset, max_line_length))]
                + line_frames(buf, end + 1, max_line_length)
        }
    }
}

/// Cuts a byte buffer into frames, one at a time. Without framing the whole buffer is
/// one frame.
pub struct FramingIterator<'a> {
    pub framing: Option<Arc<Framing>>,
    pub buf: &'a [u8],
    pub offset: usize,
}

/// The first newline at or after `from`, or the buffer's length.
fn find_newline(buf: &[u8], from: usize) -> (r: usize)
    requires
        from <= buf@.len(),
    ensures
        r as int == next_newline(buf@, from as int),
{
    let mut i = from;
    while i < buf.len()
        invariant
            from <= i <= buf@.len(),
            next_newline(buf@, from as int) == next_newline(buf@, i as int),
        decreases buf@.len() - i,
    {
        if buf[i] == NEWLINE {
            return i;
        }
        i = i + 1;
    }
    i
}

/// A copy of `buf[start..end]`.
fn copy_range(buf: &[u8], start: usize, end: usize) -> (r: Vec<u8>)
    requires
        start <= end <= buf@.len(),
    ensures
        r@ == buf@.subrange(start as int, end as int),
{
    let mut out: Vec<u8> = Vec::new();
    let mut i = start;
    while i < end
        invariant
            start <= i <= end <= buf@.len(),
            out@ == buf@.subrange(start as int, i as int),
        decreases end - i,
    {
        out.push(buf[i]);
        assert(buf@.subrange(start as int, i + 1) =~= buf@.subrange(start as int, i as int).push(buf@[i as int]));
        i = i + 1;
    }
    out
}

impl<'a> FramingIterator<'a> {
    pub fn new(framing: Option<Arc<Framing>>, buf: &'a [u8]) -> (r: FramingIterator<'a>)
        ensures
            r.framing == framing,
            r.buf == buf,
            r.offset == 0,
    {
        FramingIterator { framing, buf, offset: 0 }
    }

    /// The frames not yet handed out, in order.
    pub open spec fn remaining(&self) -> Seq<Seq<u8>> {
        match self.framing {
            None => if self.offset >= self.buf@.len() {
                Seq::empty()
            } else {
                seq![self.buf@]
            },
            Some(f) => match f.method {
                FramingMethod::Newline(n) => line_frames(self.buf@, self.offset as int, n.max_line_length),
            },
        }
    }

    /// Hands out the next frame.
    pub fn next(&mut self) -> (r: Option<Vec<u8>>)
        ensures
            final(self).framing == old(self).framing,
            final(self).buf == old(self).buf,
            match r {
                None => old(self).remaining().len() == 0 && final(self).remaining().len() == 0,
                Some(v) => old(self).remaining().len() > 0 && v@ == old(self).remaining()[0]
                    && final(self).remaining() == old(self).remaining().drop_first(),
            },
    {
        if self.offset >= self.buf.len() {
            return None;
        }
        match &self.framing {
            Some(framing) => {
                let max_line_length = match framing.method {
                    FramingMethod::Newline(n) => n.max_line_length,
                };
                let prev = self.offset;
                let end = find_newline(self.buf, prev);
                proof {
                    lemma_next_newline_bounds(self.buf@, prev as int);
                }
                let full = end - prev;
                let length: usize = match max_line_length {
                    Some(m) => if m < full as u64 { m as usize } else { full },
                    None => full,
                };
                let frame = copy_range(self.buf, prev, prev + length);
                if end < self.buf.len() {
                    self.offset = end + 1;
                    proof {
                        let rest = line_frames(self.buf@, end + 1, max_line_length);
                        assert(old(self).remaining() == seq![frame@] + rest);
                        assert((seq![frame@] + rest).drop_first() =~= rest);
                    }
                } else {
                    self.offset = end;
                    proof {
                        assert(old(self).remaining() == seq![frame@]);
                        assert(seq![frame@].drop_first() =~= Seq::<Seq<u8>>::empty());
                    }
                }
                Some(frame)
            },
            None => {
                self.offset = self.buf.len();
                Some(copy_range(self.buf, 0, self.buf.len()))
            },
        }
    }

    /// Hands out every remaining frame, in order.
    pub fn collect_frames(&mut self) -> (r: Vec<Vec<u8>>)
        ensures
            r@.len() == old(self).remaining().len(),
            forall|i: int| 0 <= i < r@.len() ==> (#[trigger] r@[i])@ == old(self).remaining()[i],
    {
        let mut out: Vec<Vec<u8>> = Vec::new();
        let ghost all = self.remaining();
        loop
            invariant
                all == old(self).remaining(),
                out@.len() + self.remaining().len() == all.len(),
                forall|i: int| 0 <= i < out@.len() ==> (#[trigger] out@[i])@ == all[i],
                forall|i: int| 0 <= i < self.remaining().len() ==> #[trigger] self.remaining()[i] == all[out@.len() + i],
            decreases self.remaining().len(),
        {
            let ghost before = self.remaining();
            match self.next() {
                None => {
                    return out;
                },
                Some(v) => {
                    proof {
                        assert(v@ == all[out@.len() as int]);
                        assert forall|i: int| 0 <= i < self.remaining().len() implies
                            #[trigger] self.remaining()[i] == all[out@.len() + 1 + i] by {
                            assert(self.remaining()[i] == before[i + 1]);
                        }
                    }
                    out.push(v);
                },
            }
        }
    }
}

} // verus!
