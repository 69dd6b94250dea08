use vstd::prelude::*;

verus! {

/// `whence` code that asks for the total length instead of moving.
pub const AVSEEK_SIZE: i32 = 65536;

/// End-of-file code handed back by a read that has nothing left.
pub const AVERROR_EOF: i32 = -541478725;

/// A seekable in-memory byte buffer with a read/write position, as the
/// demuxer and muxer callbacks see it.
pub struct ByteCursor {
    data: Vec<u8>,
    pos: usize,
}

/// Where a seek is measured from.
pub enum Whence {
    FromStart,
    FromCurrent,
    FromEnd,
    QuerySize,
}

/// The meaning of a backend `whence` code, if it has one.
pub open spec fn spec_whence(code: i32) -> Option<Whence> {
    if code == 0 {
        Some(Whence::FromStart)
    } else if code == 1 {
        Some(Whence::FromCurrent)
    } else if code == 2 {
        Some(Whence::FromEnd)
    } else if code == AVSEEK_SIZE {
        Some(Whence::QuerySize)
    } else {
        None
    }
}

/// The position a seek aims at, before it is checked against the buffer.
pub open spec fn seek_target(pos: int, len: int, offset: int, whence: Whence) -> int {
    match whence {
        Whence::FromStart => offset,
        Whence::FromCurrent => pos + offset,
        Whence::FromEnd => len + offset,
        Whence::QuerySize => pos,
    }
}

/// What a write of `src` at `pos` leaves in a buffer holding `data`:
/// the bytes before `pos`, then `src`, then whatever lay beyond the written range.
pub open spec fn spec_write(data: Seq<u8>, pos: int, src: Seq<u8>) -> Seq<u8> {
    if pos + src.len() >= data.len() {
        data.subrange(0, pos) + src
    } else {
        data.subrange(0, pos) + src + data.subrange(pos + src.len(), data.len() as int)
    }
}

pub fn whence_from_code(code: i32) -> (r: Option<Whence>)
    ensures
        r == spec_whence(code),
{
    if code == 0 {
        Some(Whence::FromStart)
    } else if code == 1 {
        Some(Whence::FromCurrent)
    } else if code == 2 {
        Some(Whence::FromEnd)
    } else if code == AVSEEK_SIZE {
        Some(Whence::QuerySize)
    } else {
        None
    }
}

impl ByteCursor {
    /// The bytes held.
    pub closed spec fn bytes(&self) -> Seq<u8> {
        self.data@
    }

    /// The current position.
    pub closed spec fn position(&self) -> int {
        self.pos as int
    }

    /// The position never lies past the end of the buffer, and every offset
    /// into the buffer fits the backend's signed 64-bit offsets.
    pub open spec fn wf(&self) -> bool {
        0 <= self.position() <= self.bytes().len() <= i64::MAX
    }

    pub fn new(data: Vec<u8>) -> (r: ByteCursor)
        requires
            data@.len() <= i64::MAX,
        ensures
            r.wf(),
            r.bytes() == data@,
            r.position() == 0,
    {
        ByteCursor { data, pos: 0 }
    }

    pub fn len(&self) -> (r: usize)
        ensures
            r == self.bytes().len(),
    {
        self.data.len()
    }

    pub fn pos(&self) -> (r: usize)
        ensures
            r == self.position(),
    {
        self.pos
    }

    /// Hands back the whole buffer.
    pub fn into_inner(self) -> (r: Vec<u8>)
        ensures
            r@ == self.bytes(),
    {
        self.data
    }

    /// Copies into `buf` as many bytes as are left, up to its length, and
    /// moves past them. Answers the count, or `AVERROR_EOF` when nothing is left.
    pub fn read_or_eof(&mut self, buf: &mut [u8]) -> (r: i32)
        requires
            old(self).wf(),
            old(buf)@.len() <= i32::MAX,
        ensures
            final(self).wf(),
            final(self).bytes() == old(self).bytes(),
            ({
                let n = if old(buf)@.len() <= old(self).bytes().len() - old(self).position() {
                    old(buf)@.len() as int
                } else {
                    old(self).bytes().len() - old(self).position()
                };
                &&& final(self).position() == old(self).position() + n
                &&& final(buf)@.len() == old(buf)@.len()
                &&& final(buf)@.subrange(0, n) == old(self).bytes().subrange(
                    old(self).position(),
                    old(self).position() + n,
                )
                &&& final(buf)@.subrange(n, old(buf)@.len() as int) == old(buf)@.subrange(
                    n,
                    old(buf)@.len() as int,
                )
                &&& r == (if n == 0 {
                    AVERROR_EOF as int
                } else {
                    n
                })
            }),
    {
        let left = self.data.len() - self.pos;
        let n: usize = if buf.len() <= left {
            buf.len()
        } else {
            left
        };
        let ghost start = self.pos as int;
        let ghost buf0 = buf@;
        let p = self.pos;
        let len = self.data.len();
        let mut i: usize = 0;
        while i < n
            invariant
                0 <= i <= n,
                p == start,
                self.data@.len() == len,
                n <= buf.len(),
                start + n <= self.data@.len(),
                self.data@.len() <= i64::MAX,
                self.pos == start,
                buf@.len() == buf0.len(),
                forall|k: int| 0 <= k < i ==> buf@[k] == self.data@[start + k],
                forall|k: int| n <= k < buf@.len() ==> buf@[k] == buf0[k],
            decreases n - i,
        {
            buf[i] = self.data[p + i];
            i = i + 1;
        }
        self.pos = self.pos + n;
        assert(buf@.subrange(0, n as int) =~= self.data@.subrange(start, start + n));
        assert(buf@.subrange(n as int, buf@.len() as int) =~= buf0.subrange(
            n as int,
            buf0.len() as int,
        ));
        if n == 0 {
            AVERROR_EOF
        } else {
            n as i32
        }
    }

    /// Writes all of `src` at the position, overwriting what lies there and
    /// growing the buffer as needed, and moves past it.
    pub fn write_all(&mut self, src: &[u8]) -> (r: bool)
        requires
            old(self).wf(),
        ensures
            final(self).wf(),
            r == (old(self).position() + src@.len() <= i64::MAX && old(self).position() + src@.len() <= usize::MAX),
            r ==> final(self).bytes() == spec_write(
                old(self).bytes(),
                old(self).position(),
                src@,
            ),
            r ==> final(self).position() == old(self).position() + src@.len(),
            !r ==> *final(self) == *old(self),
    {
        if src.len() as u64 > i64::MAX as u64 - self.pos as u64 || src.len() > usize::MAX - self.pos {
            return false;
        }
        let ghost data0 = self.data@;
        let ghost start = self.pos as int;
        let mut i: usize = 0;
        while i < src.len()
            invariant
                0 <= i <= src@.len(),
                start + src@.len() <= i64::MAX,
                start + src@.len() <= usize::MAX,
                self.pos == start + i,
                0 <= start <= data0.len(),
                self.data@.len() == if start + i <= data0.len() {
                    data0.len() as int
                } else {
                    start + i
                },
                forall|k: int| 0 <= k < start ==> self.data@[k] == data0[k],
                forall|j: int| start <= j < start + i ==> self.data@[j] == src@[j - start],
                forall|k: int| start + i <= k < self.data@.len() ==> self.data@[k] == data0[k],
            decreases src@.len() - i,
        {
            let ghost before = self.data@;
            if self.pos < self.data.len() {
                self.data.set(self.pos, src[i]);
                assert(self.data@ == before.update(start + i, src@[i as int]));
            } else {
                self.data.push(src[i]);
                assert(self.data@ == before.push(src@[i as int]));
            }
            self.pos = self.pos + 1;
            i = i + 1;
        }
        assert(self.data@ =~= spec_write(data0, start, src@));
        true
    }

    /// Moves the position as `whence` says and answers the new position, or,
    /// for `AVSEEK_SIZE`, answers the length and stays. A target outside the
    /// buffer, or an unknown `whence`, answers -1 and leaves the cursor as it was.
    pub fn seek(&mut self, offset: i64, whence: i32) -> (r: i64)
        requires
            old(self).wf(),
        ensures
            final(self).wf(),
            final(self).bytes() == old(self).bytes(),
            match spec_whence(whence) {
                None => r == -1 && final(self).position() == old(self).position(),
                Some(Whence::QuerySize) => {
                    &&& r == old(self).bytes().len()
                    &&& final(self).position() == old(self).position()
                },
                Some(w) => {
                    let t = seek_target(
                        old(self).position(),
                        old(self).bytes().len() as int,
                        offset as int,
                        w,
                    );
                    if 0 <= t <= old(self).bytes().len() {
                        r == t && final(self).position() == t
                    } else {
                        r == -1 && final(self).position() == old(self).position()
                    }
                },
            },
    {
        let len = self.data.len();
        let len_i: i64 = len as i64;
        let pos_i: i64 = self.pos as i64;
        let base: i64 = match whence_from_code(whence) {
            None => {
                return -1;
            },
            Some(Whence::QuerySize) => {
                return len_i;
            },
            Some(Whence::FromStart) => 0,
            Some(Whence::FromCurrent) => pos_i,
            Some(Whence::FromEnd) => len_i,
        };
        if offset < 0 - base || offset > len_i - base {
            return -1;
        }
        let target: i64 = base + offset;
        self.pos = target as usize;
        target
    }
}

} // verus!
