use vstd::prelude::*;

verus! {

/// Why decoding a record failed.
#[derive(Clone, Copy, Debug, PartialEq, Eq, Structural)]
pub enum DecodeError {
    /// A read would go past the end of the byte source.
    OutOfBounds,
    /// A valid identifier that the archive index does not know.
    UnresolvedReference,
}

/// `n` bytes starting at `pos` lie inside `data`.
pub open spec fn fits(data: Seq<u8>, pos: int, n: int) -> bool {
    0 <= pos && 0 <= n && pos + n <= data.len()
}

pub open spec fn u16_le(data: Seq<u8>, pos: int) -> u16 {
    (data[pos] as int + data[pos + 1] as int * 0x100) as u16
}

pub open spec fn u32_le(data: Seq<u8>, pos: int) -> u32 {
    (data[pos] as int + data[pos + 1] as int * 0x100 + data[pos + 2] as int * 0x1_0000
        + data[pos + 3] as int * 0x100_0000) as u32
}

pub open spec fn u64_le(data: Seq<u8>, pos: int) -> u64 {
    (u32_le(data, pos) as int + u32_le(data, pos + 4) as int * 0x1_0000_0000) as u64
}

/// A little-endian cursor over an owned byte source. The position may stand
/// anywhere; every read checks that its bytes lie inside the source.
pub struct ByteReader {
    data: Vec<u8>,
    pos: usize,
}

impl ByteReader {
    pub closed spec fn data(&self) -> Seq<u8> {
        self.data@
    }

    pub closed spec fn pos(&self) -> int {
        self.pos as int
    }

    pub fn new(data: Vec<u8>) -> (r: ByteReader)
        ensures
            r.data() == data@,
            r.pos() == 0,
    {
        ByteReader { data, pos: 0 }
    }

    pub fn at(data: Vec<u8>, pos: usize) -> (r: ByteReader)
        ensures
            r.data() == data@,
            r.pos() == pos,
    {
        ByteReader { data, pos }
    }

    pub fn position(&self) -> (r: usize)
        ensures
            r == self.pos(),
    {
        self.pos
    }

    pub fn len(&self) -> (r: usize)
        ensures
            r == self.data().len(),
    {
        self.data.len()
    }

    /// Moves the cursor to `pos`; nothing is read.
    pub fn seek(&mut self, pos: usize)
        ensures
            final(self).data() == old(self).data(),
            final(self).pos() == pos,
    {
        self.pos = pos;
    }

    /// Whether `n` bytes can be read at the cursor.
    pub fn has(&self, n: usize) -> (r: bool)
        ensures
            r == fits(self.data(), self.pos(), n as int),
            self.data().len() <= usize::MAX,
    {
        self.pos <= self.data.len() && self.data.len() - self.pos >= n
    }

    pub fn read_u8(&mut self) -> (res: Result<u8, DecodeError>)
        ensures
            final(self).data() == old(self).data(),
            fits(old(self).data(), old(self).pos(), 1) ==> res == Ok::<u8, DecodeError>(
                old(self).data()[old(self).pos()],
            ) && final(self).pos() == old(self).pos() + 1,
            !fits(old(self).data(), old(self).pos(), 1) ==> res == Err::<u8, DecodeError>(
                DecodeError::OutOfBounds,
            ) && final(self).pos() == old(self).pos(),
    {
        if self.pos > self.data.len() || self.data.len() - self.pos < 1 {
            return Err(DecodeError::OutOfBounds);
        }
        let b = self.data[self.pos];
        self.pos = self.pos + 1;
        Ok(b)
    }

    pub fn read_u16(&mut self) -> (res: Result<u16, DecodeError>)
        ensures
            final(self).data() == old(self).data(),
            fits(old(self).data(), old(self).pos(), 2) ==> res == Ok::<u16, DecodeError>(
                u16_le(old(self).data(), old(self).pos()),
            ) && final(self).pos() == old(self).pos() + 2,
            !fits(old(self).data(), old(self).pos(), 2) ==> res == Err::<u16, DecodeError>(
                DecodeError::OutOfBounds,
            ) && final(self).pos() == old(self).pos(),
    {
        if self.pos > self.data.len() || self.data.len() - self.pos < 2 {
            return Err(DecodeError::OutOfBounds);
        }
        let p = self.pos;
        let v: u16 = self.data[p] as u16 + (self.data[p + 1] as u16) * 0x100;
        self.pos = p + 2;
        Ok(v)
    }

    pub fn read_u32(&mut self) -> (res: Result<u32, DecodeError>)
        ensures
            final(self).data() == old(self).data(),
            fits(old(self).data(), old(self).pos(), 4) ==> res == Ok::<u32, DecodeError>(
                u32_le(old(self).data(), old(self).pos()),
            ) && final(self).pos() == old(self).pos() + 4,
            !fits(old(self).data(), old(self).pos(), 4) ==> res == Err::<u32, DecodeError>(
                DecodeError::OutOfBounds,
            ) && final(self).pos() == old(self).pos(),
    {
        if self.pos > self.data.len() || self.data.len() - self.pos < 4 {
            return Err(DecodeError::OutOfBounds);
        }
        let p = self.pos;
        let v: u32 = self.data[p] as u32 + (self.data[p + 1] as u32) * 0x100 + (self.data[p
            + 2] as u32) * 0x1_0000 + (self.data[p + 3] as u32) * 0x100_0000;
        self.pos = p + 4;
        Ok(v)
    }

    pub fn read_u64(&mut self) -> (res: Result<u64, DecodeError>)
        ensures
            final(self).data() == old(self).data(),
            fits(old(self).data(), old(self).pos(), 8) ==> res == Ok::<u64, DecodeError>(
                u64_le(old(self).data(), old(self).pos()),
            ) && final(self).pos() == old(self).pos() + 8,
            !fits(old(self).data(), old(self).pos(), 8) ==> res == Err::<u64, DecodeError>(
                DecodeError::OutOfBounds,
            ) && final(self).pos() == old(self).pos(),
    {
        if self.pos > self.data.len() || self.data.len() - self.pos < 8 {
            return Err(DecodeError::OutOfBounds);
        }
        let lo = self.read_u32().unwrap();
        let hi = self.read_u32().unwrap();
        Ok(lo as u64 + (hi as u64) * 0x1_0000_0000)
    }
}

} // verus!
