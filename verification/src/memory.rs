use vstd::prelude::*;

verus! {

/// Whether the region `[offset, offset + size)` lies inside a memory of `len` bytes.
pub open spec fn region_in_bounds(len: nat, offset: int, size: int) -> bool {
    0 <= offset && 0 <= size && offset + size <= len
}

/// `mem` with the bytes from `offset` on replaced by `data`.
pub open spec fn write_region(mem: Seq<u8>, offset: int, data: Seq<u8>) -> Seq<u8> {
    mem.subrange(0, offset) + data + mem.subrange(offset + data.len(), mem.len() as int)
}

/// Reading back a region that was just written gives the bytes written, the
/// memory keeps its size, and every byte outside the region keeps its value.
pub proof fn lemma_read_after_write(mem: Seq<u8>, offset: int, data: Seq<u8>)
    requires
        region_in_bounds(mem.len(), offset, data.len() as int),
    ensures
        write_region(mem, offset, data).len() == mem.len(),
        write_region(mem, offset, data).subrange(offset, offset + data.len()) == data,
        forall|j: int|
            0 <= j < mem.len() && !(offset <= j < offset + data.len()) ==> #[trigger] write_region(
                mem,
                offset,
                data,
            )[j] == mem[j],
{
    assert(write_region(mem, offset, data).subrange(offset, offset + data.len()) =~= data);
}

/// A region of a memory of any length is accessible exactly when it ends at or
/// before the memory's end: no bound other than the memory's own length applies.
pub proof fn lemma_access_bounded_by_length_only(len: nat, offset: int, size: int)
    requires
        0 <= offset,
        0 <= size,
    ensures
        region_in_bounds(len, offset, size) <==> offset + size <= len,
        region_in_bounds(len, 0, len as int),
{
}

/// An access to linear memory that falls outside it.
#[derive(Debug, Clone, Copy, PartialEq, Eq)]
pub struct MemoryError {
    pub offset: u32,
    pub size: usize,
    pub memory_len: usize,
}

/// The linear memory of a WebAssembly instance: a flat, bounded array of bytes.
pub struct LinearMemory {
    bytes: Vec<u8>,
}

impl View for LinearMemory {
    type V = Seq<u8>;

    closed spec fn view(&self) -> Seq<u8> {
        self.bytes@
    }
}

impl LinearMemory {
    /// A memory of `size` zeroed bytes.
    pub fn new(size: usize) -> (m: Self)
        ensures
            m@ == Seq::new(size as nat, |i: int| 0u8),
    {
        let mut bytes: Vec<u8> = Vec::new();
        let mut i: usize = 0;
        while i < size
            invariant
                i <= size,
                bytes@ == Seq::new(i as nat, |j: int| 0u8),
            decreases size - i,
        {
            bytes.push(0u8);
            i = i + 1;
            assert(bytes@ =~= Seq::new(i as nat, |j: int| 0u8));
        }
        LinearMemory { bytes }
    }

    /// A memory whose contents are `bytes`.
    pub fn from_bytes(bytes: Vec<u8>) -> (m: Self)
        ensures
            m@ == bytes@,
    {
        LinearMemory { bytes }
    }

    /// The contents of the memory.
    pub fn into_bytes(self) -> (bytes: Vec<u8>)
        ensures
            bytes@ == self@,
    {
        self.bytes
    }

    /// The contents of the memory, borrowed.
    pub fn as_bytes(&self) -> (bytes: &[u8])
        ensures
            bytes@ == self@,
    {
        self.bytes.as_slice()
    }

    /// The size of the memory in bytes.
    pub fn len(&self) -> (n: usize)
        ensures
            n == self@.len(),
    {
        self.bytes.len()
    }

    /// Copies `size` bytes starting at `offset` out of the memory; fails when the
    /// region does not lie inside the memory.
    pub fn get(&self, offset: u32, size: usize) -> (r: Result<Vec<u8>, MemoryError>)
        ensures
            r is Ok <==> region_in_bounds(self@.len(), offset as int, size as int),
            r is Ok <==> offset as int + size as int <= self@.len(),
            r matches Ok(v) ==> v@ == self@.subrange(offset as int, offset + size),
            r matches Err(e) ==> e == (MemoryError {
                offset,
                size,
                memory_len: self@.len() as usize,
            }),
    {
        let len = self.bytes.len();
        let start = offset as usize;
        if start > len || size > len - start {
            return Err(MemoryError { offset, size, memory_len: len });
        }
        let mut out: Vec<u8> = Vec::new();
        let mut i: usize = 0;
        while i < size
            invariant
                len == self@.len(),
                start == offset,
                start + size <= len,
                i <= size,
                out@ == self@.subrange(start as int, start + i),
            decreases size - i,
        {
            out.push(self.bytes[start + i]);
            i = i + 1;
            assert(out@ =~= self@.subrange(start as int, start + i));
        }
        Ok(out)
    }

    /// Writes `value` into the memory from `offset` on; fails, and leaves the
    /// memory as it was, when the region does not lie inside the memory.
    pub fn set(&mut self, offset: u32, value: &[u8]) -> (r: Result<(), MemoryError>)
        ensures
            r is Ok <==> region_in_bounds(old(self)@.len(), offset as int, value@.len() as int),
            r is Ok <==> offset as int + value@.len() <= old(self)@.len(),
            r is Ok ==> final(self)@ == write_region(old(self)@, offset as int, value@),
            r is Err ==> final(self)@ == old(self)@,
            r matches Err(e) ==> e == (MemoryError {
                offset,
                size: value@.len() as usize,
                memory_len: old(self)@.len() as usize,
            }),
    {
        let len = self.bytes.len();
        let start = offset as usize;
        let size = value.len();
        if start > len || size > len - start {
            return Err(MemoryError { offset, size, memory_len: len });
        }
        let ghost before = self.bytes@;
        let mut i: usize = 0;
        while i < size
            invariant
                len == before.len(),
                self.bytes@.len() == len,
                start == offset,
                size == value@.len(),
                start + size <= len,
                i <= size,
                forall|j: int| 0 <= j < start ==> self.bytes@[j] == before[j],
                forall|j: int| start <= j < start + i ==> self.bytes@[j] == value@[j - start],
                forall|j: int| start + i <= j < len ==> self.bytes@[j] == before[j],
            decreases size - i,
        {
            self.bytes.set(start + i, value[i]);
            i = i + 1;
        }
        assert(self.bytes@ =~= write_region(before, start as int, value@));
        Ok(())
    }
}

} // verus!
