use vstd::prelude::*;

verus! {

/// Largest program image: the space from 0x200 to the end of memory.
pub const MAX_SIZE: usize = 4096 - 512;

/// A program image.
pub struct Rom {
    pub data: Vec<u8>,
    pub size: usize,
}

impl Rom {
    /// The program image made of `bytes`, truncated to `MAX_SIZE` bytes.
    pub fn new(bytes: &[u8]) -> (r: Rom)
        ensures
            r.size as int == if bytes@.len() < MAX_SIZE { bytes@.len() as int } else { MAX_SIZE as int },
            r.data@ == bytes@.subrange(0, r.size as int),
    {
        let size: usize = if bytes.len() < MAX_SIZE { bytes.len() } else { MAX_SIZE };
        let mut data: Vec<u8> = Vec::new();
        let mut k: usize = 0;
        while k < size
            invariant
                k <= size,
                size <= bytes@.len(),
                data@ == bytes@.subrange(0, k as int),
            decreases size - k,
        {
            data.push(bytes[k]);
            assert(data@ =~= bytes@.subrange(0, k + 1));
            k = k + 1;
        }
        Rom { data, size }
    }
}

} // verus!
