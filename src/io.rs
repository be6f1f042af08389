use vstd::prelude::*;

verus! {

/// A randomly addressable source of bytes: a disk image, a device or a buffer.
///
/// Implement this trait to read a volume from anything. `image` is the
/// sequence of bytes the source holds; reading never changes it.
pub trait Read {
    /// The bytes of the source, from position 0.
    spec fn image(&self) -> Seq<u8>;

    /// Fills `buffer` with the bytes at `position`. A read is exact: it
    /// either fills the whole buffer with those bytes or fails.
    fn read(&mut self, position: usize, buffer: &mut [u8]) -> (r: Option<()>)
        ensures
            final(self).image() == old(self).image(),
            final(buffer)@.len() == old(buffer)@.len(),
            r is Some ==> position + old(buffer)@.len() <= old(self).image().len(),
            r is Some ==> final(buffer)@ == old(self).image().subrange(
                position as int,
                position + old(buffer)@.len(),
            ),
    ;
}

/// A source whose bytes are held in memory.
pub struct MemoryDevice {
    data: Vec<u8>,
}

impl MemoryDevice {
    /// A source holding `data`.
    pub fn new(data: Vec<u8>) -> (r: MemoryDevice)
        ensures
            r.image() == data@,
    {
        MemoryDevice { data }
    }
}

impl Read for MemoryDevice {
    closed spec fn image(&self) -> Seq<u8> {
        self.data@
    }

    fn read(&mut self, position: usize, buffer: &mut [u8]) -> (r: Option<()>) {
        let len = self.data.len();
        if position > len || buffer.len() > len - position {
            return None;
        }
        let n = buffer.len();
        let mut i: usize = 0;
        while i < n
            invariant
                n == buffer@.len(),
                n == old(buffer)@.len(),
                len == self.data@.len(),
                position + n <= len,
                i <= n,
                forall|k: int|
                    0 <= k < i ==> #[trigger] buffer@[k] == self.data@[position + k],
            decreases n - i,
        {
            buffer[i] = self.data[position + i];
            i = i + 1;
        }
        assert(buffer@ =~= self.data@.subrange(position as int, position + n));
        Some(())
    }
}

} // verus!
