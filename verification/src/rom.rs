//! Read-only boot memory: the same read behaviour as main memory, while every
//! write fails with `StoreAccessFault` and leaves the region untouched.

use vstd::prelude::*;

use crate::bus::{Device, Width};
use crate::exception::RVException;
use crate::ram::zeroed_bytes;

verus! {

/// Boot memory. The view is the byte contents.
pub struct ROM {
    memory: Vec<u8>,
}

impl View for ROM {
    type V = Seq<u8>;

    closed spec fn view(&self) -> Seq<u8> {
        self.memory@
    }
}

impl ROM {
    /// A region of `size` zero bytes.
    pub fn new(size: usize) -> (r: Self)
        ensures
            r@.len() == size,
            forall|j: int| 0 <= j < size ==> r@[j] == 0u8,
    {
        ROM { memory: zeroed_bytes(size) }
    }

    /// Overwrite a prefix of the region with `data`. This models loading the
    /// boot image at construction time; the bus never writes here.
    pub fn initialize(&mut self, data: Vec<u8>)
        requires
            data@.len() <= old(self)@.len(),
        ensures
            final (self)@ == data@ + old(self)@.skip(data@.len() as int),
    {
        let n = data.len();
        let mut k: usize = 0;
        while k < n
            invariant
                k <= n,
                n == data@.len() <= self@.len(),
                self@.len() == old(self)@.len(),
                forall|j: int| 0 <= j < k ==> self@[j] == data@[j],
                forall|j: int| k <= j < self@.len() ==> self@[j] == old(self)@[j],
            decreases n - k,
        {
            self.memory.set(k, data[k]);
            k = k + 1;
        }
        proof {
            assert(self@ =~= data@ + old(self)@.skip(data@.len() as int));
        }
    }
}

impl Device for ROM {
    open spec fn contents(&self) -> Seq<u8> {
        self@
    }

    open spec fn writable() -> bool {
        false
    }

    fn size(&self) -> (n: usize) {
        self.memory.len()
    }

    fn read(&self, offset: u64, width: Width) -> (r: Result<u64, RVException>) {
        let len = self.memory.len() as u64;
        let nb = width.bytes();
        if nb <= len && offset <= len - nb {
            let idx = offset as usize;
            match width {
                Width::Byte => Ok(self.memory[idx] as u64),
                Width::Half => Ok(
                    (self.memory[idx] as u64) | ((self.memory[idx + 1] as u64) << 8u64),
                ),
                Width::Word => Ok(
                    (self.memory[idx] as u64) | ((self.memory[idx + 1] as u64) << 8u64) | ((
                    self.memory[idx + 2] as u64) << 16u64) | ((self.memory[idx + 3] as u64)
                        << 24u64),
                ),
                Width::Double => Ok(
                    (self.memory[idx] as u64) | ((self.memory[idx + 1] as u64) << 8u64) | ((
                    self.memory[idx + 2] as u64) << 16u64) | ((self.memory[idx + 3] as u64)
                        << 24u64) | ((self.memory[idx + 4] as u64) << 32u64) | ((self.memory[idx
                        + 5] as u64) << 40u64) | ((self.memory[idx + 6] as u64) << 48u64) | ((
                    self.memory[idx + 7] as u64) << 56u64),
                ),
            }
        } else {
            Err(RVException::LoadAccessFault)
        }
    }

    fn write(&mut self, _offset: u64, _width: Width, _value: u64) -> (r: Result<(), RVException>) {
        Err(RVException::StoreAccessFault)
    }
}

} // verus!
