//! Writable main memory: a fixed-size byte array with little-endian typed
//! access.

use vstd::prelude::*;

use crate::bus::{spec_region_read, spec_region_write, Device, Width};
use crate::exception::RVException;

verus! {

/// Main memory. The view is the byte contents.
pub struct RAM {
    memory: Vec<u8>,
}

impl View for RAM {
    type V = Seq<u8>;

    closed spec fn view(&self) -> Seq<u8> {
        self.memory@
    }
}

/// A zero-filled byte vector of the given length.
pub fn zeroed_bytes(size: usize) -> (r: Vec<u8>)
    ensures
        r@.len() == size,
        forall|j: int| 0 <= j < size ==> r@[j] == 0u8,
{
    let mut v: Vec<u8> = Vec::new();
    let mut k: usize = 0;
    while k < size
        invariant
            k <= size,
            v@.len() == k,
            forall|j: int| 0 <= j < k ==> v@[j] == 0u8,
        decreases size - k,
    {
        v.push(0);
        k = k + 1;
    }
    v
}

impl RAM {
    /// A region of `size` zero bytes.
    pub fn new(size: usize) -> (r: Self)
        ensures
            r@.len() == size,
            forall|j: int| 0 <= j < size ==> r@[j] == 0u8,
    {
        RAM { memory: zeroed_bytes(size) }
    }

    /// Overwrite a prefix of the region with `data`.
    pub fn initialize(&mut self, data: Vec<u8>)
        requires
            data@.len() <= old(self)@.len(),
        ensures
            final (self)@ == data@ + old(self)@.skip(data@.len() as int),
    {
        let n = data.len();
        let mut k: usize = 0;
        while k < n
            invariant
                k <= n,
                n == data@.len() <= self@.len(),
                self@.len() == old(self)@.len(),
                forall|j: int| 0 <= j < k ==> self@[j] == data@[j],
                forall|j: int| k <= j < self@.len() ==> self@[j] == old(self)@[j],
            decreases n - k,
        {
            self.memory.set(k, data[k]);
            k = k + 1;
        }
        proof {
            assert(self@ =~= data@ + old(self)@.skip(data@.len() as int));
        }
    }
}

impl Device for RAM {
    open spec fn contents(&self) -> Seq<u8> {
        self@
    }

    open spec fn writable() -> bool {
        true
    }

    fn size(&self) -> (n: usize) {
        self.memory.len()
    }

    fn read(&self, offset: u64, width: Width) -> (r: Result<u64, RVException>) {
        let len = self.memory.len() as u64;
        let nb = width.bytes();
        if nb <= len && offset <= len - nb {
            let idx = offset as usize;
            match width {
                Width::Byte => Ok(self.memory[idx] as u64),
                Width::Half => Ok(
                    (self.memory[idx] as u64) | ((self.memory[idx + 1] as u64) << 8u64),
                ),
                Width::Word => Ok(
                    (self.memory[idx] as u64) | ((self.memory[idx + 1] as u64) << 8u64) | ((
                    self.memory[idx + 2] as u64) << 16u64) | ((self.memory[idx + 3] as u64)
                        << 24u64),
                ),
                Width::Double => Ok(
                    (self.memory[idx] as u64) | ((self.memory[idx + 1] as u64) << 8u64) | ((
                    self.memory[idx + 2] as u64) << 16u64) | ((self.memory[idx + 3] as u64)
                        << 24u64) | ((self.memory[idx + 4] as u64) << 32u64) | ((self.memory[idx
                        + 5] as u64) << 40u64) | ((self.memory[idx + 6] as u64) << 48u64) | ((
                    self.memory[idx + 7] as u64) << 56u64),
                ),
            }
        } else {
            Err(RVException::LoadAccessFault)
        }
    }

    fn write(&mut self, offset: u64, width: Width, value: u64) -> (r: Result<(), RVException>) {
        let len = self.memory.len() as u64;
        let nb = width.bytes();
        if nb <= len && offset <= len - nb {
            let idx = offset as usize;
            match width {
                Width::Byte => {
                    self.memory.set(idx, value as u8);
                },
                Width::Half => {
                    self.memory.set(idx, value as u8);
                    self.memory.set(idx + 1, (value >> 8u64) as u8);
                },
                Width::Word => {
                    self.memory.set(idx, value as u8);
                    self.memory.set(idx + 1, (value >> 8u64) as u8);
                    self.memory.set(idx + 2, (value >> 16u64) as u8);
                    self.memory.set(idx + 3, (value >> 24u64) as u8);
                },
                Width::Double => {
                    self.memory.set(idx, value as u8);
                    self.memory.set(idx + 1, (value >> 8u64) as u8);
                    self.memory.set(idx + 2, (value >> 16u64) as u8);
                    self.memory.set(idx + 3, (value >> 24u64) as u8);
                    self.memory.set(idx + 4, (value >> 32u64) as u8);
                    self.memory.set(idx + 5, (value >> 40u64) as u8);
                    self.memory.set(idx + 6, (value >> 48u64) as u8);
                    self.memory.set(idx + 7, (value >> 56u64) as u8);
                },
            }
            Ok(())
        } else {
            Err(RVException::StoreAccessFault)
        }
    }
}

} // verus!
