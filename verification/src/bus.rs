//! The memory-mapped bus: a read-only boot region (ROM) and a writable main
//! region (RAM), each a byte-addressed little-endian store with 1/2/4/8-byte
//! access.
//!
//! The spec functions `spec_bus_read` / `spec_bus_write` are the reference for
//! routing: an address is owned by the region whose `[base, base + size)`
//! window contains it, is translated to a region-local offset, and is then
//! subject to the region's own range check for the access width. Reads that
//! miss every region yield `LoadAccessFault`; writes that do not land in RAM
//! yield `StoreAccessFault`.

use vstd::prelude::*;

use crate::exception::RVException;
use crate::ram::RAM;
use crate::rom::ROM;

verus! {

/// A guest-visible bus address.
pub type Address = u64;

/// Base of the read-only boot region.
pub const ROM_BASE: Address = 0x1000;

/// Base of the writable main region.
pub const RAM_BASE: Address = 0x8000_0000;

/// The closed set of access widths, in bytes: 1, 2, 4 or 8.
#[derive(Clone, Copy, Debug, PartialEq, Eq, Structural)]
pub enum Width {
    Byte,
    Half,
    Word,
    Double,
}

/// Number of bytes moved by an access of the given width.
pub open spec fn width_bytes(w: Width) -> u64 {
    match w {
        Width::Byte => 1,
        Width::Half => 2,
        Width::Word => 4,
        Width::Double => 8,
    }
}

impl Width {
    /// Executable counterpart of [`width_bytes`].
    pub fn bytes(&self) -> (n: u64)
        ensures
            n == width_bytes(*self),
    {
        match self {
            Width::Byte => 1,
            Width::Half => 2,
            Width::Word => 4,
            Width::Double => 8,
        }
    }
}

/// Little-endian value of `width_bytes(w)` bytes of `s` starting at index `i`,
/// zero-extended to 64 bits.
pub open spec fn spec_le_read(s: Seq<u8>, i: int, w: Width) -> u64 {
    match w {
        Width::Byte => s[i] as u64,
        Width::Half => (s[i] as u64) | ((s[i + 1] as u64) << 8),
        Width::Word => (s[i] as u64) | ((s[i + 1] as u64) << 8) | ((s[i + 2] as u64) << 16) | ((
        s[i + 3] as u64) << 24),
        Width::Double => (s[i] as u64) | ((s[i + 1] as u64) << 8) | ((s[i + 2] as u64) << 16) | ((
        s[i + 3] as u64) << 24) | ((s[i + 4] as u64) << 32) | ((s[i + 5] as u64) << 40) | ((s[i
            + 6] as u64) << 48) | ((s[i + 7] as u64) << 56),
    }
}

/// `s` with the low `width_bytes(w)` bytes of `v` stored little-endian at
/// index `i`.
pub open spec fn spec_le_write(s: Seq<u8>, i: int, w: Width, v: u64) -> Seq<u8> {
    match w {
        Width::Byte => s.update(i, v as u8),
        Width::Half => s.update(i, v as u8).update(i + 1, (v >> 8) as u8),
        Width::Word => s.update(i, v as u8).update(i + 1, (v >> 8) as u8).update(
            i + 2,
            (v >> 16) as u8,
        ).update(i + 3, (v >> 24) as u8),
        Width::Double => s.update(i, v as u8).update(i + 1, (v >> 8) as u8).update(
            i + 2,
            (v >> 16) as u8,
        ).update(i + 3, (v >> 24) as u8).update(i + 4, (v >> 32) as u8).update(
            i + 5,
            (v >> 40) as u8,
        ).update(i + 6, (v >> 48) as u8).update(i + 7, (v >> 56) as u8),
    }
}

/// A region read: the offset range must lie inside the region, else
/// `LoadAccessFault`.
pub open spec fn spec_region_read(s: Seq<u8>, off: u64, w: Width) -> Result<u64, RVException> {
    if off + width_bytes(w) <= s.len() {
        Ok(spec_le_read(s, off as int, w))
    } else {
        Err(RVException::LoadAccessFault)
    }
}

/// A region write: the offset range must lie inside the region, else
/// `StoreAccessFault`.
pub open spec fn spec_region_write(s: Seq<u8>, off: u64, w: Width, v: u64) -> Result<
    Seq<u8>,
    RVException,
> {
    if off + width_bytes(w) <= s.len() {
        Ok(spec_le_write(s, off as int, w, v))
    } else {
        Err(RVException::StoreAccessFault)
    }
}

/// Whether `a` falls in the window `[base, base + len)`.
pub open spec fn in_window(a: Address, base: Address, len: nat) -> bool {
    base <= a && a - base < len
}

/// Read routing over the bus map.
pub open spec fn spec_bus_read(rom: Seq<u8>, ram: Seq<u8>, a: Address, w: Width) -> Result<
    u64,
    RVException,
> {
    if in_window(a, ROM_BASE, rom.len()) {
        spec_region_read(rom, (a - ROM_BASE) as u64, w)
    } else if in_window(a, RAM_BASE, ram.len()) {
        spec_region_read(ram, (a - RAM_BASE) as u64, w)
    } else {
        Err(RVException::LoadAccessFault)
    }
}

/// Write routing over the bus map: only RAM accepts stores. The result is the
/// new RAM contents; ROM is never modified.
pub open spec fn spec_bus_write(rom: Seq<u8>, ram: Seq<u8>, a: Address, w: Width, v: u64) -> Result<
    Seq<u8>,
    RVException,
> {
    if in_window(a, ROM_BASE, rom.len()) {
        Err(RVException::StoreAccessFault)
    } else if in_window(a, RAM_BASE, ram.len()) {
        spec_region_write(ram, (a - RAM_BASE) as u64, w, v)
    } else {
        Err(RVException::StoreAccessFault)
    }
}

/// A byte-addressed storage device on the bus.
pub trait Device: Sized {
    /// The bytes the device holds.
    spec fn contents(&self) -> Seq<u8>;

    /// Whether stores are accepted (RAM) or refused (ROM).
    spec fn writable() -> bool;

    /// Size of the device in bytes.
    fn size(&self) -> (n: usize)
        ensures
            n == self.contents().len(),
    ;

    /// Typed little-endian read at a region-local offset.
    fn read(&self, offset: u64, width: Width) -> (r: Result<u64, RVException>)
        ensures
            r == spec_region_read(self.contents(), offset, width),
    ;

    /// Typed little-endian write at a region-local offset. On a read-only
    /// device every write fails and nothing changes.
    fn write(&mut self, offset: u64, width: Width, value: u64) -> (r: Result<(), RVException>)
        ensures
            Self::writable() ==> match spec_region_write(
                old(self).contents(),
                offset,
                width,
                value,
            ) {
                Ok(s) => r == Ok::<(), RVException>(()) && final (self).contents() == s,
                Err(e) => r == Err::<(), RVException>(e) && final (self).contents() == old(
                    self,
                ).contents(),
            },
            !Self::writable() ==> r == Err::<(), RVException>(RVException::StoreAccessFault)
                && final (self).contents() == old(self).contents(),
    ;
}

/// The bus holds one RAM and one ROM.
pub struct Bus {
    pub rom: ROM,
    pub ram: RAM,
}

impl Bus {
    /// Routed read; misses yield `LoadAccessFault`.
    pub fn read(&self, address: Address, width: Width) -> (r: Result<u64, RVException>)
        ensures
            r == spec_bus_read(self.rom@, self.ram@, address, width),
    {
        if address >= ROM_BASE && address - ROM_BASE < self.rom.size() as u64 {
            self.rom.read(address - ROM_BASE, width)
        } else if address >= RAM_BASE && address - RAM_BASE < self.ram.size() as u64 {
            self.ram.read(address - RAM_BASE, width)
        } else {
            Err(RVException::LoadAccessFault)
        }
    }

    /// Routed write; only RAM accepts stores, everything else yields
    /// `StoreAccessFault`.
    pub fn write(&mut self, address: Address, width: Width, value: u64) -> (r: Result<
        (),
        RVException,
    >)
        ensures
            final (self).rom@ == old(self).rom@,
            match spec_bus_write(old(self).rom@, old(self).ram@, address, width, value) {
                Ok(s) => r == Ok::<(), RVException>(()) && final (self).ram@ == s,
                Err(e) => r == Err::<(), RVException>(e) && final (self).ram@ == old(self).ram@,
            },
    {
        if address >= ROM_BASE && address - ROM_BASE < self.rom.size() as u64 {
            Err(RVException::StoreAccessFault)
        } else if address >= RAM_BASE && address - RAM_BASE < self.ram.size() as u64 {
            self.ram.write(address - RAM_BASE, width, value)
        } else {
            Err(RVException::StoreAccessFault)
        }
    }
}

} // verus!
