use std::rc::Rc;
use vstd::prelude::*;

use crate::error::Error;
use crate::{rc_as_ref, rc_clone, Method, Resolver};

verus! {

/// The size of the per-device configuration window the memory-mapped
/// backend captures: enough to cover the common and type-specific
/// headers.
pub const ECAM_WINDOW_SIZE: usize = 64;

/// The byte at index `i` of a configuration snapshot, 0 beyond its end.
pub open spec fn byte_at(data: Seq<u8>, i: int) -> u8 {
    if 0 <= i < data.len() {
        data[i]
    } else {
        0
    }
}

/// The little-endian two-byte value at index `i` of a snapshot.
pub open spec fn le16_at(data: Seq<u8>, i: int) -> u16 {
    (byte_at(data, i) + byte_at(data, i + 1) * 0x100) as u16
}

/// The little-endian four-byte value at index `i` of a snapshot.
pub open spec fn le32_at(data: Seq<u8>, i: int) -> u32 {
    (byte_at(data, i) + byte_at(data, i + 1) * 0x100 + byte_at(data, i + 2) * 0x1_0000 + byte_at(
        data,
        i + 3,
    ) * 0x100_0000) as u32
}

fn byte(data: &Vec<u8>, i: usize) -> (r: u8)
    ensures
        r == byte_at(data@, i as int),
{
    if i < data.len() {
        data[i]
    } else {
        0
    }
}

/// One device's configuration-space snapshot, captured by the
/// memory-mapped backend and served read-only. The buffer is shared
/// and never written: every handle cloned from it reads the same
/// bytes.
#[derive(Clone, Debug)]
pub struct Ecam {
    pub data: Rc<Vec<u8>>,
}

impl Ecam {
    /// Wraps a captured window as a read handle.
    pub fn new(data: Vec<u8>) -> (r: Ecam)
        ensures
            *r.data == data,
    {
        Ecam { data: Rc::new(data) }
    }

    /// A handle sharing this handle's buffer.
    pub fn share(&self) -> (r: Ecam)
        ensures
            r == *self,
    {
        Ecam { data: rc_clone(&self.data) }
    }
}

impl Method for Ecam {
    /// The byte of the snapshot at `offset`, 0 beyond the window.
    open spec fn read8_spec(&self, offset: u8) -> u8 {
        byte_at((*self.data)@, offset as int)
    }

    /// The little-endian word of the snapshot at `offset`.
    open spec fn read16_spec(&self, offset: u8) -> u16 {
        le16_at((*self.data)@, offset as int)
    }

    /// The little-endian dword of the snapshot at `offset`.
    open spec fn read32_spec(&self, offset: u8) -> u32 {
        le32_at((*self.data)@, offset as int)
    }

    fn read8(&self, offset: u8) -> (r: u8) {
        byte(rc_as_ref(&self.data), offset as usize)
    }

    fn read16(&self, offset: u8) -> (r: u16) {
        let d = rc_as_ref(&self.data);
        let s = offset as usize;
        let b0 = byte(d, s);
        let b1 = byte(d, s + 1);
        proof {
            let x0 = b0 as u16;
            let x1 = b1 as u16;
            assert(x0 | (x1 << 8) == x0 + x1 * 0x100) by (bit_vector)
                requires
                    x0 < 0x100,
                    x1 < 0x100,
            ;
        }
        (b0 as u16) | ((b1 as u16) << 8)
    }

    fn read32(&self, offset: u8) -> (r: u32) {
        let d = rc_as_ref(&self.data);
        let s = offset as usize;
        let b0 = byte(d, s);
        let b1 = byte(d, s + 1);
        let b2 = byte(d, s + 2);
        let b3 = byte(d, s + 3);
        proof {
            let x0 = b0 as u32;
            let x1 = b1 as u32;
            let x2 = b2 as u32;
            let x3 = b3 as u32;
            assert(x0 | (x1 << 8) | (x2 << 16) | (x3 << 24) == x0 + x1 * 0x100 + x2 * 0x1_0000 + x3
                * 0x100_0000) by (bit_vector)
                requires
                    x0 < 0x100,
                    x1 < 0x100,
                    x2 < 0x100,
                    x3 < 0x100,
            ;
        }
        (b0 as u32) | ((b1 as u32) << 8) | ((b2 as u32) << 16) | ((b3 as u32) << 24)
    }
}

/// The byte offset into the physical-memory device at which one
/// function's configuration window starts, relative to a firmware
/// table entry with base offset `base` and starting bus number
/// `bus_number_start`.
pub open spec fn spec_mem_offset(base: i64, bus_number_start: u8, bus: u8, device: u8, func: u8) -> int {
    base + (bus - bus_number_start) * 0x10_0000 + device * 0x8000 + func * 0x1000
}

/// Computes where one function's configuration window lies in the
/// memory-mapped configuration region described by a firmware table
/// entry.
pub fn mem_offset(base: i64, bus_number_start: u8, bus: u8, device: u8, func: u8) -> (r: i64)
    requires
        bus >= bus_number_start,
        device < 32,
        func < 8,
        0 <= base <= i64::MAX - 0x1000_0000,
    ensures
        r == spec_mem_offset(base, bus_number_start, bus, device, func),
{
    let bus_part = ((bus - bus_number_start) as i64) * 0x10_0000;
    let device_part = (device as i64) * 0x8000;
    let func_part = (func as i64) * 0x1000;
    base + bus_part + device_part + func_part
}

/// Which snapshot, if any, a table binds to an address: the first
/// entry carrying that (bus, device, function) triple.
pub open spec fn find_snapshot(entries: Seq<(u8, u8, u8, Ecam)>, bus: u8, device: u8, func: u8) -> Option<Ecam>
    decreases entries.len(),
{
    if entries.len() == 0 {
        None
    } else if entries[0].0 == bus && entries[0].1 == device && entries[0].2 == func {
        Some(entries[0].3)
    } else {
        find_snapshot(entries.skip(1), bus, device, func)
    }
}

/// A configuration space held as in-memory snapshots: one captured
/// window per populated address. Addresses without an entry fail to
/// resolve, which enumeration treats as empty slots.
#[derive(Debug)]
pub struct SnapshotSpace {
    pub entries: Vec<(u8, u8, u8, Ecam)>,
}

impl SnapshotSpace {
    /// An empty space: no address resolves.
    pub fn new() -> (r: SnapshotSpace)
        ensures
            r.entries@ =~= Seq::<(u8, u8, u8, Ecam)>::empty(),
    {
        SnapshotSpace { entries: Vec::new() }
    }

    /// Adds one captured window for an address.
    pub fn insert(&mut self, bus: u8, device: u8, func: u8, snapshot: Ecam)
        ensures
            final(self).entries@ == old(self).entries@.push((bus, device, func, snapshot)),
    {
        self.entries.push((bus, device, func, snapshot));
    }
}

impl Resolver for SnapshotSpace {
    type Handle = Ecam;

    /// The first stored snapshot for the address, if any.
    open spec fn resolve_spec(&self, bus: u8, device: u8, func: u8) -> Option<Ecam> {
        find_snapshot(self.entries@, bus, device, func)
    }

    fn resolve(&self, bus: u8, device: u8, func: u8) -> (r: Result<Ecam, Error>) {
        let n = self.entries.len();
        let mut i: usize = 0;
        proof {
            assert(self.entries@.skip(0) =~= self.entries@);
        }
        while i < n
            invariant
                n == self.entries@.len(),
                i <= n,
                find_snapshot(self.entries@, bus, device, func) == find_snapshot(
                    self.entries@.skip(i as int),
                    bus,
                    device,
                    func,
                ),
            decreases n - i,
        {
            proof {
                assert(self.entries@.skip(i as int)[0] == self.entries@[i as int]);
                assert(self.entries@.skip(i as int).skip(1) =~= self.entries@.skip(i as int + 1));
            }
            let e = &self.entries[i];
            if e.0 == bus && e.1 == device && e.2 == func {
                return Ok(e.3.share());
            }
            i = i + 1;
        }
        proof {
            assert(self.entries@.skip(n as int) =~= Seq::<(u8, u8, u8, Ecam)>::empty());
        }
        Err(Error::Io(String::from_str("no snapshot is bound to this address")))
    }
}

} // verus!
