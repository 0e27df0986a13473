//! The multiple-APIC description table and its variable-length entry stream.
//!
//! The stream is walked with a cursor and a remaining-byte counter taken from
//! the table's declared length; an entry whose declared length would drive
//! the counter negative, or whose tag is outside the recognized set, is a
//! decode error rather than an out-of-bounds read.

use vstd::prelude::*;

use crate::bytes::{read_u32_le, u32_le};
use crate::rsd::{header_matches, ACPISDTHeader, SDT_HEADER_SIZE};
use crate::AcpiError;

verus! {

/// Size in bytes of the fixed part of the multiple-APIC table: the common
/// header plus the local controller address and the flags word.
pub const MADT_FIXED_SIZE: usize = 44;

/// The multiple-APIC description table's fixed part, together with the
/// buffer offset it was decoded from (the entry stream follows it there).
#[derive(Clone, Copy, Debug)]
pub struct MADT {
    pub base: usize,
    pub header: ACPISDTHeader,
    pub local_addr: u32,
    pub flags: u32,
}

/// The table at offset `off` declares a length that covers at least its
/// fixed part and lies entirely inside the buffer.
pub open spec fn madt_well_formed(m: Seq<u8>, off: int) -> bool {
    &&& 0 <= off
    &&& off + MADT_FIXED_SIZE <= m.len()
    &&& u32_le(m, off + 4) >= MADT_FIXED_SIZE
    &&& off + u32_le(m, off + 4) <= m.len()
}

impl MADT {
    /// The machine-level side of well-formedness: the declared length covers
    /// the fixed part and the whole table fits in an address.
    pub open spec fn wf(self) -> bool {
        &&& self.header.length >= MADT_FIXED_SIZE
        &&& self.base + self.header.length <= usize::MAX
    }

    /// The whole declared extent of the table lies inside buffer `m`.
    pub open spec fn in_bounds(self, m: Seq<u8>) -> bool {
        self.base + self.header.length <= m.len()
    }

    /// Decodes the fixed part of the table at offset `off`, validating the
    /// declared length against the buffer.
    pub fn read(mem: &[u8], off: usize) -> (r: Result<MADT, AcpiError>)
        ensures
            madt_well_formed(mem@, off as int) ==> match r {
                Ok(t) => {
                    &&& t.base == off
                    &&& header_matches(t.header, mem@, off as int)
                    &&& t.local_addr == u32_le(mem@, off + SDT_HEADER_SIZE)
                    &&& t.flags == u32_le(mem@, off + SDT_HEADER_SIZE + 4)
                    &&& t.wf()
                    &&& t.in_bounds(mem@)
                },
                Err(_) => false,
            },
            !madt_well_formed(mem@, off as int) ==> r == Err::<MADT, AcpiError>(
                AcpiError::MalformedLength,
            ),
    {
        if mem.len() < MADT_FIXED_SIZE || off > mem.len() - MADT_FIXED_SIZE {
            return Err(AcpiError::MalformedLength);
        }
        let header = ACPISDTHeader::read(mem, off);
        let len = header.length as usize;
        if len < MADT_FIXED_SIZE || len > mem.len() - off {
            return Err(AcpiError::MalformedLength);
        }
        let local_addr = read_u32_le(mem, off + SDT_HEADER_SIZE);
        let flags = read_u32_le(mem, off + SDT_HEADER_SIZE + 4);
        Ok(MADT { base: off, header, local_addr, flags })
    }

    /// The offset of the byte immediately after the table's fixed part,
    /// where the entry stream begins.
    pub fn entry_start(&self) -> (r: usize)
        requires
            self.wf(),
        ensures
            r == self.base + MADT_FIXED_SIZE,
    {
        self.base + MADT_FIXED_SIZE
    }

    /// A fresh cursor over the table's entry stream.
    pub fn iter(&self) -> (it: MADTIter)
        requires
            self.wf(),
        ensures
            it == MADTIter::start_of(*self),
    {
        MADTIter::new(self)
    }
}

/// The two-byte sub-header every stream entry begins with.
#[derive(Clone, Copy, Debug, PartialEq, Eq, Structural)]
pub struct MADTEntryHeader {
    pub typ: u8,
    pub len: u8,
}

/// A processor-local-APIC entry: one logical processor's identifiers.
#[derive(Clone, Copy, Debug, PartialEq, Eq, Structural)]
pub struct APICEntry {
    pub header: MADTEntryHeader,
    pub processor_id: u8,
    pub apic_id: u8,
    pub flags: u32,
}

/// An I/O-APIC entry: the system interrupt controller's address and its
/// global-interrupt numbering base.
#[derive(Clone, Copy, Debug, PartialEq, Eq, Structural)]
pub struct IOAPICEntry {
    pub header: MADTEntryHeader,
    pub apic_id: u8,
    pub reserved: u8,
    pub address: u32,
    pub base: u32,
}

/// One decoded stream entry, tagged by kind; tags that are recognized but
/// carry nothing this crate reads are kept opaque with their tag value.
#[derive(Clone, Copy, Debug, PartialEq, Eq, Structural)]
pub enum MADTEntry {
    APICEntry(APICEntry),
    IOAPICEntry(IOAPICEntry),
    OtherEntry(u8),
}

/// The tag byte of the entry at cursor `c`.
pub open spec fn entry_tag(m: Seq<u8>, c: int) -> int {
    m[c] as int
}

/// The declared total length of the entry at cursor `c` (sub-header included).
pub open spec fn entry_len(m: Seq<u8>, c: int) -> int {
    m[c + 1] as int
}

/// The firmware-defined tag values this crate recognizes.
pub open spec fn known_tag(t: int) -> bool {
    t == 0 || t == 1 || t == 2 || t == 4 || t == 5
}

/// The least declared length under which an entry of tag `t` can be decoded.
pub open spec fn min_len_for(t: int) -> int {
    if t == 0 {
        8
    } else if t == 1 {
        12
    } else {
        2
    }
}

/// The entry at cursor `c` can be decoded without error when `rem` bytes of
/// the stream remain.
pub open spec fn step_ok(m: Seq<u8>, c: int, rem: int) -> bool {
    &&& rem >= 2
    &&& 2 <= entry_len(m, c)
    &&& entry_len(m, c) <= rem
    &&& known_tag(entry_tag(m, c))
    &&& entry_len(m, c) >= min_len_for(entry_tag(m, c))
}

/// Which error the entry at cursor `c` raises when it cannot be decoded;
/// meaningful only when `step_ok` fails and `rem > 0`.
pub open spec fn step_err(m: Seq<u8>, c: int, rem: int) -> AcpiError {
    if rem < 2 {
        AcpiError::MalformedLength
    } else if !(2 <= entry_len(m, c) && entry_len(m, c) <= rem) {
        AcpiError::MalformedLength
    } else if !known_tag(entry_tag(m, c)) {
        AcpiError::UnknownEntryTag(m[c])
    } else {
        AcpiError::MalformedLength
    }
}

/// The entry decoded at cursor `c`, assuming `step_ok` holds there.
pub open spec fn entry_of(m: Seq<u8>, c: int) -> MADTEntry {
    if m[c] == 0u8 {
        MADTEntry::APICEntry(
            APICEntry {
                header: MADTEntryHeader { typ: m[c], len: m[c + 1] },
                processor_id: m[c + 2],
                apic_id: m[c + 3],
                flags: u32_le(m, c + 4) as u32,
            },
        )
    } else if m[c] == 1u8 {
        MADTEntry::IOAPICEntry(
            IOAPICEntry {
                header: MADTEntryHeader { typ: m[c], len: m[c + 1] },
                apic_id: m[c + 2],
                reserved: m[c + 3],
                address: u32_le(m, c + 4) as u32,
                base: u32_le(m, c + 8) as u32,
            },
        )
    } else {
        MADTEntry::OtherEntry(m[c])
    }
}

/// The whole entry stream from cursor `c` with `rem` bytes remaining:
/// `Some` of the decoded entries in stream order, or `None` when a step
/// cannot be decoded.
pub open spec fn stream(m: Seq<u8>, c: int, rem: int) -> Option<Seq<MADTEntry>>
    decreases (if rem >= 0 { rem } else { 0 }),
{
    if rem == 0 {
        Some(Seq::empty())
    } else if !step_ok(m, c, rem) {
        None
    } else {
        let l = entry_len(m, c);
        match stream(m, c + l, rem - l) {
            Some(rest) => Some(seq![entry_of(m, c)] + rest),
            None => None,
        }
    }
}

/// A forward-only cursor over the entry stream: the offset of the next
/// entry, the bytes of the stream not yet consumed, and how many entries
/// have been yielded.
#[derive(Clone, Copy, Debug)]
pub struct MADTIter {
    pub pos: usize,
    pub bytes_remaining: usize,
    pub curr_addr: usize,
}

impl MADTIter {
    /// The cursor a fresh iterator over `madt` starts with.
    pub open spec fn start_of(madt: MADT) -> MADTIter {
        MADTIter {
            pos: 0,
            bytes_remaining: (madt.header.length - MADT_FIXED_SIZE) as usize,
            curr_addr: (madt.base + MADT_FIXED_SIZE) as usize,
        }
    }

    /// The cursor stays inside buffer `m` and cannot overflow its counters.
    pub open spec fn valid(self, m: Seq<u8>) -> bool {
        &&& self.curr_addr + self.bytes_remaining <= m.len()
        &&& self.pos + self.bytes_remaining <= usize::MAX
    }

    /// Starts an iteration at the byte after the table's fixed part, with
    /// the declared length's trailing bytes still to consume.
    pub fn new(madt: &MADT) -> (it: MADTIter)
        requires
            madt.wf(),
        ensures
            it == MADTIter::start_of(*madt),
    {
        MADTIter {
            pos: 0,
            bytes_remaining: madt.header.length as usize - MADT_FIXED_SIZE,
            curr_addr: madt.base + MADT_FIXED_SIZE,
        }
    }

    /// One step of the walk: yields the next decoded entry, `None` once the
    /// remaining-byte counter reaches zero, or the decode error of a step
    /// that cannot be taken (the cursor is left unmoved on error).
    pub fn next(&mut self, mem: &[u8]) -> (r: Result<Option<MADTEntry>, AcpiError>)
        requires
            old(self).valid(mem@),
        ensures
            final(self).valid(mem@),
            old(self).bytes_remaining == 0 ==> r == Ok::<Option<MADTEntry>, AcpiError>(None)
                && *final(self) == *old(self),
            old(self).bytes_remaining > 0 && step_ok(
                mem@,
                old(self).curr_addr as int,
                old(self).bytes_remaining as int,
            ) ==> {
                &&& r == Ok::<Option<MADTEntry>, AcpiError>(
                    Some(entry_of(mem@, old(self).curr_addr as int)),
                )
                &&& final(self).curr_addr == old(self).curr_addr + entry_len(
                    mem@,
                    old(self).curr_addr as int,
                )
                &&& final(self).bytes_remaining == old(self).bytes_remaining - entry_len(
                    mem@,
                    old(self).curr_addr as int,
                )
                &&& final(self).pos == old(self).pos + 1
            },
            old(self).bytes_remaining > 0 && !step_ok(
                mem@,
                old(self).curr_addr as int,
                old(self).bytes_remaining as int,
            ) ==> r == Err::<Option<MADTEntry>, AcpiError>(
                step_err(mem@, old(self).curr_addr as int, old(self).bytes_remaining as int),
            ) && *final(self) == *old(self),
    {
        if self.bytes_remaining == 0 {
            return Ok(None);
        }
        if self.bytes_remaining < 2 {
            return Err(AcpiError::MalformedLength);
        }
        let c = self.curr_addr;
        let typ = mem[c];
        let lenb = mem[c + 1];
        let len = lenb as usize;
        if len < 2 || len > self.bytes_remaining {
            return Err(AcpiError::MalformedLength);
        }
        let entry = if typ == 0 {
            if len < 8 {
                return Err(AcpiError::MalformedLength);
            }
            MADTEntry::APICEntry(
                APICEntry {
                    header: MADTEntryHeader { typ, len: lenb },
                    processor_id: mem[c + 2],
                    apic_id: mem[c + 3],
                    flags: read_u32_le(mem, c + 4),
                },
            )
        } else if typ == 1 {
            if len < 12 {
                return Err(AcpiError::MalformedLength);
            }
            MADTEntry::IOAPICEntry(
                IOAPICEntry {
                    header: MADTEntryHeader { typ, len: lenb },
                    apic_id: mem[c + 2],
                    reserved: mem[c + 3],
                    address: read_u32_le(mem, c + 4),
                    base: read_u32_le(mem, c + 8),
                },
            )
        } else if typ == 2 || typ == 4 || typ == 5 {
            MADTEntry::OtherEntry(typ)
        } else {
            return Err(AcpiError::UnknownEntryTag(typ));
        };
        self.bytes_remaining = self.bytes_remaining - len;
        self.curr_addr = self.curr_addr + len;
        self.pos = self.pos + 1;
        Ok(Some(entry))
    }
}

} // verus!
