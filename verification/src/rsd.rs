//! Locating the root pointer structure and walking the root system table.
//!
//! The locator scans fixed physical windows in 16-byte steps for the ASCII
//! signature `RSD PTR `; the walker resolves the root system table and
//! linearly searches its trailing pointer array for a table whose four-byte
//! signature matches a request.

use vstd::prelude::*;

use crate::bytes::{read_u32_le, u16_le, u32_le};
use crate::AcpiError;

verus! {

/// First byte of the legacy BIOS window scanned for the root pointer.
pub const PRIMARY_SCAN_START: usize = 0xE0000;

/// One past the last byte of the legacy BIOS window.
pub const PRIMARY_SCAN_END: usize = 0x100000;

/// Location of the 16-bit extended-BIOS-data-area segment pointer.
pub const EBDA_POINTER_ADDR: usize = 0x40E;

/// Length of the fallback window scanned from the EBDA base.
pub const EBDA_WINDOW_LEN: usize = 0x400;

/// Size in bytes of the root pointer structure (its first revision).
pub const RSDP_SIZE: usize = 20;

/// Size in bytes of the header every system description table begins with.
pub const SDT_HEADER_SIZE: usize = 36;

/// The eight signature bytes `RSD PTR ` (note the trailing space) stand at
/// offset `i` of `m`, entirely inside the buffer.
pub open spec fn is_rsdp_sig(m: Seq<u8>, i: int) -> bool {
    &&& 0 <= i
    &&& i + 8 <= m.len()
    &&& m[i] == 0x52u8
    &&& m[i + 1] == 0x53u8
    &&& m[i + 2] == 0x44u8
    &&& m[i + 3] == 0x20u8
    &&& m[i + 4] == 0x50u8
    &&& m[i + 5] == 0x54u8
    &&& m[i + 6] == 0x52u8
    &&& m[i + 7] == 0x20u8
}

/// The offset of the first signature hit among `i, i + 16, i + 32, ...`
/// strictly below `end`, or `None` when no candidate in the range matches.
pub open spec fn scan_range(m: Seq<u8>, i: int, end: int) -> Option<int>
    decreases (if end - i >= 0 { end - i } else { 0 }),
{
    if i >= end {
        None
    } else if is_rsdp_sig(m, i) {
        Some(i)
    } else {
        scan_range(m, i + 16, end)
    }
}

/// The base of the fallback scan window: the 16-bit value stored at the EBDA
/// pointer location, shifted left by four.
pub open spec fn ebda_base(m: Seq<u8>) -> int {
    u16_le(m, EBDA_POINTER_ADDR as int) * 16
}

/// What locating the root pointer returns on buffer `m`: the primary window
/// is scanned first, and the fallback window only when the primary has no
/// hit and the EBDA pointer itself lies inside the buffer.
pub open spec fn find_rsd_spec(m: Seq<u8>) -> Option<int> {
    match scan_range(m, PRIMARY_SCAN_START as int, PRIMARY_SCAN_END as int) {
        Some(p) => Some(p),
        None => if m.len() >= EBDA_POINTER_ADDR + 2 {
            scan_range(m, ebda_base(m), ebda_base(m) + EBDA_WINDOW_LEN)
        } else {
            None
        },
    }
}

/// Whether the root pointer signature stands at offset `i`.
fn rsdp_sig_at(mem: &[u8], i: usize) -> (r: bool)
    ensures
        r == is_rsdp_sig(mem@, i as int),
{
    if mem.len() >= 8 && i <= mem.len() - 8 {
        mem[i] == 0x52 && mem[i + 1] == 0x53 && mem[i + 2] == 0x44 && mem[i + 3] == 0x20
            && mem[i + 4] == 0x50 && mem[i + 5] == 0x54 && mem[i + 6] == 0x52
            && mem[i + 7] == 0x20
    } else {
        false
    }
}

/// Scans `start, start + 16, ...` up to (not including) `end` for the root
/// pointer signature and returns the offset of the first hit.
pub fn find_rsd_in_range(mem: &[u8], start: usize, end: usize) -> (r: Option<usize>)
    ensures
        match r {
            Some(p) => scan_range(mem@, start as int, end as int) == Some(p as int),
            None => scan_range(mem@, start as int, end as int) is None,
        },
{
    let mut i: usize = start;
    while i < end
        invariant
            start <= i,
            scan_range(mem@, start as int, end as int) == scan_range(mem@, i as int, end as int),
        ensures
            scan_range(mem@, start as int, end as int) == scan_range(mem@, i as int, end as int),
            i < end ==> is_rsdp_sig(mem@, i as int),
        decreases end - i,
    {
        if rsdp_sig_at(mem, i) {
            break;
        }
        if end - i <= 16 {
            proof {
                assert(scan_range(mem@, i as int, end as int) == scan_range(
                    mem@,
                    i + 16,
                    end as int,
                ));
                assert(scan_range(mem@, i + 16, end as int) is None);
            }
            return None;
        }
        i = i + 16;
    }
    if i < end {
        Some(i)
    } else {
        None
    }
}

/// Locates the root pointer structure: first the legacy BIOS window, then,
/// only when that window has no hit, the 1-KiB window at the EBDA base.
pub fn find_rsd(mem: &[u8]) -> (r: Option<usize>)
    ensures
        match r {
            Some(p) => find_rsd_spec(mem@) == Some(p as int),
            None => find_rsd_spec(mem@) is None,
        },
        scan_range(mem@, PRIMARY_SCAN_START as int, PRIMARY_SCAN_END as int) is Some ==> match r {
            Some(p) => scan_range(mem@, PRIMARY_SCAN_START as int, PRIMARY_SCAN_END as int)
                == Some(p as int),
            None => false,
        },
{
    match find_rsd_in_range(mem, PRIMARY_SCAN_START, PRIMARY_SCAN_END) {
        Some(p) => Some(p),
        None => {
            if mem.len() >= EBDA_POINTER_ADDR + 2 {
                let seg = crate::bytes::read_u16_le(mem, EBDA_POINTER_ADDR);
                let base = (seg as usize) * 16;
                find_rsd_in_range(mem, base, base + EBDA_WINDOW_LEN)
            } else {
                None
            }
        },
    }
}

/// The root pointer structure, as decoded from its 20 wire bytes.
#[derive(Clone, Copy, Debug)]
pub struct RSDP {
    pub signature: [u8; 8],
    pub checksum: u8,
    pub oem_id: [u8; 6],
    pub revision: u8,
    pub root_sdt_phys_addr: u32,
}

impl RSDP {
    /// Decodes the root pointer structure at offset `off`.
    pub fn read(mem: &[u8], off: usize) -> (r: RSDP)
        requires
            off + RSDP_SIZE <= mem@.len(),
        ensures
            r.signature@ == mem@.subrange(off as int, off + 8),
            r.checksum == mem@[off + 8],
            r.oem_id@ == mem@.subrange(off + 9, off + 15),
            r.revision == mem@[off + 15],
            r.root_sdt_phys_addr == u32_le(mem@, off + 16),
    {
        let signature = [
            mem[off],
            mem[off + 1],
            mem[off + 2],
            mem[off + 3],
            mem[off + 4],
            mem[off + 5],
            mem[off + 6],
            mem[off + 7],
        ];
        let oem_id = [mem[off + 9], mem[off + 10], mem[off + 11], mem[off + 12], mem[off + 13], mem[
            off + 14
        ]];
        let r = RSDP {
            signature,
            checksum: mem[off + 8],
            oem_id,
            revision: mem[off + 15],
            root_sdt_phys_addr: read_u32_le(mem, off + 16),
        };
        proof {
            assert(r.signature@ =~= mem@.subrange(off as int, off + 8));
            assert(r.oem_id@ =~= mem@.subrange(off + 9, off + 15));
        }
        r
    }
}

/// The 36-byte header every system description table begins with.
#[derive(Clone, Copy, Debug)]
pub struct ACPISDTHeader {
    pub signature: [u8; 4],
    pub length: u32,
    pub revision: u8,
    pub checksum: u8,
    pub oem_id: [u8; 6],
    pub oem_table_id: [u8; 8],
    pub oem_revision: u32,
    pub creator_id: u32,
    pub creator_revision: u32,
}

/// Every field of `h` equals the corresponding wire bytes of the header
/// stored at offset `off` of `m`.
pub open spec fn header_matches(h: ACPISDTHeader, m: Seq<u8>, off: int) -> bool {
    &&& h.signature@ == m.subrange(off, off + 4)
    &&& h.length == u32_le(m, off + 4)
    &&& h.revision == m[off + 8]
    &&& h.checksum == m[off + 9]
    &&& h.oem_id@ == m.subrange(off + 10, off + 16)
    &&& h.oem_table_id@ == m.subrange(off + 16, off + 24)
    &&& h.oem_revision == u32_le(m, off + 24)
    &&& h.creator_id == u32_le(m, off + 28)
    &&& h.creator_revision == u32_le(m, off + 32)
}

impl ACPISDTHeader {
    /// Decodes the table header at offset `off`.
    pub fn read(mem: &[u8], off: usize) -> (h: ACPISDTHeader)
        requires
            off + SDT_HEADER_SIZE <= mem@.len(),
        ensures
            header_matches(h, mem@, off as int),
    {
        let signature = [mem[off], mem[off + 1], mem[off + 2], mem[off + 3]];
        let oem_id = [mem[off + 10], mem[off + 11], mem[off + 12], mem[off + 13], mem[off + 14],
            mem[off + 15]];
        let oem_table_id = [
            mem[off + 16],
            mem[off + 17],
            mem[off + 18],
            mem[off + 19],
            mem[off + 20],
            mem[off + 21],
            mem[off + 22],
            mem[off + 23],
        ];
        let h = ACPISDTHeader {
            signature,
            length: read_u32_le(mem, off + 4),
            revision: mem[off + 8],
            checksum: mem[off + 9],
            oem_id,
            oem_table_id,
            oem_revision: read_u32_le(mem, off + 24),
            creator_id: read_u32_le(mem, off + 28),
            creator_revision: read_u32_le(mem, off + 32),
        };
        proof {
            assert(h.signature@ =~= mem@.subrange(off as int, off + 4));
            assert(h.oem_id@ =~= mem@.subrange(off + 10, off + 16));
            assert(h.oem_table_id@ =~= mem@.subrange(off + 16, off + 24));
        }
        h
    }
}

/// The root system table: its header followed by the physical addresses of
/// the other description tables.
#[derive(Debug)]
pub struct RSDT {
    pub header: ACPISDTHeader,
    pub other_sdt_addrs: Vec<u32>,
}

/// The root system table at offset `t` declares a length that covers its
/// header, lies entirely inside the buffer, and leaves a pointer array of
/// whole four-byte entries.
pub open spec fn rsdt_well_formed(m: Seq<u8>, t: int) -> bool {
    &&& 0 <= t
    &&& t + SDT_HEADER_SIZE <= m.len()
    &&& u32_le(m, t + 4) >= SDT_HEADER_SIZE
    &&& (u32_le(m, t + 4) - SDT_HEADER_SIZE) % 4 == 0
    &&& t + u32_le(m, t + 4) <= m.len()
}

/// How many table pointers the root system table at offset `t` carries.
pub open spec fn rsdt_entry_count(m: Seq<u8>, t: int) -> int {
    (u32_le(m, t + 4) - SDT_HEADER_SIZE) / 4
}

/// The `j`-th table pointer of the root system table at offset `t`.
pub open spec fn rsdt_candidate(m: Seq<u8>, t: int, j: int) -> int {
    u32_le(m, t + SDT_HEADER_SIZE + 4 * j)
}

impl RSDT {
    /// Decodes the root system table at offset `off`, validating its declared
    /// length before reading the pointer array it covers.
    pub fn read(mem: &[u8], off: usize) -> (r: Result<RSDT, AcpiError>)
        ensures
            rsdt_well_formed(mem@, off as int) ==> match r {
                Ok(rt) => {
                    &&& header_matches(rt.header, mem@, off as int)
                    &&& rt.other_sdt_addrs@.len() == rsdt_entry_count(mem@, off as int)
                    &&& forall|j: int|
                        0 <= j < rt.other_sdt_addrs@.len() ==> rt.other_sdt_addrs@[j]
                            == rsdt_candidate(mem@, off as int, j)
                },
                Err(_) => false,
            },
            !rsdt_well_formed(mem@, off as int) ==> r == Err::<RSDT, AcpiError>(
                AcpiError::MalformedLength,
            ),
    {
        if mem.len() < SDT_HEADER_SIZE || off > mem.len() - SDT_HEADER_SIZE {
            return Err(AcpiError::MalformedLength);
        }
        let header = ACPISDTHeader::read(mem, off);
        let len = header.length as usize;
        if len < SDT_HEADER_SIZE || (len - SDT_HEADER_SIZE) % 4 != 0 {
            return Err(AcpiError::MalformedLength);
        }
        if len > mem.len() - off {
            return Err(AcpiError::MalformedLength);
        }
        let k = (len - SDT_HEADER_SIZE) / 4;
        let n = mem.len();
        let mut other_sdt_addrs: Vec<u32> = Vec::new();
        let mut j: usize = 0;
        while j < k
            invariant
                j <= k,
                k == rsdt_entry_count(mem@, off as int),
                n == mem@.len(),
                off + SDT_HEADER_SIZE + 4 * k <= n,
                other_sdt_addrs@.len() == j,
                forall|l: int|
                    0 <= l < j ==> other_sdt_addrs@[l] == rsdt_candidate(mem@, off as int, l),
            decreases k - j,
        {
            other_sdt_addrs.push(read_u32_le(mem, off + SDT_HEADER_SIZE + 4 * j));
            j = j + 1;
        }
        Ok(RSDT { header, other_sdt_addrs })
    }
}

/// Whether the four requested signature bytes stand at offset `a` of `m`,
/// entirely inside the buffer.
pub open spec fn is_sig4(m: Seq<u8>, a: int, sig: Seq<u8>) -> bool {
    &&& 0 <= a
    &&& a + 4 <= m.len()
    &&& m[a] == sig[0]
    &&& m[a + 1] == sig[1]
    &&& m[a + 2] == sig[2]
    &&& m[a + 3] == sig[3]
}

/// The first (lowest-index) pointer among entries `j .. k` of the root
/// system table at `t` whose target carries the requested signature.
pub open spec fn sdt_scan(m: Seq<u8>, t: int, sig: Seq<u8>, j: int, k: int) -> Option<int>
    decreases (if k - j >= 0 { k - j } else { 0 }),
{
    if j >= k {
        None
    } else if is_sig4(m, rsdt_candidate(m, t, j), sig) {
        Some(rsdt_candidate(m, t, j))
    } else {
        sdt_scan(m, t, sig, j + 1, k)
    }
}

/// What walking the root system table at `t` for signature `sig` returns.
pub open spec fn find_sdt_spec(m: Seq<u8>, t: int, sig: Seq<u8>) -> Result<int, AcpiError> {
    if !rsdt_well_formed(m, t) {
        Err(AcpiError::MalformedLength)
    } else {
        match sdt_scan(m, t, sig, 0, rsdt_entry_count(m, t)) {
            Some(a) => Ok(a),
            None => Err(AcpiError::NotFound),
        }
    }
}

/// Whether the four bytes of `signature` stand at offset `a`.
fn sig4_at(mem: &[u8], a: usize, signature: &[u8; 4]) -> (r: bool)
    ensures
        r == is_sig4(mem@, a as int, signature@),
{
    if mem.len() >= 4 && a <= mem.len() - 4 {
        mem[a] == signature[0] && mem[a + 1] == signature[1] && mem[a + 2] == signature[2] && mem[a
            + 3] == signature[3]
    } else {
        false
    }
}

/// Walks the root system table referenced by `rsdp` and returns the offset
/// of the first table whose signature equals `signature`.
pub fn find_sdt(mem: &[u8], rsdp: &RSDP, signature: &[u8; 4]) -> (r: Result<usize, AcpiError>)
    ensures
        match r {
            Ok(a) => find_sdt_spec(mem@, rsdp.root_sdt_phys_addr as int, signature@) == Ok::<
                int,
                AcpiError,
            >(a as int),
            Err(e) => find_sdt_spec(mem@, rsdp.root_sdt_phys_addr as int, signature@) == Err::<
                int,
                AcpiError,
            >(e),
        },
{
    let t = rsdp.root_sdt_phys_addr as usize;
    let rsdt = match RSDT::read(mem, t) {
        Ok(rt) => rt,
        Err(e) => { return Err(e) },
    };
    let ghost k = rsdt_entry_count(mem@, t as int);
    let mut j: usize = 0;
    while j < rsdt.other_sdt_addrs.len()
        invariant
            t == rsdp.root_sdt_phys_addr as usize,
            rsdt_well_formed(mem@, t as int),
            k == rsdt_entry_count(mem@, t as int),
            j <= rsdt.other_sdt_addrs@.len(),
            rsdt.other_sdt_addrs@.len() == k,
            forall|l: int|
                0 <= l < k ==> rsdt.other_sdt_addrs@[l] == rsdt_candidate(mem@, t as int, l),
            sdt_scan(mem@, t as int, signature@, 0, k) == sdt_scan(
                mem@,
                t as int,
                signature@,
                j as int,
                k,
            ),
        decreases rsdt.other_sdt_addrs@.len() - j,
    {
        let a = rsdt.other_sdt_addrs[j] as usize;
        if sig4_at(mem, a, signature) {
            proof {
                assert(sdt_scan(mem@, t as int, signature@, j as int, k) == Some(a as int));
            }
            return Ok(a);
        }
        proof {
            assert(sdt_scan(mem@, t as int, signature@, j as int, k) == sdt_scan(
                mem@,
                t as int,
                signature@,
                j + 1,
                k,
            ));
        }
        j = j + 1;
    }
    proof {
        assert(sdt_scan(mem@, t as int, signature@, k, k) is None);
    }
    Err(AcpiError::NotFound)
}

} // verus!
