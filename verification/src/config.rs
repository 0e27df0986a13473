//! Folding the entry stream into the final interrupt-controller
//! configuration.
//!
//! Processor records are collected, in stream order, into a bounded list
//! with a fixed platform capacity; overflowing it is an explicit reported
//! condition, never silent truncation. The I/O controller address kept is
//! the last one the stream names; a stream that names none fails the decode.

use vstd::prelude::*;

use crate::bytes::u32_le;
use crate::madt::{
    entry_len, entry_of, step_err, step_ok, madt_well_formed, MADTEntry, MADTIter, MADT,
    MADT_FIXED_SIZE,
};
use crate::rsd::{find_rsd_spec, find_sdt_spec, find_rsd, find_sdt, RSDP, RSDP_SIZE,
    SDT_HEADER_SIZE};
use crate::AcpiError;

verus! {

/// How many processor records the configuration can hold: a deliberate
/// platform limit of this design, not a firmware limit.
pub const LAPIC_CAPACITY: usize = 16;

/// One logical processor's record from a processor-local-APIC entry.
#[derive(Clone, Copy, Debug, Default, PartialEq, Eq, Structural)]
pub struct LAPICInfo {
    pub processor_id: u8,
    pub apic_id: u8,
    pub flags: u32,
}

/// The decoded configuration: the two controller addresses and the bounded
/// per-processor list, in stream order.
#[derive(Debug)]
pub struct APICConfig {
    pub lapic_addr: u64,
    pub ioapic_addr: u64,
    pub lapic_info: Vec<LAPICInfo>,
}

impl APICConfig {
    /// The per-processor list never exceeds the platform capacity.
    pub open spec fn wf(self) -> bool {
        self.lapic_info@.len() <= LAPIC_CAPACITY
    }
}

/// The per-processor records as plain triples (processor id, APIC id, flags).
pub open spec fn lapic_tuples(s: Seq<LAPICInfo>) -> Seq<(u8, u8, u32)> {
    s.map_values(|l: LAPICInfo| (l.processor_id, l.apic_id, l.flags))
}

#[verifier::external_type_specification]
#[verifier::external_body]
#[verifier::reject_recursive_types(T)]
pub struct ExFixedVec<'a, T: 'a + Copy>(fixedvec::FixedVec<'a, T>);

/// The items a bounded vector holds, oldest first.
pub uninterp spec fn lapic_entries(v: fixedvec::FixedVec<'static, (u8, u8, u32)>) -> Seq<
    (u8, u8, u32),
>;

/// The capacity a bounded vector was created with.
pub uninterp spec fn lapic_capacity(v: fixedvec::FixedVec<'static, (u8, u8, u32)>) -> int;

/// Relies on fixedvec::FixedVec::new: a vector over storage of the given
/// length starts empty with that length as its capacity. The backing storage
/// is leaked on purpose: the decode runs once per boot.
#[verifier::external_body]
fn lapic_vec_new(cap: usize) -> (v: fixedvec::FixedVec<'static, (u8, u8, u32)>)
    ensures
        lapic_entries(v) == Seq::<(u8, u8, u32)>::empty(),
        lapic_capacity(v) == cap,
{
    fixedvec::FixedVec::new(vec![(0u8, 0u8, 0u32); cap].leak())
}

/// Relies on fixedvec::FixedVec::push: appends at the end while spare room
/// remains, and returns ErrorKind::NoSpace, changing nothing, once the
/// vector is full.
#[verifier::external_body]
fn lapic_vec_push(v: &mut fixedvec::FixedVec<'static, (u8, u8, u32)>, x: (u8, u8, u32)) -> (r:
    bool)
    ensures
        lapic_capacity(*final(v)) == lapic_capacity(*old(v)),
        lapic_entries(*old(v)).len() < lapic_capacity(*old(v)) ==> r && lapic_entries(*final(v))
            == lapic_entries(*old(v)).push(x),
        lapic_entries(*old(v)).len() >= lapic_capacity(*old(v)) ==> !r && lapic_entries(*final(v))
            == lapic_entries(*old(v)),
{
    v.push(x).is_ok()
}

/// Relies on fixedvec::FixedVec::as_slice: the first `len` slots of the
/// storage, which are the stored items in insertion order.
#[verifier::external_body]
fn lapic_vec_items(v: &fixedvec::FixedVec<'static, (u8, u8, u32)>) -> (r: Vec<(u8, u8, u32)>)
    ensures
        r@ == lapic_entries(*v),
{
    v.as_slice().to_vec()
}

/// Folding the stream from cursor `c` with `rem` bytes left, having already
/// collected `acc` processor records and seen `io` as the latest I/O
/// controller address: the collected records and the last address, or the
/// first error the walk raises.
pub open spec fn decode_fold(
    m: Seq<u8>,
    c: int,
    rem: int,
    acc: Seq<(u8, u8, u32)>,
    io: Option<u32>,
) -> Result<(Seq<(u8, u8, u32)>, Option<u32>), AcpiError>
    decreases (if rem >= 0 { rem } else { 0 }),
{
    if rem == 0 {
        Ok((acc, io))
    } else if !step_ok(m, c, rem) {
        Err(step_err(m, c, rem))
    } else {
        let l = entry_len(m, c);
        match entry_of(m, c) {
            MADTEntry::APICEntry(a) => if acc.len() >= LAPIC_CAPACITY {
                Err(AcpiError::CapacityExceeded)
            } else {
                decode_fold(m, c + l, rem - l, acc.push((a.processor_id, a.apic_id, a.flags)), io)
            },
            MADTEntry::IOAPICEntry(e) => decode_fold(m, c + l, rem - l, acc, Some(e.address)),
            MADTEntry::OtherEntry(_) => decode_fold(m, c + l, rem - l, acc, io),
        }
    }
}

/// Consumes the entry stream of `madt` once and assembles the configuration:
/// every processor-local-APIC entry's record in stream order, the last
/// I/O-APIC entry's address, and the local controller address from the
/// table's fixed part.
pub fn decode_madt(mem: &[u8], madt: &MADT) -> (r: Result<APICConfig, AcpiError>)
    requires
        madt.wf(),
        madt.in_bounds(mem@),
    ensures
        match decode_fold(
            mem@,
            madt.base + MADT_FIXED_SIZE,
            madt.header.length - MADT_FIXED_SIZE,
            Seq::empty(),
            Option::None,
        ) {
            Err(e) => r == Err::<APICConfig, AcpiError>(e),
            Ok((ps, io)) => match io {
                Option::None => r == Err::<APICConfig, AcpiError>(AcpiError::MissingIoApic),
                Option::Some(a) => match r {
                    Ok(cfg) => {
                        &&& cfg.lapic_addr == madt.local_addr as u64
                        &&& cfg.ioapic_addr == a as u64
                        &&& lapic_tuples(cfg.lapic_info@) == ps
                        &&& cfg.wf()
                    },
                    Err(_) => false,
                },
            },
        },
{
    let ghost m = mem@;
    let ghost c0 = madt.base + MADT_FIXED_SIZE as int;
    let ghost r0 = madt.header.length - MADT_FIXED_SIZE as int;
    let mut it = MADTIter::new(madt);
    let mut lv = lapic_vec_new(LAPIC_CAPACITY);
    let mut io_addr: Option<u32> = None;
    proof {
        assert(it.valid(m));
    }
    loop
        invariant_except_break
            it.valid(m),
            m == mem@,
            c0 == madt.base + MADT_FIXED_SIZE,
            r0 == madt.header.length - MADT_FIXED_SIZE,
            lapic_capacity(lv) == LAPIC_CAPACITY,
            lapic_entries(lv).len() <= LAPIC_CAPACITY,
            decode_fold(m, c0, r0, Seq::empty(), Option::None) == decode_fold(
                m,
                it.curr_addr as int,
                it.bytes_remaining as int,
                lapic_entries(lv),
                io_addr,
            ),
        ensures
            decode_fold(m, c0, r0, Seq::empty(), Option::None) == Ok::<
                (Seq<(u8, u8, u32)>, Option<u32>),
                AcpiError,
            >((lapic_entries(lv), io_addr)),
            lapic_entries(lv).len() <= LAPIC_CAPACITY,
        decreases it.bytes_remaining,
    {
        let ghost c = it.curr_addr as int;
        let ghost rem = it.bytes_remaining as int;
        let ghost acc = lapic_entries(lv);
        let ghost io_old = io_addr;
        match it.next(mem) {
            Err(e) => {
                proof {
                    assert(decode_fold(m, c, rem, acc, io_old) == Err::<
                        (Seq<(u8, u8, u32)>, Option<u32>),
                        AcpiError,
                    >(step_err(m, c, rem)));
                }
                return Err(e);
            },
            Ok(None) => {
                proof {
                    assert(decode_fold(m, c, rem, acc, io_old) == Ok::<
                        (Seq<(u8, u8, u32)>, Option<u32>),
                        AcpiError,
                    >((acc, io_old)));
                }
                break;
            },
            Ok(Some(entry)) => {
                let ghost l = entry_len(m, c);
                match entry {
                    MADTEntry::APICEntry(a) => {
                        if !lapic_vec_push(&mut lv, (a.processor_id, a.apic_id, a.flags)) {
                            proof {
                                assert(decode_fold(m, c, rem, acc, io_old) == Err::<
                                    (Seq<(u8, u8, u32)>, Option<u32>),
                                    AcpiError,
                                >(AcpiError::CapacityExceeded));
                            }
                            return Err(AcpiError::CapacityExceeded);
                        }
                        proof {
                            assert(decode_fold(m, c, rem, acc, io_old) == decode_fold(
                                m,
                                c + l,
                                rem - l,
                                acc.push((a.processor_id, a.apic_id, a.flags)),
                                io_old,
                            ));
                        }
                    },
                    MADTEntry::IOAPICEntry(e) => {
                        io_addr = Some(e.address);
                        proof {
                            assert(decode_fold(m, c, rem, acc, io_old) == decode_fold(
                                m,
                                c + l,
                                rem - l,
                                acc,
                                Some(e.address),
                            ));
                        }
                    },
                    MADTEntry::OtherEntry(_) => {
                        proof {
                            assert(decode_fold(m, c, rem, acc, io_old) == decode_fold(
                                m,
                                c + l,
                                rem - l,
                                acc,
                                io_old,
                            ));
                        }
                    },
                }
            },
        }
    }
    let a = match io_addr {
        None => { return Err(AcpiError::MissingIoApic) },
        Some(a) => a,
    };
    let items = lapic_vec_items(&lv);
    let mut lapic_info: Vec<LAPICInfo> = Vec::new();
    let mut idx: usize = 0;
    while idx < items.len()
        invariant
            idx <= items@.len(),
            lapic_info@.len() == idx,
            forall|i: int|
                0 <= i < idx ==> lapic_info@[i] == (LAPICInfo {
                    processor_id: items@[i].0,
                    apic_id: items@[i].1,
                    flags: items@[i].2,
                }),
        decreases items@.len() - idx,
    {
        let t = items[idx];
        lapic_info.push(LAPICInfo { processor_id: t.0, apic_id: t.1, flags: t.2 });
        idx = idx + 1;
    }
    proof {
        assert(lapic_tuples(lapic_info@) =~= items@);
    }
    Ok(APICConfig { lapic_addr: madt.local_addr as u64, ioapic_addr: a as u64, lapic_info })
}

/// The four signature bytes `APIC` that name the multiple-APIC table.
pub open spec fn apic_sig() -> Seq<u8> {
    seq![0x41u8, 0x50u8, 0x49u8, 0x43u8]
}

/// What the whole discovery returns on buffer `m`: the local controller
/// address, the I/O controller address, and the processor records, or the
/// first error on the way there.
pub open spec fn init_spec(m: Seq<u8>) -> Result<(int, int, Seq<(u8, u8, u32)>), AcpiError> {
    match find_rsd_spec(m) {
        Option::None => Err(AcpiError::NotFound),
        Option::Some(p) => if !(p + RSDP_SIZE <= m.len()) {
            Err(AcpiError::MalformedLength)
        } else {
            match find_sdt_spec(m, u32_le(m, p + 16), apic_sig()) {
                Err(e) => Err(e),
                Ok(a) => if !madt_well_formed(m, a) {
                    Err(AcpiError::MalformedLength)
                } else {
                    match decode_fold(
                        m,
                        a + MADT_FIXED_SIZE,
                        u32_le(m, a + 4) - MADT_FIXED_SIZE,
                        Seq::empty(),
                        Option::None,
                    ) {
                        Err(e) => Err(e),
                        Ok((ps, io)) => match io {
                            Option::None => Err(AcpiError::MissingIoApic),
                            Option::Some(x) => Ok((u32_le(m, a + SDT_HEADER_SIZE), x as int, ps)),
                        },
                    }
                },
            }
        },
    }
}

/// Runs the whole chain: locates the root pointer, walks the root system
/// table for the `APIC` signature, and decodes the table found there.
pub fn init(mem: &[u8]) -> (r: Result<APICConfig, AcpiError>)
    ensures
        match r {
            Ok(cfg) => init_spec(mem@) == Ok::<(int, int, Seq<(u8, u8, u32)>), AcpiError>(
                (cfg.lapic_addr as int, cfg.ioapic_addr as int, lapic_tuples(cfg.lapic_info@)),
            ) && cfg.wf(),
            Err(e) => init_spec(mem@) == Err::<(int, int, Seq<(u8, u8, u32)>), AcpiError>(e),
        },
{
    let p = match find_rsd(mem) {
        Some(p) => p,
        None => { return Err(AcpiError::NotFound) },
    };
    if mem.len() < RSDP_SIZE || p > mem.len() - RSDP_SIZE {
        return Err(AcpiError::MalformedLength);
    }
    let rsdp = RSDP::read(mem, p);
    let signature = [0x41u8, 0x50u8, 0x49u8, 0x43u8];
    proof {
        assert(signature@ =~= apic_sig());
    }
    let madt_off = match find_sdt(mem, &rsdp, &signature) {
        Ok(a) => a,
        Err(e) => { return Err(e) },
    };
    let madt = match MADT::read(mem, madt_off) {
        Ok(t) => t,
        Err(e) => { return Err(e) },
    };
    decode_madt(mem, &madt)
}

} // verus!
