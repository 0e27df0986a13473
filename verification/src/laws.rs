//! The general properties of the discovery and decode chain, each proved
//! once and for all inputs: what an unsuccessful scan means, that scans
//! return the first hit, how the stream fold relates to the entry stream,
//! and that decoding a well-formed synthetic image reproduces its fields.

use vstd::prelude::*;

use crate::config::{apic_sig, decode_fold, init_spec, LAPIC_CAPACITY};
use crate::madt::{entry_len, entry_of, madt_well_formed, stream, MADTEntry, MADT_FIXED_SIZE};
use crate::rsd::{
    find_rsd_spec, find_sdt_spec, is_rsdp_sig, is_sig4, rsdt_candidate, rsdt_entry_count,
    rsdt_well_formed, scan_range, sdt_scan, PRIMARY_SCAN_START, RSDP_SIZE, SDT_HEADER_SIZE,
};
use crate::AcpiError;

verus! {

/// The `j`-th 16-byte-stepped candidate offset of a scan starting at `start`.
pub open spec fn scan_candidate(start: int, j: int) -> int {
    start + 16 * j
}

/// A buffer without the root pointer signature at any candidate offset of a
/// scanned range makes the scan of that range come back empty.
pub proof fn lemma_scan_none(m: Seq<u8>, start: int, end: int)
    requires
        forall|j: int|
            0 <= j && scan_candidate(start, j) < end ==> !is_rsdp_sig(m, scan_candidate(start, j)),
    ensures
        scan_range(m, start, end) is None,
    decreases (if end - start >= 0 { end - start } else { 0 }),
{
    if start < end {
        assert(!is_rsdp_sig(m, start)) by {
            assert(scan_candidate(start, 0) == start);
        }
        assert forall|j: int| 0 <= j && #[trigger] scan_candidate(start + 16, j) < end implies !is_rsdp_sig(
            m,
            scan_candidate(start + 16, j),
        ) by {
            assert(scan_candidate(start + 16, j) == scan_candidate(start, j + 1));
        }
        lemma_scan_none(m, start + 16, end);
    }
}

/// A scan returns the offset of the first candidate that carries the
/// signature, never a later occurrence.
pub proof fn lemma_scan_first(m: Seq<u8>, start: int, end: int, j: int)
    requires
        0 <= j,
        scan_candidate(start, j) < end,
        is_rsdp_sig(m, scan_candidate(start, j)),
        forall|l: int| 0 <= l < j ==> !is_rsdp_sig(m, scan_candidate(start, l)),
    ensures
        scan_range(m, start, end) == Some(scan_candidate(start, j)),
    decreases j,
{
    if j == 0 {
        assert(scan_candidate(start, 0) == start);
    } else {
        assert(!is_rsdp_sig(m, start)) by {
            assert(scan_candidate(start, 0) == start);
        }
        assert forall|l: int| 0 <= l < j - 1 implies !is_rsdp_sig(
            m,
            #[trigger] scan_candidate(start + 16, l),
        ) by {
            assert(scan_candidate(start + 16, l) == scan_candidate(start, l + 1));
        }
        assert(scan_candidate(start + 16, j - 1) == scan_candidate(start, j));
        lemma_scan_first(m, start + 16, end, j - 1);
    }
}

/// A buffer that carries the root pointer signature nowhere at all makes the
/// whole locator, fallback window included, come back empty.
pub proof fn lemma_locate_none_anywhere(m: Seq<u8>)
    requires
        forall|i: int| !is_rsdp_sig(m, i),
    ensures
        find_rsd_spec(m) is None,
{
    lemma_scan_none(m, PRIMARY_SCAN_START as int, crate::rsd::PRIMARY_SCAN_END as int);
    if m.len() >= crate::rsd::EBDA_POINTER_ADDR + 2 {
        lemma_scan_none(
            m,
            crate::rsd::ebda_base(m),
            crate::rsd::ebda_base(m) + crate::rsd::EBDA_WINDOW_LEN,
        );
    }
}

/// A buffer with the signature at the very first scanned candidate makes the
/// locator return exactly that offset, wherever else the signature occurs.
pub proof fn lemma_locate_first_candidate(m: Seq<u8>)
    requires
        is_rsdp_sig(m, PRIMARY_SCAN_START as int),
    ensures
        find_rsd_spec(m) == Some(PRIMARY_SCAN_START as int),
{
}

/// A root system table none of whose candidate pointers leads to the
/// requested signature makes the walk come back empty.
pub proof fn lemma_walk_none(m: Seq<u8>, t: int, sig: Seq<u8>, j: int, k: int)
    requires
        forall|l: int| j <= l < k ==> !is_sig4(m, rsdt_candidate(m, t, l), sig),
    ensures
        sdt_scan(m, t, sig, j, k) is None,
    decreases (if k - j >= 0 { k - j } else { 0 }),
{
    if j < k {
        lemma_walk_none(m, t, sig, j + 1, k);
    }
}

/// The walk returns the candidate of lowest index whose target carries the
/// requested signature, even when several candidates share it.
pub proof fn lemma_walk_first(m: Seq<u8>, t: int, sig: Seq<u8>, j: int, k: int, w: int)
    requires
        j <= w < k,
        is_sig4(m, rsdt_candidate(m, t, w), sig),
        forall|l: int| j <= l < w ==> !is_sig4(m, rsdt_candidate(m, t, l), sig),
    ensures
        sdt_scan(m, t, sig, j, k) == Some(rsdt_candidate(m, t, w)),
    decreases w - j,
{
    if j < w {
        lemma_walk_first(m, t, sig, j + 1, k, w);
    }
}

/// An empty entry stream yields zero entries, and folding it ends with
/// whatever was already collected, in particular with no I/O controller.
pub proof fn lemma_empty_stream(m: Seq<u8>, c: int)
    ensures
        stream(m, c, 0) == Some(Seq::<MADTEntry>::empty()),
        decode_fold(m, c, 0, Seq::<(u8, u8, u32)>::empty(), Option::<u32>::None) == Ok::<
            (Seq<(u8, u8, u32)>, Option<u32>),
            AcpiError,
        >((Seq::empty(), Option::None)),
{
}

/// How many processor-local-APIC entries a stream holds.
pub open spec fn count_apics(es: Seq<MADTEntry>) -> int
    decreases es.len(),
{
    if es.len() == 0 {
        0
    } else {
        (if es[0] is APICEntry {
            1int
        } else {
            0int
        }) + count_apics(es.drop_first())
    }
}

/// The processor records of a stream, as plain triples, in stream order.
pub open spec fn apics_of(es: Seq<MADTEntry>) -> Seq<(u8, u8, u32)>
    decreases es.len(),
{
    if es.len() == 0 {
        Seq::empty()
    } else {
        match es[0] {
            MADTEntry::APICEntry(a) => seq![(a.processor_id, a.apic_id, a.flags)] + apics_of(
                es.drop_first(),
            ),
            _ => apics_of(es.drop_first()),
        }
    }
}

/// The last I/O controller address a stream names, starting from `io`.
pub open spec fn last_io(es: Seq<MADTEntry>, io: Option<u32>) -> Option<u32>
    decreases es.len(),
{
    if es.len() == 0 {
        io
    } else {
        match es[0] {
            MADTEntry::IOAPICEntry(e) => last_io(es.drop_first(), Some(e.address)),
            _ => last_io(es.drop_first(), io),
        }
    }
}

/// Folding a decodable stream either collects exactly its processor records
/// after those already in `acc`, ending with the last I/O address the stream
/// names, or reports the capacity as exceeded precisely when the records
/// would outgrow it.
pub proof fn lemma_fold_matches_stream(
    m: Seq<u8>,
    c: int,
    rem: int,
    acc: Seq<(u8, u8, u32)>,
    io: Option<u32>,
    es: Seq<MADTEntry>,
)
    requires
        stream(m, c, rem) == Some(es),
        acc.len() <= LAPIC_CAPACITY,
    ensures
        count_apics(es) >= 0,
        acc.len() + count_apics(es) <= LAPIC_CAPACITY ==> decode_fold(m, c, rem, acc, io) == Ok::<
            (Seq<(u8, u8, u32)>, Option<u32>),
            AcpiError,
        >((acc + apics_of(es), last_io(es, io))),
        acc.len() + count_apics(es) > LAPIC_CAPACITY ==> decode_fold(m, c, rem, acc, io) == Err::<
            (Seq<(u8, u8, u32)>, Option<u32>),
            AcpiError,
        >(AcpiError::CapacityExceeded),
    decreases (if rem >= 0 { rem } else { 0 }),
{
    if rem == 0 {
        assert(es =~= Seq::<MADTEntry>::empty());
        assert(acc + apics_of(es) =~= acc);
    } else {
        let l = entry_len(m, c);
        let srest = stream(m, c + l, rem - l);
        let rest = srest->Some_0;
        assert(es == seq![entry_of(m, c)] + rest);
        assert(es[0] == entry_of(m, c));
        assert(es.drop_first() =~= rest);
        match entry_of(m, c) {
            MADTEntry::APICEntry(a) => {
                let t = (a.processor_id, a.apic_id, a.flags);
                if acc.len() >= LAPIC_CAPACITY {
                    lemma_fold_matches_stream(m, c + l, rem - l, acc, io, rest);
                    assert(count_apics(es) == 1 + count_apics(rest));
                } else {
                    lemma_fold_matches_stream(m, c + l, rem - l, acc.push(t), io, rest);
                    assert(count_apics(es) == 1 + count_apics(rest));
                    assert(apics_of(es) == seq![t] + apics_of(rest));
                    assert(acc + apics_of(es) =~= acc.push(t) + apics_of(rest));
                    assert(last_io(es, io) == last_io(rest, io));
                }
            },
            MADTEntry::IOAPICEntry(e) => {
                lemma_fold_matches_stream(m, c + l, rem - l, acc, Some(e.address), rest);
                assert(count_apics(es) == count_apics(rest));
                assert(apics_of(es) == apics_of(rest));
                assert(acc + apics_of(es) == acc + apics_of(rest));
                assert(last_io(es, io) == last_io(rest, Some(e.address)));
            },
            MADTEntry::OtherEntry(_) => {
                lemma_fold_matches_stream(m, c + l, rem - l, acc, io, rest);
                assert(count_apics(es) == count_apics(rest));
                assert(apics_of(es) == apics_of(rest));
                assert(last_io(es, io) == last_io(rest, io));
            },
        }
    }
}

/// A decodable stream with more processor entries than the platform
/// capacity makes the fold report the capacity as exceeded, never keep a
/// silent prefix.
pub proof fn lemma_capacity_exceeded(m: Seq<u8>, c: int, rem: int, es: Seq<MADTEntry>)
    requires
        stream(m, c, rem) == Some(es),
        count_apics(es) > LAPIC_CAPACITY,
    ensures
        decode_fold(m, c, rem, Seq::<(u8, u8, u32)>::empty(), Option::<u32>::None) == Err::<
            (Seq<(u8, u8, u32)>, Option<u32>),
            AcpiError,
        >(AcpiError::CapacityExceeded),
{
    lemma_fold_matches_stream(
        m,
        c,
        rem,
        Seq::<(u8, u8, u32)>::empty(),
        Option::<u32>::None,
        es,
    );
}

/// A decodable stream within capacity folds to exactly its processor
/// records, in stream order, with the last I/O address it names.
pub proof fn lemma_fold_of_stream(m: Seq<u8>, c: int, rem: int, es: Seq<MADTEntry>)
    requires
        stream(m, c, rem) == Some(es),
        count_apics(es) <= LAPIC_CAPACITY,
    ensures
        decode_fold(m, c, rem, Seq::<(u8, u8, u32)>::empty(), Option::<u32>::None) == Ok::<
            (Seq<(u8, u8, u32)>, Option<u32>),
            AcpiError,
        >((apics_of(es), last_io(es, Option::None))),
{
    lemma_fold_matches_stream(
        m,
        c,
        rem,
        Seq::<(u8, u8, u32)>::empty(),
        Option::<u32>::None,
        es,
    );
    assert(Seq::<(u8, u8, u32)>::empty() + apics_of(es) =~= apics_of(es));
}

/// Round trip: a buffer carrying a well-formed synthetic image — the root
/// pointer at the first scanned candidate offset, pointing at a root system
/// table whose single entry leads to a multiple-APIC table with a decodable
/// stream — decodes back to exactly the fields that were encoded.
pub proof fn lemma_round_trip(
    m: Seq<u8>,
    t: int,
    a: int,
    es: Seq<MADTEntry>,
    io: u32,
)
    requires
        is_rsdp_sig(m, PRIMARY_SCAN_START as int),
        PRIMARY_SCAN_START + RSDP_SIZE <= m.len(),
        crate::bytes::u32_le(m, PRIMARY_SCAN_START + 16) == t,
        rsdt_well_formed(m, t),
        rsdt_entry_count(m, t) == 1,
        rsdt_candidate(m, t, 0) == a,
        is_sig4(m, a, apic_sig()),
        madt_well_formed(m, a),
        stream(m, a + MADT_FIXED_SIZE, crate::bytes::u32_le(m, a + 4) - MADT_FIXED_SIZE) == Some(
            es,
        ),
        count_apics(es) <= LAPIC_CAPACITY,
        last_io(es, Option::None) == Some(io),
    ensures
        find_rsd_spec(m) == Some(PRIMARY_SCAN_START as int),
        find_sdt_spec(m, t, apic_sig()) == Ok::<int, AcpiError>(a),
        init_spec(m) == Ok::<(int, int, Seq<(u8, u8, u32)>), AcpiError>(
            (
                crate::bytes::u32_le(m, a + SDT_HEADER_SIZE),
                io as int,
                apics_of(es),
            ),
        ),
{
    assert(scan_range(m, PRIMARY_SCAN_START as int, crate::rsd::PRIMARY_SCAN_END as int) == Some(
        PRIMARY_SCAN_START as int,
    ));
    assert(sdt_scan(m, t, apic_sig(), 0, 1) == Some(a));
    lemma_fold_of_stream(m, a + MADT_FIXED_SIZE, crate::bytes::u32_le(m, a + 4) - MADT_FIXED_SIZE, es);
}

} // verus!
