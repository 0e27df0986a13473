use acpi_madt::config::{init, APICConfig, LAPICInfo};
use acpi_madt::madt::{MADTEntry, MADT};
use acpi_madt::rsd::{find_rsd, find_rsd_in_range, find_sdt, RSDP};
use acpi_madt::AcpiError;

const PRIMARY_START: usize = 0xE0000;
const RSDT_OFF: usize = 0xE0100;
const MADT_OFF: usize = 0xE0200;

fn push_u32(v: &mut Vec<u8>, x: u32) {
    v.extend_from_slice(&x.to_le_bytes());
}

fn write_rsdp(mem: &mut [u8], off: usize, rsdt_addr: u32) {
    mem[off..off + 8].copy_from_slice(b"RSD PTR ");
    mem[off + 8] = 0x55; // checksum, unused by the decoder
    mem[off + 9..off + 15].copy_from_slice(b"OEMIDX");
    mem[off + 15] = 0; // revision
    mem[off + 16..off + 20].copy_from_slice(&rsdt_addr.to_le_bytes());
}

fn header_bytes(sig: &[u8; 4], length: u32) -> Vec<u8> {
    let mut h = Vec::new();
    h.extend_from_slice(sig);
    push_u32(&mut h, length);
    h.push(1); // revision
    h.push(0); // checksum
    h.extend_from_slice(b"OEMIDX");
    h.extend_from_slice(b"OEMTABLE");
    push_u32(&mut h, 7); // oem revision
    push_u32(&mut h, 11); // creator id
    push_u32(&mut h, 13); // creator revision
    h
}

fn write_rsdt(mem: &mut [u8], off: usize, table_addrs: &[u32]) {
    let length = 36 + 4 * table_addrs.len() as u32;
    let mut t = header_bytes(b"RSDT", length);
    for a in table_addrs {
        push_u32(&mut t, *a);
    }
    mem[off..off + t.len()].copy_from_slice(&t);
}

fn apic_entry(processor_id: u8, apic_id: u8, flags: u32) -> Vec<u8> {
    let mut e = vec![0u8, 8, processor_id, apic_id];
    push_u32(&mut e, flags);
    e
}

fn ioapic_entry(apic_id: u8, address: u32, base: u32) -> Vec<u8> {
    let mut e = vec![1u8, 12, apic_id, 0];
    push_u32(&mut e, address);
    push_u32(&mut e, base);
    e
}

fn write_madt(mem: &mut [u8], off: usize, local_addr: u32, flags: u32, entries: &[u8]) {
    let length = 44 + entries.len() as u32;
    let mut t = header_bytes(b"APIC", length);
    push_u32(&mut t, local_addr);
    push_u32(&mut t, flags);
    t.extend_from_slice(entries);
    mem[off..off + t.len()].copy_from_slice(&t);
}

/// A full synthetic image: root pointer at the first scanned candidate,
/// root system table with one entry leading to the multiple-APIC table.
fn image(local_addr: u32, flags: u32, entries: &[u8]) -> Vec<u8> {
    let mut mem = vec![0u8; 0x100400];
    write_rsdp(&mut mem, PRIMARY_START, RSDT_OFF as u32);
    write_rsdt(&mut mem, RSDT_OFF, &[MADT_OFF as u32]);
    write_madt(&mut mem, MADT_OFF, local_addr, flags, entries);
    mem
}

#[test]
fn read_le_exact_values() {
    let mem: Vec<u8> = vec![0x78, 0x56, 0x34, 0x12, 0xFF];
    assert_eq!(acpi_madt::bytes::read_u16_le(mem.as_slice(), 0), 0x5678);
    assert_eq!(acpi_madt::bytes::read_u32_le(mem.as_slice(), 0), 0x12345678);
    assert_eq!(acpi_madt::bytes::read_u16_le(mem.as_slice(), 3), 0xFF12);
}

#[test]
fn locate_not_found_without_signature() {
    let mem = vec![0u8; 0x100400];
    assert_eq!(find_rsd(mem.as_slice()), None);
}

#[test]
fn locate_ignores_unaligned_signature() {
    let mut mem = vec![0u8; 0x100400];
    // A signature at an offset that no 16-byte step reaches is never found.
    mem[PRIMARY_START + 8..PRIMARY_START + 16].copy_from_slice(b"RSD PTR ");
    assert_eq!(find_rsd(mem.as_slice()), None);
}

#[test]
fn locate_returns_first_aligned_hit() {
    let mut mem = vec![0u8; 0x100400];
    mem[PRIMARY_START..PRIMARY_START + 8].copy_from_slice(b"RSD PTR ");
    mem[PRIMARY_START + 16..PRIMARY_START + 24].copy_from_slice(b"RSD PTR ");
    assert_eq!(find_rsd(mem.as_slice()), Some(PRIMARY_START));
}

#[test]
fn locate_primary_hit_wins_over_fallback() {
    let mut mem = vec![0u8; 0x100400];
    // EBDA pointer names 0x5000 and a signature stands there ...
    mem[0x40E] = 0x00;
    mem[0x40F] = 0x05;
    mem[0x5000..0x5008].copy_from_slice(b"RSD PTR ");
    // ... but the primary window has its own hit, which wins.
    mem[0xF0000..0xF0008].copy_from_slice(b"RSD PTR ");
    assert_eq!(find_rsd(mem.as_slice()), Some(0xF0000));
}

#[test]
fn locate_falls_back_to_ebda_window() {
    let mut mem = vec![0u8; 0x100400];
    mem[0x40E] = 0x00;
    mem[0x40F] = 0x05; // segment 0x0500 -> physical 0x5000
    mem[0x5000..0x5008].copy_from_slice(b"RSD PTR ");
    assert_eq!(find_rsd(mem.as_slice()), Some(0x5000));
}

#[test]
fn locate_in_range_respects_bounds() {
    let mut mem = vec![0u8; 0x200];
    mem[0x100..0x108].copy_from_slice(b"RSD PTR ");
    assert_eq!(find_rsd_in_range(mem.as_slice(), 0x100, 0x200), Some(0x100));
    assert_eq!(find_rsd_in_range(mem.as_slice(), 0x110, 0x200), None);
    assert_eq!(find_rsd_in_range(mem.as_slice(), 0, 0x100), None);
}

fn rsdp_at(mem: &[u8], off: usize) -> RSDP {
    RSDP::read(mem, off)
}

#[test]
fn rsdp_fields_decode_exactly() {
    let mem = image(0xFEE00000, 1, &[]);
    let rsdp = rsdp_at(mem.as_slice(), PRIMARY_START);
    assert_eq!(&rsdp.signature, b"RSD PTR ");
    assert_eq!(rsdp.checksum, 0x55);
    assert_eq!(&rsdp.oem_id, b"OEMIDX");
    assert_eq!(rsdp.revision, 0);
    assert_eq!(rsdp.root_sdt_phys_addr, RSDT_OFF as u32);
}

#[test]
fn walker_not_found_when_no_signature_matches() {
    let mut mem = vec![0u8; 0x100400];
    write_rsdp(&mut mem, PRIMARY_START, RSDT_OFF as u32);
    // Three candidate tables, none of them carrying the requested signature.
    write_rsdt(&mut mem, RSDT_OFF, &[0xE0300, 0xE0340, 0xE0380]);
    for (i, off) in [0xE0300usize, 0xE0340, 0xE0380].iter().enumerate() {
        let h = header_bytes(&[b'X', b'Y', b'Z', b'0' + i as u8], 36);
        mem[*off..*off + 36].copy_from_slice(&h);
    }
    let rsdp = rsdp_at(mem.as_slice(), PRIMARY_START);
    assert_eq!(find_sdt(mem.as_slice(), &rsdp, b"APIC"), Err(AcpiError::NotFound));
}

#[test]
fn walker_returns_lowest_index_match() {
    let mut mem = vec![0u8; 0x100400];
    write_rsdp(&mut mem, PRIMARY_START, RSDT_OFF as u32);
    // Two tables share the requested signature; the first pointer wins.
    write_rsdt(&mut mem, RSDT_OFF, &[0xE0300, 0xE0340, 0xE0380]);
    let other = header_bytes(b"HPET", 36);
    mem[0xE0300..0xE0300 + 36].copy_from_slice(&other);
    let apic = header_bytes(b"APIC", 36);
    mem[0xE0340..0xE0340 + 36].copy_from_slice(&apic);
    mem[0xE0380..0xE0380 + 36].copy_from_slice(&apic);
    let rsdp = rsdp_at(mem.as_slice(), PRIMARY_START);
    assert_eq!(find_sdt(mem.as_slice(), &rsdp, b"APIC"), Ok(0xE0340));
}

#[test]
fn walker_rejects_non_multiple_of_four_length() {
    let mut mem = vec![0u8; 0x100400];
    write_rsdp(&mut mem, PRIMARY_START, RSDT_OFF as u32);
    let h = header_bytes(b"RSDT", 39); // trailing array of three bytes
    mem[RSDT_OFF..RSDT_OFF + 36].copy_from_slice(&h);
    let rsdp = rsdp_at(mem.as_slice(), PRIMARY_START);
    assert_eq!(find_sdt(mem.as_slice(), &rsdp, b"APIC"), Err(AcpiError::MalformedLength));
}

#[test]
fn walker_rejects_out_of_buffer_length() {
    let mut mem = vec![0u8; 0x100400];
    write_rsdp(&mut mem, PRIMARY_START, RSDT_OFF as u32);
    let h = header_bytes(b"RSDT", 0x0100_0000); // declared length far past the buffer
    mem[RSDT_OFF..RSDT_OFF + 36].copy_from_slice(&h);
    let rsdp = rsdp_at(mem.as_slice(), PRIMARY_START);
    assert_eq!(find_sdt(mem.as_slice(), &rsdp, b"APIC"), Err(AcpiError::MalformedLength));
}

#[test]
fn empty_stream_yields_nothing_and_decode_misses_ioapic() {
    let mem = image(0xFEE00000, 1, &[]);
    let madt = MADT::read(mem.as_slice(), MADT_OFF).unwrap();
    let mut it = madt.iter();
    assert_eq!(it.next(mem.as_slice()), Ok(None));
    assert_eq!(init(mem.as_slice()).unwrap_err(), AcpiError::MissingIoApic);
}

#[test]
fn entry_start_follows_fixed_prefix() {
    let mem = image(0xFEE00000, 1, &[]);
    let madt = MADT::read(mem.as_slice(), MADT_OFF).unwrap();
    assert_eq!(madt.entry_start(), MADT_OFF + 44);
    assert_eq!(madt.local_addr, 0xFEE00000);
    assert_eq!(madt.flags, 1);
}

#[test]
fn iterator_yields_entries_in_stream_order() {
    let mut entries = Vec::new();
    entries.extend_from_slice(&apic_entry(3, 4, 1));
    entries.extend_from_slice(&ioapic_entry(9, 0xFEC00000, 24));
    entries.extend_from_slice(&[2u8, 10, 0, 0, 0, 0, 0, 0, 0, 0]); // an opaque entry
    let mem = image(0xFEE00000, 0, &entries);
    let madt = MADT::read(mem.as_slice(), MADT_OFF).unwrap();
    let mut it = madt.iter();
    match it.next(mem.as_slice()) {
        Ok(Some(MADTEntry::APICEntry(a))) => {
            assert_eq!(a.processor_id, 3);
            assert_eq!(a.apic_id, 4);
            assert_eq!(a.flags, 1);
            assert_eq!(a.header.typ, 0);
            assert_eq!(a.header.len, 8);
        },
        other => panic!("expected a processor entry, got {:?}", other),
    }
    match it.next(mem.as_slice()) {
        Ok(Some(MADTEntry::IOAPICEntry(e))) => {
            assert_eq!(e.apic_id, 9);
            assert_eq!(e.reserved, 0);
            assert_eq!(e.address, 0xFEC00000);
            assert_eq!(e.base, 24);
        },
        other => panic!("expected an I/O entry, got {:?}", other),
    }
    assert_eq!(it.next(mem.as_slice()), Ok(Some(MADTEntry::OtherEntry(2))));
    assert_eq!(it.next(mem.as_slice()), Ok(None));
    assert_eq!(it.next(mem.as_slice()), Ok(None));
}

#[test]
fn decode_one_processor_and_one_ioapic() {
    let mut entries = Vec::new();
    entries.extend_from_slice(&apic_entry(0, 0, 1));
    entries.extend_from_slice(&ioapic_entry(1, 0xFEC00000, 0));
    let mem = image(0xFEE00000, 1, &entries);
    let cfg: APICConfig = init(mem.as_slice()).unwrap();
    assert_eq!(cfg.lapic_addr, 0xFEE00000);
    assert_eq!(cfg.ioapic_addr, 0xFEC00000);
    assert_eq!(cfg.lapic_info.len(), 1);
    assert_eq!(cfg.lapic_info[0], LAPICInfo { processor_id: 0, apic_id: 0, flags: 1 });
}

#[test]
fn decode_keeps_stream_order_and_last_ioapic() {
    let mut entries = Vec::new();
    entries.extend_from_slice(&apic_entry(0, 10, 1));
    entries.extend_from_slice(&ioapic_entry(1, 0xFEC00000, 0));
    entries.extend_from_slice(&apic_entry(1, 11, 0));
    entries.extend_from_slice(&[5u8, 4, 0, 0]); // opaque entry between records
    entries.extend_from_slice(&apic_entry(2, 12, 1));
    entries.extend_from_slice(&ioapic_entry(2, 0xFEC10000, 24));
    let mem = image(0xFEE00B00, 0, &entries);
    let cfg = init(mem.as_slice()).unwrap();
    assert_eq!(cfg.lapic_addr, 0xFEE00B00);
    assert_eq!(cfg.ioapic_addr, 0xFEC10000); // the last one named wins
    let got: Vec<(u8, u8, u32)> = cfg.lapic_info.iter().map(|l| (l.processor_id, l.apic_id, l.flags)).collect();
    assert_eq!(got, vec![(0, 10, 1), (1, 11, 0), (2, 12, 1)]);
}

#[test]
fn seventeen_processors_exceed_capacity() {
    let mut entries = Vec::new();
    for i in 0..17u8 {
        entries.extend_from_slice(&apic_entry(i, i, 1));
    }
    entries.extend_from_slice(&ioapic_entry(1, 0xFEC00000, 0));
    let mem = image(0xFEE00000, 1, &entries);
    assert_eq!(init(mem.as_slice()).unwrap_err(), AcpiError::CapacityExceeded);
}

#[test]
fn sixteen_processors_fill_capacity_exactly() {
    let mut entries = Vec::new();
    for i in 0..16u8 {
        entries.extend_from_slice(&apic_entry(i, 2 * i, 1));
    }
    entries.extend_from_slice(&ioapic_entry(1, 0xFEC00000, 0));
    let mem = image(0xFEE00000, 1, &entries);
    let cfg = init(mem.as_slice()).unwrap();
    assert_eq!(cfg.lapic_info.len(), 16);
    for i in 0..16u8 {
        assert_eq!(
            cfg.lapic_info[i as usize],
            LAPICInfo { processor_id: i, apic_id: 2 * i, flags: 1 },
        );
    }
}

#[test]
fn unknown_tag_is_reported_with_its_value() {
    let mut entries = Vec::new();
    entries.extend_from_slice(&[3u8, 4, 0, 0]); // tag outside the recognized set
    entries.extend_from_slice(&ioapic_entry(1, 0xFEC00000, 0));
    let mem = image(0xFEE00000, 1, &entries);
    assert_eq!(init(mem.as_slice()).unwrap_err(), AcpiError::UnknownEntryTag(3));
}

#[test]
fn entry_length_zero_is_malformed() {
    let mut entries = Vec::new();
    entries.extend_from_slice(&[0u8, 0, 0, 0, 0, 0, 0, 0]); // declared length 0
    let mem = image(0xFEE00000, 1, &entries);
    assert_eq!(init(mem.as_slice()).unwrap_err(), AcpiError::MalformedLength);
}

#[test]
fn entry_length_past_stream_end_is_malformed() {
    let mut entries = Vec::new();
    entries.extend_from_slice(&apic_entry(0, 0, 1));
    // A final entry declaring more bytes than remain in the table.
    entries.extend_from_slice(&[1u8, 100, 0, 0]);
    let mem = image(0xFEE00000, 1, &entries);
    assert_eq!(init(mem.as_slice()).unwrap_err(), AcpiError::MalformedLength);
}

#[test]
fn init_not_found_without_root_pointer() {
    let mem = vec![0u8; 0x100400];
    assert_eq!(init(mem.as_slice()).unwrap_err(), AcpiError::NotFound);
}

#[test]
fn round_trip_reproduces_all_fields_bit_exactly() {
    let procs: Vec<(u8, u8, u32)> = vec![(0, 0, 1), (1, 3, 0x00010001), (255, 128, 0xDEADBEEF)];
    let mut entries = Vec::new();
    for (p, a, f) in &procs {
        entries.extend_from_slice(&apic_entry(*p, *a, *f));
    }
    entries.extend_from_slice(&ioapic_entry(7, 0xFEC0BEEF, 0x12345678));
    let mem = image(0xFEE0CAFE, 0xA5A5A5A5, &entries);
    let cfg = init(mem.as_slice()).unwrap();
    assert_eq!(cfg.lapic_addr, 0xFEE0CAFE);
    assert_eq!(cfg.ioapic_addr, 0xFEC0BEEF);
    let got: Vec<(u8, u8, u32)> = cfg.lapic_info.iter().map(|l| (l.processor_id, l.apic_id, l.flags)).collect();
    assert_eq!(got, procs);
}

#[test]
fn header_fields_decode_exactly() {
    let mem = image(0xFEE00000, 1, &[]);
    let h = acpi_madt::rsd::ACPISDTHeader::read(mem.as_slice(), RSDT_OFF);
    assert_eq!(&h.signature, b"RSDT");
    assert_eq!(h.length, 40);
    assert_eq!(h.revision, 1);
    assert_eq!(h.checksum, 0);
    assert_eq!(&h.oem_id, b"OEMIDX");
    assert_eq!(&h.oem_table_id, b"OEMTABLE");
    assert_eq!(h.oem_revision, 7);
    assert_eq!(h.creator_id, 11);
    assert_eq!(h.creator_revision, 13);
}

#[test]
fn rsdt_reads_its_pointer_array() {
    let mut mem = vec![0u8; 0x100400];
    write_rsdt(&mut mem, RSDT_OFF, &[0xE0300, 0xE0340, 0xE0380]);
    let rsdt = acpi_madt::rsd::RSDT::read(mem.as_slice(), RSDT_OFF).unwrap();
    assert_eq!(rsdt.other_sdt_addrs, vec![0xE0300, 0xE0340, 0xE0380]);
    assert_eq!(rsdt.header.length, 48);
}
