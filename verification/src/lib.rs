//! Discovery and decoding of the firmware tables that drive early
//! interrupt-controller setup: locating the root pointer structure by its
//! signature, walking the root system table for a named table, and decoding
//! the multiple-APIC description table's variable-length entry stream into a
//! bounded configuration record.
//!
//! All decoding happens over a plain byte buffer standing for physical
//! memory; every read is bounds-checked, and a declared length that does not
//! fit the buffer is reported as a malformed-length error rather than read
//! past.

use vstd::prelude::*;

pub mod bytes;
pub mod config;
pub mod laws;
pub mod madt;
pub mod rsd;

verus! {

/// Everything that can go wrong while discovering and decoding the tables.
#[derive(Clone, Copy, Debug, PartialEq, Eq, Structural)]
pub enum AcpiError {
    /// A required structure (root pointer, named table) is absent.
    NotFound,
    /// A declared table or entry length is inconsistent with the bytes that
    /// actually contain it.
    MalformedLength,
    /// An entry tag outside the recognized set, carrying the offending tag.
    UnknownEntryTag(u8),
    /// More processor records than the bounded configuration can hold.
    CapacityExceeded,
    /// The entry stream names no I/O interrupt controller.
    MissingIoApic,
}

} // verus!
