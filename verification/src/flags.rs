//! Bit-flag decoding for the three independent flag domains of a journal
//! record: file attributes, change reasons and source classification.
//!
//! Each domain is a read-only table of (bit mask, symbolic name) pairs.
//! Unknown bits are truncated on construction, never rejected; a set renders
//! as the names of its bits joined by `" | "` in table order, or as the
//! literal `"(empty)"` when no bit is set.

use vstd::prelude::*;
use vstd::string::StringExecFns;

verus! {

/// Identifies one of the three flag vocabularies.
#[derive(Clone, Copy, Debug, PartialEq, Eq, Structural)]
pub enum FlagDomain {
    Attributes,
    Reason,
    Source,
}

/// Union of every mask in the file-attribute table.
pub const FILE_ATTRIBUTES_MASK: u32 = 0x0046_FFF7;

/// Union of every mask in the change-reason table.
pub const REASON_MASK: u32 = 0x80FF_FF77;

/// Union of every mask in the source-classification table.
pub const SOURCE_INFO_MASK: u32 = 0x0000_000F;

/// Retaining only the bits of `mask` in `x`.
pub open spec fn spec_truncate(mask: u32, x: u32) -> u32 {
    x & mask
}

/// Number of entries in a domain's table.
pub open spec fn domain_len(d: FlagDomain) -> int {
    match d {
        FlagDomain::Attributes => 19,
        FlagDomain::Reason => 23,
        FlagDomain::Source => 4,
    }
}

pub open spec fn attr_mask_at(i: int) -> u32 {
    if i == 0 { 0x0000_0020 }       // ARCHIVE
    else if i == 1 { 0x0000_0800 }  // COMPRESSED
    else if i == 2 { 0x0000_0040 }  // DEVICE
    else if i == 3 { 0x0000_0010 }  // DIRECTORY
    else if i == 4 { 0x0000_4000 }  // ENCRYPTED
    else if i == 5 { 0x0000_0002 }  // HIDDEN
    else if i == 6 { 0x0000_8000 }  // INTEGRITY_STREAM
    else if i == 7 { 0x0000_0080 }  // NORMAL
    else if i == 8 { 0x0000_2000 }  // NOT_CONTENT_INDEXED
    else if i == 9 { 0x0002_0000 }  // NO_SCRUB_DATA
    else if i == 10 { 0x0000_1000 } // OFFLINE
    else if i == 11 { 0x0000_0001 } // READONLY
    else if i == 12 { 0x0040_0000 } // RECALL_ON_DATA_ACCESS
    else if i == 13 { 0x0004_0000 } // RECALL_ON_OPEN
    else if i == 14 { 0x0000_0400 } // REPARSE_POINT
    else if i == 15 { 0x0000_0200 } // SPARSE_FILE
    else if i == 16 { 0x0000_0004 } // SYSTEM
    else if i == 17 { 0x0000_0100 } // TEMPORARY
    else { 0x0000_1000 }            // VIRTUAL (aliases OFFLINE by design)
}

pub open spec fn attr_name_at(i: int) -> Seq<char> {
    if i == 0 { "FILE_ATTRIBUTE_ARCHIVE"@ }
    else if i == 1 { "FILE_ATTRIBUTE_COMPRESSED"@ }
    else if i == 2 { "FILE_ATTRIBUTE_DEVICE"@ }
    else if i == 3 { "FILE_ATTRIBUTE_DIRECTORY"@ }
    else if i == 4 { "FILE_ATTRIBUTE_ENCRYPTED"@ }
    else if i == 5 { "FILE_ATTRIBUTE_HIDDEN"@ }
    else if i == 6 { "FILE_ATTRIBUTE_INTEGRITY_STREAM"@ }
    else if i == 7 { "FILE_ATTRIBUTE_NORMAL"@ }
    else if i == 8 { "FILE_ATTRIBUTE_NOT_CONTENT_INDEXED"@ }
    else if i == 9 { "FILE_ATTRIBUTE_NO_SCRUB_DATA"@ }
    else if i == 10 { "FILE_ATTRIBUTE_OFFLINE"@ }
    else if i == 11 { "FILE_ATTRIBUTE_READONLY"@ }
    else if i == 12 { "FILE_ATTRIBUTE_RECALL_ON_DATA_ACCESS"@ }
    else if i == 13 { "FILE_ATTRIBUTE_RECALL_ON_OPEN"@ }
    else if i == 14 { "FILE_ATTRIBUTE_REPARSE_POINT"@ }
    else if i == 15 { "FILE_ATTRIBUTE_SPARSE_FILE"@ }
    else if i == 16 { "FILE_ATTRIBUTE_SYSTEM"@ }
    else if i == 17 { "FILE_ATTRIBUTE_TEMPORARY"@ }
    else { "FILE_ATTRIBUTE_VIRTUAL"@ }
}

pub open spec fn reason_mask_at(i: int) -> u32 {
    if i == 0 { 0x0000_8000 }       // BASIC_INFO_CHANGE
    else if i == 1 { 0x8000_0000 }  // CLOSE
    else if i == 2 { 0x0002_0000 }  // COMPRESSION_CHANGE
    else if i == 3 { 0x0000_0002 }  // DATA_EXTEND
    else if i == 4 { 0x0000_0001 }  // DATA_OVERWRITE
    else if i == 5 { 0x0000_0004 }  // DATA_TRUNCATION
    else if i == 6 { 0x0000_0400 }  // EA_CHANGE
    else if i == 7 { 0x0004_0000 }  // ENCRYPTION_CHANGE
    else if i == 8 { 0x0000_0100 }  // FILE_CREATE
    else if i == 9 { 0x0000_0200 }  // FILE_DELETE
    else if i == 10 { 0x0001_0000 } // HARD_LINK_CHANGE
    else if i == 11 { 0x0000_4000 } // INDEXABLE_CHANGE
    else if i == 12 { 0x0080_0000 } // INTEGRITY_CHANGE
    else if i == 13 { 0x0000_0020 } // NAMED_DATA_EXTEND
    else if i == 14 { 0x0000_0010 } // NAMED_DATA_OVERWRITE
    else if i == 15 { 0x0000_0040 } // NAMED_DATA_TRUNCATION
    else if i == 16 { 0x0008_0000 } // OBJECT_ID_CHANGE
    else if i == 17 { 0x0000_2000 } // RENAME_NEW_NAME
    else if i == 18 { 0x0000_1000 } // RENAME_OLD_NAME
    else if i == 19 { 0x0010_0000 } // REPARSE_POINT_CHANGE
    else if i == 20 { 0x0000_0800 } // SECURITY_CHANGE
    else if i == 21 { 0x0020_0000 } // STREAM_CHANGE
    else { 0x0040_0000 }            // TRANSACTED_CHANGE
}

pub open spec fn reason_name_at(i: int) -> Seq<char> {
    if i == 0 { "USN_REASON_BASIC_INFO_CHANGE"@ }
    else if i == 1 { "USN_REASON_CLOSE"@ }
    else if i == 2 { "USN_REASON_COMPRESSION_CHANGE"@ }
    else if i == 3 { "USN_REASON_DATA_EXTEND"@ }
    else if i == 4 { "USN_REASON_DATA_OVERWRITE"@ }
    else if i == 5 { "USN_REASON_DATA_TRUNCATION"@ }
    else if i == 6 { "USN_REASON_EA_CHANGE"@ }
    else if i == 7 { "USN_REASON_ENCRYPTION_CHANGE"@ }
    else if i == 8 { "USN_REASON_FILE_CREATE"@ }
    else if i == 9 { "USN_REASON_FILE_DELETE"@ }
    else if i == 10 { "USN_REASON_HARD_LINK_CHANGE"@ }
    else if i == 11 { "USN_REASON_INDEXABLE_CHANGE"@ }
    else if i == 12 { "USN_REASON_INTEGRITY_CHANGE"@ }
    else if i == 13 { "USN_REASON_NAMED_DATA_EXTEND"@ }
    else if i == 14 { "USN_REASON_NAMED_DATA_OVERWRITE"@ }
    else if i == 15 { "USN_REASON_NAMED_DATA_TRUNCATION"@ }
    else if i == 16 { "USN_REASON_OBJECT_ID_CHANGE"@ }
    else if i == 17 { "USN_REASON_RENAME_NEW_NAME"@ }
    else if i == 18 { "USN_REASON_RENAME_OLD_NAME"@ }
    else if i == 19 { "USN_REASON_REPARSE_POINT_CHANGE"@ }
    else if i == 20 { "USN_REASON_SECURITY_CHANGE"@ }
    else if i == 21 { "USN_REASON_STREAM_CHANGE"@ }
    else { "USN_REASON_TRANSACTED_CHANGE"@ }
}

pub open spec fn source_mask_at(i: int) -> u32 {
    if i == 0 { 0x0000_0002 }       // AUXILIARY_DATA
    else if i == 1 { 0x0000_0001 }  // DATA_MANAGEMENT
    else if i == 2 { 0x0000_0004 }  // REPLICATION_MANAGEMENT
    else { 0x0000_0008 }            // CLIENT_REPLICATION_MANAGEMENT
}

pub open spec fn source_name_at(i: int) -> Seq<char> {
    if i == 0 { "USN_SOURCE_AUXILIARY_DATA"@ }
    else if i == 1 { "USN_SOURCE_DATA_MANAGEMENT"@ }
    else if i == 2 { "USN_SOURCE_REPLICATION_MANAGEMENT"@ }
    else { "USN_SOURCE_CLIENT_REPLICATION_MANAGEMENT"@ }
}

pub open spec fn domain_mask_at(d: FlagDomain, i: int) -> u32 {
    match d {
        FlagDomain::Attributes => attr_mask_at(i),
        FlagDomain::Reason => reason_mask_at(i),
        FlagDomain::Source => source_mask_at(i),
    }
}

pub open spec fn domain_name_at(d: FlagDomain, i: int) -> Seq<char> {
    match d {
        FlagDomain::Attributes => attr_name_at(i),
        FlagDomain::Reason => reason_name_at(i),
        FlagDomain::Source => source_name_at(i),
    }
}

/// Names of the set bits among the first `n` table entries of `d`, joined by
/// `" | "` in table order.
pub open spec fn names_up_to(d: FlagDomain, bits: u32, n: int) -> Seq<char>
    decreases n,
{
    if n <= 0 {
        Seq::empty()
    } else {
        let prev = names_up_to(d, bits, n - 1);
        let m = domain_mask_at(d, n - 1);
        if bits & m == m {
            if prev.len() == 0 {
                domain_name_at(d, n - 1)
            } else {
                prev + " | "@ + domain_name_at(d, n - 1)
            }
        } else {
            prev
        }
    }
}

/// The symbolic rendering of a flag value: `"(empty)"` for no bits, else the
/// names of all set bits in table order.
pub open spec fn spec_display_name(d: FlagDomain, bits: u32) -> Seq<char> {
    if bits == 0 {
        "(empty)"@
    } else {
        names_up_to(d, bits, domain_len(d))
    }
}

fn attr_entry(i: usize) -> (e: (u32, &'static str))
    requires
        i < 19,
    ensures
        e.0 == attr_mask_at(i as int),
        e.1@ == attr_name_at(i as int),
{
    if i == 0 { (0x0000_0020, "FILE_ATTRIBUTE_ARCHIVE") }
    else if i == 1 { (0x0000_0800, "FILE_ATTRIBUTE_COMPRESSED") }
    else if i == 2 { (0x0000_0040, "FILE_ATTRIBUTE_DEVICE") }
    else if i == 3 { (0x0000_0010, "FILE_ATTRIBUTE_DIRECTORY") }
    else if i == 4 { (0x0000_4000, "FILE_ATTRIBUTE_ENCRYPTED") }
    else if i == 5 { (0x0000_0002, "FILE_ATTRIBUTE_HIDDEN") }
    else if i == 6 { (0x0000_8000, "FILE_ATTRIBUTE_INTEGRITY_STREAM") }
    else if i == 7 { (0x0000_0080, "FILE_ATTRIBUTE_NORMAL") }
    else if i == 8 { (0x0000_2000, "FILE_ATTRIBUTE_NOT_CONTENT_INDEXED") }
    else if i == 9 { (0x0002_0000, "FILE_ATTRIBUTE_NO_SCRUB_DATA") }
    else if i == 10 { (0x0000_1000, "FILE_ATTRIBUTE_OFFLINE") }
    else if i == 11 { (0x0000_0001, "FILE_ATTRIBUTE_READONLY") }
    else if i == 12 { (0x0040_0000, "FILE_ATTRIBUTE_RECALL_ON_DATA_ACCESS") }
    else if i == 13 { (0x0004_0000, "FILE_ATTRIBUTE_RECALL_ON_OPEN") }
    else if i == 14 { (0x0000_0400, "FILE_ATTRIBUTE_REPARSE_POINT") }
    else if i == 15 { (0x0000_0200, "FILE_ATTRIBUTE_SPARSE_FILE") }
    else if i == 16 { (0x0000_0004, "FILE_ATTRIBUTE_SYSTEM") }
    else if i == 17 { (0x0000_0100, "FILE_ATTRIBUTE_TEMPORARY") }
    else { (0x0000_1000, "FILE_ATTRIBUTE_VIRTUAL") }
}

fn reason_entry(i: usize) -> (e: (u32, &'static str))
    requires
        i < 23,
    ensures
        e.0 == reason_mask_at(i as int),
        e.1@ == reason_name_at(i as int),
{
    if i == 0 { (0x0000_8000, "USN_REASON_BASIC_INFO_CHANGE") }
    else if i == 1 { (0x8000_0000, "USN_REASON_CLOSE") }
    else if i == 2 { (0x0002_0000, "USN_REASON_COMPRESSION_CHANGE") }
    else if i == 3 { (0x0000_0002, "USN_REASON_DATA_EXTEND") }
    else if i == 4 { (0x0000_0001, "USN_REASON_DATA_OVERWRITE") }
    else if i == 5 { (0x0000_0004, "USN_REASON_DATA_TRUNCATION") }
    else if i == 6 { (0x0000_0400, "USN_REASON_EA_CHANGE") }
    else if i == 7 { (0x0004_0000, "USN_REASON_ENCRYPTION_CHANGE") }
    else if i == 8 { (0x0000_0100, "USN_REASON_FILE_CREATE") }
    else if i == 9 { (0x0000_0200, "USN_REASON_FILE_DELETE") }
    else if i == 10 { (0x0001_0000, "USN_REASON_HARD_LINK_CHANGE") }
    else if i == 11 { (0x0000_4000, "USN_REASON_INDEXABLE_CHANGE") }
    else if i == 12 { (0x0080_0000, "USN_REASON_INTEGRITY_CHANGE") }
    else if i == 13 { (0x0000_0020, "USN_REASON_NAMED_DATA_EXTEND") }
    else if i == 14 { (0x0000_0010, "USN_REASON_NAMED_DATA_OVERWRITE") }
    else if i == 15 { (0x0000_0040, "USN_REASON_NAMED_DATA_TRUNCATION") }
    else if i == 16 { (0x0008_0000, "USN_REASON_OBJECT_ID_CHANGE") }
    else if i == 17 { (0x0000_2000, "USN_REASON_RENAME_NEW_NAME") }
    else if i == 18 { (0x0000_1000, "USN_REASON_RENAME_OLD_NAME") }
    else if i == 19 { (0x0010_0000, "USN_REASON_REPARSE_POINT_CHANGE") }
    else if i == 20 { (0x0000_0800, "USN_REASON_SECURITY_CHANGE") }
    else if i == 21 { (0x0020_0000, "USN_REASON_STREAM_CHANGE") }
    else { (0x0040_0000, "USN_REASON_TRANSACTED_CHANGE") }
}

fn source_entry(i: usize) -> (e: (u32, &'static str))
    requires
        i < 4,
    ensures
        e.0 == source_mask_at(i as int),
        e.1@ == source_name_at(i as int),
{
    if i == 0 { (0x0000_0002, "USN_SOURCE_AUXILIARY_DATA") }
    else if i == 1 { (0x0000_0001, "USN_SOURCE_DATA_MANAGEMENT") }
    else if i == 2 { (0x0000_0004, "USN_SOURCE_REPLICATION_MANAGEMENT") }
    else { (0x0000_0008, "USN_SOURCE_CLIENT_REPLICATION_MANAGEMENT") }
}

fn domain_len_exec(d: FlagDomain) -> (n: usize)
    ensures
        n == domain_len(d),
{
    match d {
        FlagDomain::Attributes => 19,
        FlagDomain::Reason => 23,
        FlagDomain::Source => 4,
    }
}

fn domain_entry(d: FlagDomain, i: usize) -> (e: (u32, &'static str))
    requires
        i < domain_len(d),
    ensures
        e.0 == domain_mask_at(d, i as int),
        e.1@ == domain_name_at(d, i as int),
{
    match d {
        FlagDomain::Attributes => attr_entry(i),
        FlagDomain::Reason => reason_entry(i),
        FlagDomain::Source => source_entry(i),
    }
}

fn render_names(d: FlagDomain, bits: u32) -> (r: String)
    ensures
        r@ == names_up_to(d, bits, domain_len(d)),
{
    let mut out = String::new();
    let n = domain_len_exec(d);
    let mut i: usize = 0;
    while i < n
        invariant
            i <= n,
            n == domain_len(d),
            out@ == names_up_to(d, bits, i as int),
        decreases n - i,
    {
        let (m, name) = domain_entry(d, i);
        if bits & m == m {
            if !out.as_str().is_empty() {
                out.append(" | ");
            }
            out.append(name);
        }
        i = i + 1;
    }
    out
}

fn display_name(d: FlagDomain, bits: u32) -> (r: String)
    ensures
        r@ == spec_display_name(d, bits),
{
    if bits == 0 {
        String::from_str("(empty)")
    } else {
        render_names(d, bits)
    }
}

/// Set of NTFS file-attribute flags carried by a record.
#[derive(Clone, Copy, Debug, PartialEq, Eq)]
pub struct FileAttributes {
    bits: u32,
}

impl View for FileAttributes {
    type V = u32;

    closed spec fn view(&self) -> u32 {
        self.bits
    }
}

impl FileAttributes {
    /// Keeps the bits named in the file-attribute table and silently drops
    /// the rest; never fails.
    pub fn from_bits_truncate(x: u32) -> (r: Self)
        ensures
            r@ == spec_truncate(FILE_ATTRIBUTES_MASK, x),
    {
        FileAttributes { bits: x & FILE_ATTRIBUTES_MASK }
    }

    /// The retained mask.
    pub fn bits(&self) -> (r: u32)
        ensures
            r == self@,
    {
        self.bits
    }

    /// Symbolic names of all set bits in table order, or `"(empty)"`.
    pub fn to_display_name(&self) -> (r: String)
        ensures
            r@ == spec_display_name(FlagDomain::Attributes, self@),
            self@ == 0 ==> r@ == "(empty)"@,
    {
        display_name(FlagDomain::Attributes, self.bits)
    }
}

/// Set of change-reason flags carried by a record.
#[derive(Clone, Copy, Debug, PartialEq, Eq)]
pub struct Reason {
    bits: u32,
}

impl View for Reason {
    type V = u32;

    closed spec fn view(&self) -> u32 {
        self.bits
    }
}

impl Reason {
    /// Keeps the bits named in the change-reason table and silently drops
    /// the rest; never fails.
    pub fn from_bits_truncate(x: u32) -> (r: Self)
        ensures
            r@ == spec_truncate(REASON_MASK, x),
    {
        Reason { bits: x & REASON_MASK }
    }

    /// The retained mask.
    pub fn bits(&self) -> (r: u32)
        ensures
            r == self@,
    {
        self.bits
    }

    /// Symbolic names of all set bits in table order, or `"(empty)"`.
    pub fn to_display_name(&self) -> (r: String)
        ensures
            r@ == spec_display_name(FlagDomain::Reason, self@),
            self@ == 0 ==> r@ == "(empty)"@,
    {
        display_name(FlagDomain::Reason, self.bits)
    }
}

/// Set of source-classification flags carried by a record.
#[derive(Clone, Copy, Debug, PartialEq, Eq)]
pub struct SourceInfo {
    bits: u32,
}

impl View for SourceInfo {
    type V = u32;

    closed spec fn view(&self) -> u32 {
        self.bits
    }
}

impl SourceInfo {
    /// Keeps the bits named in the source-classification table and silently
    /// drops the rest; never fails.
    pub fn from_bits_truncate(x: u32) -> (r: Self)
        ensures
            r@ == spec_truncate(SOURCE_INFO_MASK, x),
    {
        SourceInfo { bits: x & SOURCE_INFO_MASK }
    }

    /// The retained mask.
    pub fn bits(&self) -> (r: u32)
        ensures
            r == self@,
    {
        self.bits
    }

    /// Symbolic names of all set bits in table order, or `"(empty)"`.
    pub fn to_display_name(&self) -> (r: String)
        ensures
            r@ == spec_display_name(FlagDomain::Source, self@),
            self@ == 0 ==> r@ == "(empty)"@,
    {
        display_name(FlagDomain::Source, self.bits)
    }
}

/// Law: truncation keeps a value made only of known bits unchanged, and is
/// idempotent — truncating an already-truncated value changes nothing. In
/// particular, for any `x` composed only of bits present in a domain's table,
/// building a flag set from `x` and reading its bits back yields `x` itself,
/// and for any other `x` it yields `x` with the unknown bits dropped.
pub proof fn lemma_from_bits_roundtrip(mask: u32, x: u32)
    ensures
        x & mask == x ==> spec_truncate(mask, x) == x,
        spec_truncate(mask, spec_truncate(mask, x)) == spec_truncate(mask, x),
{
    assert(x & mask & mask == x & mask) by (bit_vector);
}

} // verus!
