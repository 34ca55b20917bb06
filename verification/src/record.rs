//! The record decoder: version dispatch over the two wire layouts, the
//! record types and their field-level decode contracts.
//!
//! All multi-byte fields are little-endian. Both layouts share an 8-byte
//! header prefix (`record_length: u32`, `major_version: u16`,
//! `minor_version: u16`); the narrow body carries 64-bit file references and
//! the wide body 128-bit ones, followed by the same trailing fields and the
//! UTF-16LE name payload.

use crate::error::UsnError;
use crate::flags::FILE_ATTRIBUTES_MASK;
use crate::flags::FileAttributes;
use crate::flags::FlagDomain;
use crate::flags::REASON_MASK;
use crate::flags::Reason;
use crate::flags::SOURCE_INFO_MASK;
use crate::flags::SourceInfo;
use crate::flags::spec_display_name;
use crate::flags::spec_truncate;
use crate::json::FieldValue;
use crate::json::JsonField;
use crate::utils::TICKS_PER_MICROSECOND;
use crate::utils::WinTimestamp;
use crate::utils::iso_utc_of;
use vstd::bytes::spec_u16_from_le_bytes;
use vstd::bytes::spec_u16_to_le_bytes;
use vstd::bytes::spec_u32_from_le_bytes;
use vstd::bytes::spec_u32_to_le_bytes;
use vstd::bytes::spec_u64_from_le_bytes;
use vstd::bytes::spec_u128_from_le_bytes;
use vstd::bytes::lemma_auto_spec_u16_to_from_le_bytes;
use vstd::bytes::lemma_auto_spec_u32_to_from_le_bytes;
use vstd::bytes::u16_from_le_bytes;
use vstd::bytes::u16_to_le_bytes;
use vstd::bytes::u32_from_le_bytes;
use vstd::bytes::u32_to_le_bytes;
use vstd::bytes::u64_from_le_bytes;
use vstd::bytes::u128_from_le_bytes;
use vstd::prelude::*;
use vstd::slice::slice_subrange;

verus! {

/// Little-endian u16 at byte offset `off` of `b`.
pub open spec fn le16(b: Seq<u8>, off: int) -> u16 {
    spec_u16_from_le_bytes(b.subrange(off, off + 2))
}

/// Little-endian u32 at byte offset `off` of `b`.
pub open spec fn le32(b: Seq<u8>, off: int) -> u32 {
    spec_u32_from_le_bytes(b.subrange(off, off + 4))
}

/// Little-endian u64 at byte offset `off` of `b`.
pub open spec fn le64(b: Seq<u8>, off: int) -> u64 {
    spec_u64_from_le_bytes(b.subrange(off, off + 8))
}

/// Little-endian u128 at byte offset `off` of `b`.
pub open spec fn le128(b: Seq<u8>, off: int) -> u128 {
    spec_u128_from_le_bytes(b.subrange(off, off + 16))
}

/// The characters the UTF-16LE decoder yields for `bytes` when undecodable
/// code units are silently dropped.
pub uninterp spec fn utf16le_lossy_of(bytes: Seq<u8>) -> Seq<char>;

/// Relies on encoding's `UTF_16LE` codec with `DecoderTrap::Ignore`: decodes
/// UTF-16 little-endian text, dropping undecodable units. With the ignore
/// trap the codec never reports an error, so the fallback arm is dead, and
/// the result depends on the input bytes alone.
#[verifier::external_body]
fn decode_utf16le(bytes: &[u8]) -> (r: String)
    ensures
        r@ == utf16le_lossy_of(bytes@),
{
    match encoding::Encoding::decode(
        encoding::all::UTF_16LE,
        bytes,
        encoding::DecoderTrap::Ignore,
    ) {
        Ok(s) => s,
        Err(_) => String::new(),
    }
}

/// An MFT file reference in its 64-bit form: entry number in the low 48 bits
/// of the on-wire value, reuse sequence in the high 16.
#[derive(Clone, Copy, Debug, PartialEq, Eq, Structural)]
pub struct MftReference {
    pub entry: u64,
    pub sequence: u16,
}

/// Unpacking of the on-wire 64-bit reference value.
pub open spec fn spec_mft_from_u64(v: u64) -> MftReference {
    MftReference { entry: v & 0x0000_FFFF_FFFF_FFFF, sequence: (v >> 48u64) as u16 }
}

/// Low 8 bytes of a 128-bit reference, reinterpreted as the 64-bit form.
pub open spec fn spec_low64(v: u128) -> u64 {
    (v & 0xFFFF_FFFF_FFFF_FFFF) as u64
}

impl MftReference {
    /// Unpacks the on-wire 64-bit form.
    pub fn from_u64(v: u64) -> (r: Self)
        ensures
            r == spec_mft_from_u64(v),
    {
        MftReference { entry: v & 0x0000_FFFF_FFFF_FFFF, sequence: (v >> 48u64) as u16 }
    }
}

/// A 128-bit file reference, kept raw.
#[derive(Clone, Copy, Debug, PartialEq, Eq, Structural)]
pub struct Ntfs128Reference(pub u128);

impl Ntfs128Reference {
    /// The raw 128-bit value.
    pub fn as_u128(&self) -> (r: u128)
        ensures
            r == self.0,
    {
        self.0
    }

    /// Lossy projection: the low 8 bytes reinterpreted as the 64-bit form.
    /// The high 64 bits are discarded by design; use [`Self::as_u128`] where
    /// full fidelity is required.
    pub fn as_mft_reference(&self) -> (r: MftReference)
        ensures
            r == spec_mft_from_u64(spec_low64(self.0)),
    {
        MftReference::from_u64((self.0 & 0xFFFF_FFFF_FFFF_FFFF) as u64)
    }
}

/// A decoded narrow-layout record (64-bit file references). A narrow-layout
/// record whose embedded major version is 3 is decoded into this shape with
/// that version preserved.
#[derive(Debug)]
pub struct UsnRecordV2 {
    pub record_length: u32,
    pub major_version: u16,
    pub minor_version: u16,
    pub file_reference: MftReference,
    pub parent_reference: MftReference,
    pub usn: u64,
    pub timestamp: WinTimestamp,
    pub reason: Reason,
    pub source_info: SourceInfo,
    pub security_id: u32,
    pub file_attributes: FileAttributes,
    pub file_name_length: u16,
    pub file_name_offset: u16,
    pub file_name: String,
}

/// A decoded wide-layout record (128-bit file references).
#[derive(Debug)]
pub struct UsnRecordV3 {
    pub record_length: u32,
    pub major_version: u16,
    pub minor_version: u16,
    pub file_reference: Ntfs128Reference,
    pub parent_reference: Ntfs128Reference,
    pub usn: u64,
    pub timestamp: WinTimestamp,
    pub reason: Reason,
    pub source_info: SourceInfo,
    pub security_id: u32,
    pub file_attributes: FileAttributes,
    pub file_name_length: u16,
    pub file_name_offset: u16,
    pub file_name: String,
}

/// A decoded record of either layout. Exactly one variant is populated; no
/// partial record escapes the decoder.
#[derive(Debug)]
pub enum UsnRecord {
    V2(UsnRecordV2),
    V3(UsnRecordV3),
}

/// Byte size of the narrow body (between header and name payload).
pub const V2_BODY_SIZE: usize = 52;

/// Byte size of the wide body (between header and name payload).
pub const V3_BODY_SIZE: usize = 68;

/// The wide (128-bit reference) layout applies iff the major version is 3 or
/// 4 and the stated record length reaches the wide fixed size.
pub open spec fn wide_layout(record_length: u32, major_version: u16) -> bool {
    (major_version == 3 || major_version == 4) && record_length >= 76
}

/// Every field of `rec` equals its little-endian read from `body`, the bytes
/// following the 8-byte header of a narrow-layout record.
pub open spec fn v2_body_matches(
    rec: UsnRecordV2,
    rl: u32,
    maj: u16,
    min: u16,
    body: Seq<u8>,
) -> bool {
    &&& rec.record_length == rl
    &&& rec.major_version == maj
    &&& rec.minor_version == min
    &&& rec.file_reference == spec_mft_from_u64(le64(body, 0))
    &&& rec.parent_reference == spec_mft_from_u64(le64(body, 8))
    &&& rec.usn == le64(body, 16)
    &&& rec.timestamp == (WinTimestamp { ticks: le64(body, 24) })
    &&& rec.reason@ == spec_truncate(REASON_MASK, le32(body, 32))
    &&& rec.source_info@ == spec_truncate(SOURCE_INFO_MASK, le32(body, 36))
    &&& rec.security_id == le32(body, 40)
    &&& rec.file_attributes@ == spec_truncate(FILE_ATTRIBUTES_MASK, le32(body, 44))
    &&& rec.file_name_length == le16(body, 48)
    &&& rec.file_name_offset == le16(body, 50)
    &&& rec.file_name@ == utf16le_lossy_of(body.subrange(52, 52 + le16(body, 48) as int))
}

/// The narrow body decodes from `body` under stated length `rl`.
pub open spec fn v2_body_ok(rl: u32, body: Seq<u8>) -> bool {
    &&& body.len() >= 52
    &&& le16(body, 48) <= rl
    &&& body.len() >= 52 + le16(body, 48)
}

/// The exact error of a failed narrow-body decode.
pub open spec fn v2_body_err(e: UsnError, rl: u32, body: Seq<u8>) -> bool {
    if body.len() < 52 {
        e == UsnError::IoError
    } else if le16(body, 48) > rl {
        e matches UsnError::InvalidRecord(m) && m@ == "file_name_length exceeds record_length"@
    } else if body.len() < 52 + le16(body, 48) {
        e == UsnError::IoError
    } else {
        false
    }
}

/// Full contract of a narrow-body decode.
pub open spec fn v2_body_result(
    r: Result<UsnRecordV2, UsnError>,
    rl: u32,
    maj: u16,
    min: u16,
    body: Seq<u8>,
) -> bool {
    match r {
        Ok(rec) => v2_body_ok(rl, body) && v2_body_matches(rec, rl, maj, min, body),
        Err(e) => v2_body_err(e, rl, body),
    }
}

/// Every field of `rec` equals its little-endian read from `body`, the bytes
/// following the 8-byte header of a wide-layout record.
pub open spec fn v3_body_matches(
    rec: UsnRecordV3,
    rl: u32,
    maj: u16,
    min: u16,
    body: Seq<u8>,
) -> bool {
    &&& rec.record_length == rl
    &&& rec.major_version == maj
    &&& rec.minor_version == min
    &&& rec.file_reference == Ntfs128Reference(le128(body, 0))
    &&& rec.parent_reference == Ntfs128Reference(le128(body, 16))
    &&& rec.usn == le64(body, 32)
    &&& rec.timestamp == (WinTimestamp { ticks: le64(body, 40) })
    &&& rec.reason@ == spec_truncate(REASON_MASK, le32(body, 48))
    &&& rec.source_info@ == spec_truncate(SOURCE_INFO_MASK, le32(body, 52))
    &&& rec.security_id == le32(body, 56)
    &&& rec.file_attributes@ == spec_truncate(FILE_ATTRIBUTES_MASK, le32(body, 60))
    &&& rec.file_name_length == le16(body, 64)
    &&& rec.file_name_offset == le16(body, 66)
    &&& rec.file_name@ == utf16le_lossy_of(body.subrange(68, 68 + le16(body, 64) as int))
}

/// The wide body decodes from `body` under stated length `rl`.
pub open spec fn v3_body_ok(rl: u32, body: Seq<u8>) -> bool {
    &&& body.len() >= 68
    &&& le16(body, 64) <= rl
    &&& body.len() >= 68 + le16(body, 64)
}

/// The exact error of a failed wide-body decode.
pub open spec fn v3_body_err(e: UsnError, rl: u32, body: Seq<u8>) -> bool {
    if body.len() < 68 {
        e == UsnError::IoError
    } else if le16(body, 64) > rl {
        e matches UsnError::InvalidRecord(m) && m@ == "file_name_length exceeds record_length"@
    } else if body.len() < 68 + le16(body, 64) {
        e == UsnError::IoError
    } else {
        false
    }
}

/// Full contract of a wide-body decode.
pub open spec fn v3_body_result(
    r: Result<UsnRecordV3, UsnError>,
    rl: u32,
    maj: u16,
    min: u16,
    body: Seq<u8>,
) -> bool {
    match r {
        Ok(rec) => v3_body_ok(rl, body) && v3_body_matches(rec, rl, maj, min, body),
        Err(e) => v3_body_err(e, rl, body),
    }
}

/// Full contract of the dispatching decoder over a whole buffer.
pub open spec fn usn_record_new_result(r: Result<UsnRecord, UsnError>, b: Seq<u8>) -> bool {
    if b.len() < 8 {
        r == Err::<UsnRecord, UsnError>(UsnError::IoError)
    } else {
        let rl = le32(b, 0);
        let maj = le16(b, 4);
        let min = le16(b, 6);
        let body = b.skip(8);
        if wide_layout(rl, maj) {
            if maj == 3 {
                match r {
                    Ok(rec) => rec matches UsnRecord::V3(v3) && v3_body_ok(rl, body)
                        && v3_body_matches(v3, rl, maj, min, body),
                    Err(e) => v3_body_err(e, rl, body),
                }
            } else {
                r == Err::<UsnRecord, UsnError>(UsnError::UnsupportedVersion(maj))
            }
        } else if maj == 2 || maj == 3 {
            match r {
                Ok(rec) => rec matches UsnRecord::V2(v2) && v2_body_ok(rl, body)
                    && v2_body_matches(v2, rl, maj, min, body),
                Err(e) => v2_body_err(e, rl, body),
            }
        } else {
            r == Err::<UsnRecord, UsnError>(UsnError::UnsupportedVersion(maj))
        }
    }
}

fn decode_v2_body(
    record_length: u32,
    major_version: u16,
    minor_version: u16,
    body: &[u8],
) -> (r: Result<UsnRecordV2, UsnError>)
    ensures
        v2_body_result(r, record_length, major_version, minor_version, body@),
{
    if body.len() < V2_BODY_SIZE {
        return Err(UsnError::IoError);
    }
    let file_name_length = u16_from_le_bytes(slice_subrange(body, 48, 50));
    if file_name_length as u32 > record_length {
        return Err(
            UsnError::InvalidRecord(String::from_str("file_name_length exceeds record_length")),
        );
    }
    if body.len() < V2_BODY_SIZE + file_name_length as usize {
        return Err(UsnError::IoError);
    }
    let file_reference = MftReference::from_u64(u64_from_le_bytes(slice_subrange(body, 0, 8)));
    let parent_reference = MftReference::from_u64(u64_from_le_bytes(slice_subrange(body, 8, 16)));
    let usn = u64_from_le_bytes(slice_subrange(body, 16, 24));
    let timestamp = WinTimestamp::new(u64_from_le_bytes(slice_subrange(body, 24, 32)));
    let reason = Reason::from_bits_truncate(u32_from_le_bytes(slice_subrange(body, 32, 36)));
    let source_info = SourceInfo::from_bits_truncate(u32_from_le_bytes(slice_subrange(body, 36, 40)));
    let security_id = u32_from_le_bytes(slice_subrange(body, 40, 44));
    let file_attributes = FileAttributes::from_bits_truncate(
        u32_from_le_bytes(slice_subrange(body, 44, 48)),
    );
    let file_name_offset = u16_from_le_bytes(slice_subrange(body, 50, 52));
    let name_bytes = slice_subrange(body, 52, 52 + file_name_length as usize);
    let file_name = decode_utf16le(name_bytes);
    Ok(
        UsnRecordV2 {
            record_length,
            major_version,
            minor_version,
            file_reference,
            parent_reference,
            usn,
            timestamp,
            reason,
            source_info,
            security_id,
            file_attributes,
            file_name_length,
            file_name_offset,
            file_name,
        },
    )
}

fn decode_v3_body(
    record_length: u32,
    major_version: u16,
    minor_version: u16,
    body: &[u8],
) -> (r: Result<UsnRecordV3, UsnError>)
    ensures
        v3_body_result(r, record_length, major_version, minor_version, body@),
{
    if body.len() < V3_BODY_SIZE {
        return Err(UsnError::IoError);
    }
    let file_name_length = u16_from_le_bytes(slice_subrange(body, 64, 66));
    if file_name_length as u32 > record_length {
        return Err(
            UsnError::InvalidRecord(String::from_str("file_name_length exceeds record_length")),
        );
    }
    if body.len() < V3_BODY_SIZE + file_name_length as usize {
        return Err(UsnError::IoError);
    }
    let file_reference = Ntfs128Reference(u128_from_le_bytes(slice_subrange(body, 0, 16)));
    let parent_reference = Ntfs128Reference(u128_from_le_bytes(slice_subrange(body, 16, 32)));
    let usn = u64_from_le_bytes(slice_subrange(body, 32, 40));
    let timestamp = WinTimestamp::new(u64_from_le_bytes(slice_subrange(body, 40, 48)));
    let reason = Reason::from_bits_truncate(u32_from_le_bytes(slice_subrange(body, 48, 52)));
    let source_info = SourceInfo::from_bits_truncate(u32_from_le_bytes(slice_subrange(body, 52, 56)));
    let security_id = u32_from_le_bytes(slice_subrange(body, 56, 60));
    let file_attributes = FileAttributes::from_bits_truncate(
        u32_from_le_bytes(slice_subrange(body, 60, 64)),
    );
    let file_name_offset = u16_from_le_bytes(slice_subrange(body, 66, 68));
    let name_bytes = slice_subrange(body, 68, 68 + file_name_length as usize);
    let file_name = decode_utf16le(name_bytes);
    Ok(
        UsnRecordV3 {
            record_length,
            major_version,
            minor_version,
            file_reference,
            parent_reference,
            usn,
            timestamp,
            reason,
            source_info,
            security_id,
            file_attributes,
            file_name_length,
            file_name_offset,
            file_name,
        },
    )
}

impl UsnRecord {
    /// Decodes one record from the start of `bytes`, dispatching on the
    /// embedded version fields and the width classification. A wide-layout
    /// buffer of major version 4 is recognized but unimplemented; a
    /// narrow-layout buffer of major version 3 decodes in the narrow shape
    /// with its true version preserved. The `_version` argument is a caller
    /// hint kept for interface compatibility; dispatch ignores it.
    pub fn new(_version: u16, bytes: &[u8]) -> (r: Result<UsnRecord, UsnError>)
        ensures
            usn_record_new_result(r, bytes@),
    {
        if bytes.len() < 8 {
            return Err(UsnError::IoError);
        }
        let record_length = u32_from_le_bytes(slice_subrange(bytes, 0, 4));
        let major_version = u16_from_le_bytes(slice_subrange(bytes, 4, 6));
        let minor_version = u16_from_le_bytes(slice_subrange(bytes, 6, 8));
        let body = slice_subrange(bytes, 8, bytes.len());
        proof {
            assert(body@ =~= bytes@.skip(8));
        }
        let is_128bit = (major_version == 3 || major_version == 4) && record_length >= 76;
        if is_128bit {
            if major_version == 3 {
                match decode_v3_body(record_length, major_version, minor_version, body) {
                    Ok(rec) => Ok(UsnRecord::V3(rec)),
                    Err(e) => Err(e),
                }
            } else {
                Err(UsnError::UnsupportedVersion(major_version))
            }
        } else if major_version == 2 || major_version == 3 {
            match decode_v2_body(record_length, major_version, minor_version, body) {
                Ok(rec) => Ok(UsnRecord::V2(rec)),
                Err(e) => Err(e),
            }
        } else {
            Err(UsnError::UnsupportedVersion(major_version))
        }
    }

    /// The journal sequence number of either variant.
    pub open spec fn spec_usn(self) -> u64 {
        match self {
            UsnRecord::V2(rec) => rec.usn,
            UsnRecord::V3(rec) => rec.usn,
        }
    }

    /// The decoded name of either variant.
    pub open spec fn spec_file_name(self) -> Seq<char> {
        match self {
            UsnRecord::V2(rec) => rec.file_name@,
            UsnRecord::V3(rec) => rec.file_name@,
        }
    }

    /// The file-attribute set of either variant.
    pub open spec fn spec_file_attributes(self) -> FileAttributes {
        match self {
            UsnRecord::V2(rec) => rec.file_attributes,
            UsnRecord::V3(rec) => rec.file_attributes,
        }
    }

    /// The change-reason set of either variant.
    pub open spec fn spec_reason(self) -> Reason {
        match self {
            UsnRecord::V2(rec) => rec.reason,
            UsnRecord::V3(rec) => rec.reason,
        }
    }

    /// The file reference in width-agnostic 64-bit form: the narrow value
    /// itself, or the lossy projection of a wide one.
    pub open spec fn spec_file_reference(self) -> MftReference {
        match self {
            UsnRecord::V2(rec) => rec.file_reference,
            UsnRecord::V3(rec) => spec_mft_from_u64(spec_low64(rec.file_reference.0)),
        }
    }

    /// The parent reference in width-agnostic 64-bit form.
    pub open spec fn spec_parent_reference(self) -> MftReference {
        match self {
            UsnRecord::V2(rec) => rec.parent_reference,
            UsnRecord::V3(rec) => spec_mft_from_u64(spec_low64(rec.parent_reference.0)),
        }
    }

    /// The journal sequence number.
    pub fn get_usn(&self) -> (r: u64)
        ensures
            r == self.spec_usn(),
    {
        match self {
            UsnRecord::V2(rec) => rec.usn,
            UsnRecord::V3(rec) => rec.usn,
        }
    }

    /// An owned copy of the decoded name.
    pub fn get_file_name(&self) -> (r: String)
        ensures
            r@ == self.spec_file_name(),
    {
        match self {
            UsnRecord::V2(rec) => rec.file_name.clone(),
            UsnRecord::V3(rec) => rec.file_name.clone(),
        }
    }

    /// The file-attribute set.
    pub fn get_file_attributes(&self) -> (r: FileAttributes)
        ensures
            r == self.spec_file_attributes(),
    {
        match self {
            UsnRecord::V2(rec) => rec.file_attributes,
            UsnRecord::V3(rec) => rec.file_attributes,
        }
    }

    /// The change-reason set.
    pub fn get_reason_code(&self) -> (r: Reason)
        ensures
            r == self.spec_reason(),
    {
        match self {
            UsnRecord::V2(rec) => rec.reason,
            UsnRecord::V3(rec) => rec.reason,
        }
    }

    /// The file reference in width-agnostic 64-bit form.
    pub fn get_file_reference(&self) -> (r: MftReference)
        ensures
            r == self.spec_file_reference(),
    {
        match self {
            UsnRecord::V2(rec) => rec.file_reference,
            UsnRecord::V3(rec) => rec.file_reference.as_mft_reference(),
        }
    }

    /// The parent reference in width-agnostic 64-bit form.
    pub fn get_parent_reference(&self) -> (r: MftReference)
        ensures
            r == self.spec_parent_reference(),
    {
        match self {
            UsnRecord::V2(rec) => rec.parent_reference,
            UsnRecord::V3(rec) => rec.parent_reference.as_mft_reference(),
        }
    }
}

/// Full contract of the strict narrow-layout entry point.
pub open spec fn v2_new_result(r: Result<UsnRecordV2, UsnError>, b: Seq<u8>) -> bool {
    if b.len() < 4 {
        r == Err::<UsnRecordV2, UsnError>(UsnError::IoError)
    } else {
        let rl = le32(b, 0);
        if rl == 0 {
            r matches Err(UsnError::InvalidRecord(m)) && m@ == "Record length is 0."@
        } else if rl > 1024 {
            r matches Err(UsnError::InvalidRecord(m)) && m@ == "Record length is over 1024."@
        } else if b.len() < 6 {
            r == Err::<UsnRecordV2, UsnError>(UsnError::IoError)
        } else if le16(b, 4) != 2 {
            r matches Err(UsnError::InvalidRecord(m)) && m@ == "Major version is not 2"@
        } else if b.len() < 8 {
            r == Err::<UsnRecordV2, UsnError>(UsnError::IoError)
        } else if le16(b, 6) != 0 {
            r matches Err(UsnError::InvalidRecord(m)) && m@ == "Minor version is not 0"@
        } else {
            v2_body_result(r, rl, 2, 0, b.skip(8))
        }
    }
}

/// Full contract of the strict wide-layout entry point.
pub open spec fn v3_new_result(r: Result<UsnRecordV3, UsnError>, b: Seq<u8>) -> bool {
    if b.len() < 4 {
        r == Err::<UsnRecordV3, UsnError>(UsnError::IoError)
    } else {
        let rl = le32(b, 0);
        if rl == 0 {
            r matches Err(UsnError::InvalidRecord(m)) && m@ == "Record length is 0."@
        } else if rl > 1024 {
            r matches Err(UsnError::InvalidRecord(m)) && m@ == "Record length is over 1024."@
        } else if b.len() < 6 {
            r == Err::<UsnRecordV3, UsnError>(UsnError::IoError)
        } else if le16(b, 4) != 3 {
            r matches Err(UsnError::InvalidRecord(m)) && m@ == "Major version is not 3"@
        } else if b.len() < 8 {
            r == Err::<UsnRecordV3, UsnError>(UsnError::IoError)
        } else if le16(b, 6) != 0 {
            r matches Err(UsnError::InvalidRecord(m)) && m@ == "Minor version is not 0"@
        } else {
            v3_body_result(r, rl, 3, 0, b.skip(8))
        }
    }
}

impl UsnRecordV2 {
    /// Strict single-shape construction: validates the stated length and the
    /// exact expected versions before decoding the narrow body.
    pub fn new(bytes: &[u8]) -> (r: Result<UsnRecordV2, UsnError>)
        ensures
            v2_new_result(r, bytes@),
    {
        if bytes.len() < 4 {
            return Err(UsnError::IoError);
        }
        let record_length = u32_from_le_bytes(slice_subrange(bytes, 0, 4));
        if record_length == 0 {
            return Err(UsnError::InvalidRecord(String::from_str("Record length is 0.")));
        }
        if record_length > 1024 {
            return Err(UsnError::InvalidRecord(String::from_str("Record length is over 1024.")));
        }
        if bytes.len() < 6 {
            return Err(UsnError::IoError);
        }
        let major_version = u16_from_le_bytes(slice_subrange(bytes, 4, 6));
        if major_version != 2 {
            return Err(UsnError::InvalidRecord(String::from_str("Major version is not 2")));
        }
        if bytes.len() < 8 {
            return Err(UsnError::IoError);
        }
        let minor_version = u16_from_le_bytes(slice_subrange(bytes, 6, 8));
        if minor_version != 0 {
            return Err(UsnError::InvalidRecord(String::from_str("Minor version is not 0")));
        }
        let body = slice_subrange(bytes, 8, bytes.len());
        proof {
            assert(body@ =~= bytes@.skip(8));
        }
        Self::new_with_header(record_length, major_version, minor_version, body)
    }

    /// Header-preread construction: decodes the narrow body that follows an
    /// already-read header; applies no strict validation beyond the bounds
    /// of the body itself.
    pub fn new_with_header(
        record_length: u32,
        major_version: u16,
        minor_version: u16,
        body: &[u8],
    ) -> (r: Result<UsnRecordV2, UsnError>)
        ensures
            v2_body_result(r, record_length, major_version, minor_version, body@),
    {
        decode_v2_body(record_length, major_version, minor_version, body)
    }
}

impl UsnRecordV3 {
    /// Strict single-shape construction: validates the stated length and the
    /// exact expected versions before decoding the wide body.
    pub fn new(bytes: &[u8]) -> (r: Result<UsnRecordV3, UsnError>)
        ensures
            v3_new_result(r, bytes@),
    {
        if bytes.len() < 4 {
            return Err(UsnError::IoError);
        }
        let record_length = u32_from_le_bytes(slice_subrange(bytes, 0, 4));
        if record_length == 0 {
            return Err(UsnError::InvalidRecord(String::from_str("Record length is 0.")));
        }
        if record_length > 1024 {
            return Err(UsnError::InvalidRecord(String::from_str("Record length is over 1024.")));
        }
        if bytes.len() < 6 {
            return Err(UsnError::IoError);
        }
        let major_version = u16_from_le_bytes(slice_subrange(bytes, 4, 6));
        if major_version != 3 {
            return Err(UsnError::InvalidRecord(String::from_str("Major version is not 3")));
        }
        if bytes.len() < 8 {
            return Err(UsnError::IoError);
        }
        let minor_version = u16_from_le_bytes(slice_subrange(bytes, 6, 8));
        if minor_version != 0 {
            return Err(UsnError::InvalidRecord(String::from_str("Minor version is not 0")));
        }
        let body = slice_subrange(bytes, 8, bytes.len());
        proof {
            assert(body@ =~= bytes@.skip(8));
        }
        Self::new_with_header(record_length, major_version, minor_version, body)
    }

    /// Header-preread construction: decodes the wide body that follows an
    /// already-read header; applies no strict validation beyond the bounds
    /// of the body itself.
    pub fn new_with_header(
        record_length: u32,
        major_version: u16,
        minor_version: u16,
        body: &[u8],
    ) -> (r: Result<UsnRecordV3, UsnError>)
        ensures
            v3_body_result(r, record_length, major_version, minor_version, body@),
    {
        decode_v3_body(record_length, major_version, minor_version, body)
    }
}

/// `fs` is the ordered projection of a narrow-layout record: every key in
/// declaration order, flag fields as their symbolic names, the timestamp in
/// its RFC 3339 UTC rendering.
pub open spec fn v2_fields_match(fs: Seq<JsonField>, rec: UsnRecordV2) -> bool {
    &&& fs.len() == 14
    &&& fs[0].key@ == "record_length"@
    &&& fs[0].value == FieldValue::Unsigned(rec.record_length as u64)
    &&& fs[1].key@ == "major_version"@
    &&& fs[1].value == FieldValue::Unsigned(rec.major_version as u64)
    &&& fs[2].key@ == "minor_version"@
    &&& fs[2].value == FieldValue::Unsigned(rec.minor_version as u64)
    &&& fs[3].key@ == "file_reference"@
    &&& fs[3].value == (FieldValue::Ref64 {
        entry: rec.file_reference.entry,
        sequence: rec.file_reference.sequence,
    })
    &&& fs[4].key@ == "parent_reference"@
    &&& fs[4].value == (FieldValue::Ref64 {
        entry: rec.parent_reference.entry,
        sequence: rec.parent_reference.sequence,
    })
    &&& fs[5].key@ == "usn"@
    &&& fs[5].value == FieldValue::Unsigned(rec.usn)
    &&& fs[6].key@ == "timestamp"@
    &&& (fs[6].value matches FieldValue::Text(s) && s@ == iso_utc_of(
        rec.timestamp.ticks / TICKS_PER_MICROSECOND,
    ))
    &&& fs[7].key@ == "reason"@
    &&& (fs[7].value matches FieldValue::Text(s) && s@ == spec_display_name(
        FlagDomain::Reason,
        rec.reason@,
    ))
    &&& fs[8].key@ == "source_info"@
    &&& (fs[8].value matches FieldValue::Text(s) && s@ == spec_display_name(
        FlagDomain::Source,
        rec.source_info@,
    ))
    &&& fs[9].key@ == "security_id"@
    &&& fs[9].value == FieldValue::Unsigned(rec.security_id as u64)
    &&& fs[10].key@ == "file_attributes"@
    &&& (fs[10].value matches FieldValue::Text(s) && s@ == spec_display_name(
        FlagDomain::Attributes,
        rec.file_attributes@,
    ))
    &&& fs[11].key@ == "file_name_length"@
    &&& fs[11].value == FieldValue::Unsigned(rec.file_name_length as u64)
    &&& fs[12].key@ == "file_name_offset"@
    &&& fs[12].value == FieldValue::Unsigned(rec.file_name_offset as u64)
    &&& fs[13].key@ == "file_name"@
    &&& (fs[13].value matches FieldValue::Text(s) && s@ == rec.file_name@)
}

/// `fs` is the ordered projection of a wide-layout record: as the narrow
/// projection, with each 128-bit reference carrying its raw value beside the
/// parts of its lossy 64-bit projection.
pub open spec fn v3_fields_match(fs: Seq<JsonField>, rec: UsnRecordV3) -> bool {
    &&& fs.len() == 14
    &&& fs[0].key@ == "record_length"@
    &&& fs[0].value == FieldValue::Unsigned(rec.record_length as u64)
    &&& fs[1].key@ == "major_version"@
    &&& fs[1].value == FieldValue::Unsigned(rec.major_version as u64)
    &&& fs[2].key@ == "minor_version"@
    &&& fs[2].value == FieldValue::Unsigned(rec.minor_version as u64)
    &&& fs[3].key@ == "file_reference"@
    &&& fs[3].value == (FieldValue::Ref128 {
        value: rec.file_reference.0,
        entry: spec_mft_from_u64(spec_low64(rec.file_reference.0)).entry,
        sequence: spec_mft_from_u64(spec_low64(rec.file_reference.0)).sequence,
    })
    &&& fs[4].key@ == "parent_reference"@
    &&& fs[4].value == (FieldValue::Ref128 {
        value: rec.parent_reference.0,
        entry: spec_mft_from_u64(spec_low64(rec.parent_reference.0)).entry,
        sequence: spec_mft_from_u64(spec_low64(rec.parent_reference.0)).sequence,
    })
    &&& fs[5].key@ == "usn"@
    &&& fs[5].value == FieldValue::Unsigned(rec.usn)
    &&& fs[6].key@ == "timestamp"@
    &&& (fs[6].value matches FieldValue::Text(s) && s@ == iso_utc_of(
        rec.timestamp.ticks / TICKS_PER_MICROSECOND,
    ))
    &&& fs[7].key@ == "reason"@
    &&& (fs[7].value matches FieldValue::Text(s) && s@ == spec_display_name(
        FlagDomain::Reason,
        rec.reason@,
    ))
    &&& fs[8].key@ == "source_info"@
    &&& (fs[8].value matches FieldValue::Text(s) && s@ == spec_display_name(
        FlagDomain::Source,
        rec.source_info@,
    ))
    &&& fs[9].key@ == "security_id"@
    &&& fs[9].value == FieldValue::Unsigned(rec.security_id as u64)
    &&& fs[10].key@ == "file_attributes"@
    &&& (fs[10].value matches FieldValue::Text(s) && s@ == spec_display_name(
        FlagDomain::Attributes,
        rec.file_attributes@,
    ))
    &&& fs[11].key@ == "file_name_length"@
    &&& fs[11].value == FieldValue::Unsigned(rec.file_name_length as u64)
    &&& fs[12].key@ == "file_name_offset"@
    &&& fs[12].value == FieldValue::Unsigned(rec.file_name_offset as u64)
    &&& fs[13].key@ == "file_name"@
    &&& (fs[13].value matches FieldValue::Text(s) && s@ == rec.file_name@)
}

/// `fs` is the ordered projection of a record of either layout.
pub open spec fn record_fields_match(fs: Seq<JsonField>, rec: UsnRecord) -> bool {
    match rec {
        UsnRecord::V2(r2) => v2_fields_match(fs, r2),
        UsnRecord::V3(r3) => v3_fields_match(fs, r3),
    }
}

proof fn lemma_v2_match_equiv(a: Seq<JsonField>, b: Seq<JsonField>, rec: UsnRecordV2)
    requires
        v2_fields_match(a, rec),
        v2_fields_match(b, rec),
    ensures
        crate::json::fields_equiv(a, b),
{
    assert forall|i: int| 0 <= i < a.len() implies (#[trigger] a[i]).key@ == b[i].key@
        && crate::json::value_equiv(a[i].value, b[i].value) by {}
}

proof fn lemma_v3_match_equiv(a: Seq<JsonField>, b: Seq<JsonField>, rec: UsnRecordV3)
    requires
        v3_fields_match(a, rec),
        v3_fields_match(b, rec),
    ensures
        crate::json::fields_equiv(a, b),
{
    assert forall|i: int| 0 <= i < a.len() implies (#[trigger] a[i]).key@ == b[i].key@
        && crate::json::value_equiv(a[i].value, b[i].value) by {}
}

proof fn lemma_record_match_equiv(a: Seq<JsonField>, b: Seq<JsonField>, rec: UsnRecord)
    requires
        record_fields_match(a, rec),
        record_fields_match(b, rec),
    ensures
        crate::json::fields_equiv(a, b),
{
    match rec {
        UsnRecord::V2(r2) => lemma_v2_match_equiv(a, b, r2),
        UsnRecord::V3(r3) => lemma_v3_match_equiv(a, b, r3),
    }
}

impl UsnRecordV2 {
    /// Projects the record into its ordered key-value representation, in
    /// declaration order.
    pub fn to_field_pairs(&self) -> (r: Vec<JsonField>)
        ensures
            v2_fields_match(r@, *self),
    {
        let mut fs: Vec<JsonField> = Vec::new();
        fs.push(
            JsonField {
                key: String::from_str("record_length"),
                value: FieldValue::Unsigned(self.record_length as u64),
            },
        );
        fs.push(
            JsonField {
                key: String::from_str("major_version"),
                value: FieldValue::Unsigned(self.major_version as u64),
            },
        );
        fs.push(
            JsonField {
                key: String::from_str("minor_version"),
                value: FieldValue::Unsigned(self.minor_version as u64),
            },
        );
        fs.push(
            JsonField {
                key: String::from_str("file_reference"),
                value: FieldValue::Ref64 {
                    entry: self.file_reference.entry,
                    sequence: self.file_reference.sequence,
                },
            },
        );
        fs.push(
            JsonField {
                key: String::from_str("parent_reference"),
                value: FieldValue::Ref64 {
                    entry: self.parent_reference.entry,
                    sequence: self.parent_reference.sequence,
                },
            },
        );
        fs.push(
            JsonField { key: String::from_str("usn"), value: FieldValue::Unsigned(self.usn) },
        );
        fs.push(
            JsonField {
                key: String::from_str("timestamp"),
                value: FieldValue::Text(self.timestamp.to_iso_string()),
            },
        );
        fs.push(
            JsonField {
                key: String::from_str("reason"),
                value: FieldValue::Text(self.reason.to_display_name()),
            },
        );
        fs.push(
            JsonField {
                key: String::from_str("source_info"),
                value: FieldValue::Text(self.source_info.to_display_name()),
            },
        );
        fs.push(
            JsonField {
                key: String::from_str("security_id"),
                value: FieldValue::Unsigned(self.security_id as u64),
            },
        );
        fs.push(
            JsonField {
                key: String::from_str("file_attributes"),
                value: FieldValue::Text(self.file_attributes.to_display_name()),
            },
        );
        fs.push(
            JsonField {
                key: String::from_str("file_name_length"),
                value: FieldValue::Unsigned(self.file_name_length as u64),
            },
        );
        fs.push(
            JsonField {
                key: String::from_str("file_name_offset"),
                value: FieldValue::Unsigned(self.file_name_offset as u64),
            },
        );
        fs.push(
            JsonField {
                key: String::from_str("file_name"),
                value: FieldValue::Text(self.file_name.clone()),
            },
        );
        fs
    }

    /// JSON text of the record, fields in declaration order.
    pub fn to_json(&self) -> (r: String)
        ensures
            forall|fs: Seq<JsonField>|
                v2_fields_match(fs, *self) ==> r@ == crate::json::render_object(fs, false),
    {
        let pairs = self.to_field_pairs();
        let out = crate::json::render_json_object(&pairs, false);
        proof {
            assert forall|fs: Seq<JsonField>| v2_fields_match(fs, *self) implies out@
                == crate::json::render_object(fs, false) by {
                lemma_v2_match_equiv(pairs@, fs, *self);
                crate::json::lemma_render_object_congruence(pairs@, fs, false);
            }
        }
        out
    }
}

impl UsnRecordV3 {
    /// Projects the record into its ordered key-value representation, in
    /// declaration order.
    pub fn to_field_pairs(&self) -> (r: Vec<JsonField>)
        ensures
            v3_fields_match(r@, *self),
    {
        let mut fs: Vec<JsonField> = Vec::new();
        fs.push(
            JsonField {
                key: String::from_str("record_length"),
                value: FieldValue::Unsigned(self.record_length as u64),
            },
        );
        fs.push(
            JsonField {
                key: String::from_str("major_version"),
                value: FieldValue::Unsigned(self.major_version as u64),
            },
        );
        fs.push(
            JsonField {
                key: String::from_str("minor_version"),
                value: FieldValue::Unsigned(self.minor_version as u64),
            },
        );
        let file_ref = self.file_reference.as_mft_reference();
        fs.push(
            JsonField {
                key: String::from_str("file_reference"),
                value: FieldValue::Ref128 {
                    value: self.file_reference.as_u128(),
                    entry: file_ref.entry,
                    sequence: file_ref.sequence,
                },
            },
        );
        let parent_ref = self.parent_reference.as_mft_reference();
        fs.push(
            JsonField {
                key: String::from_str("parent_reference"),
                value: FieldValue::Ref128 {
                    value: self.parent_reference.as_u128(),
                    entry: parent_ref.entry,
                    sequence: parent_ref.sequence,
                },
            },
        );
        fs.push(
            JsonField { key: String::from_str("usn"), value: FieldValue::Unsigned(self.usn) },
        );
        fs.push(
            JsonField {
                key: String::from_str("timestamp"),
                value: FieldValue::Text(self.timestamp.to_iso_string()),
            },
        );
        fs.push(
            JsonField {
                key: String::from_str("reason"),
                value: FieldValue::Text(self.reason.to_display_name()),
            },
        );
        fs.push(
            JsonField {
                key: String::from_str("source_info"),
                value: FieldValue::Text(self.source_info.to_display_name()),
            },
        );
        fs.push(
            JsonField {
                key: String::from_str("security_id"),
                value: FieldValue::Unsigned(self.security_id as u64),
            },
        );
        fs.push(
            JsonField {
                key: String::from_str("file_attributes"),
                value: FieldValue::Text(self.file_attributes.to_display_name()),
            },
        );
        fs.push(
            JsonField {
                key: String::from_str("file_name_length"),
                value: FieldValue::Unsigned(self.file_name_length as u64),
            },
        );
        fs.push(
            JsonField {
                key: String::from_str("file_name_offset"),
                value: FieldValue::Unsigned(self.file_name_offset as u64),
            },
        );
        fs.push(
            JsonField {
                key: String::from_str("file_name"),
                value: FieldValue::Text(self.file_name.clone()),
            },
        );
        fs
    }

    /// JSON text of the record, fields in declaration order.
    pub fn to_json(&self) -> (r: String)
        ensures
            forall|fs: Seq<JsonField>|
                v3_fields_match(fs, *self) ==> r@ == crate::json::render_object(fs, false),
    {
        let pairs = self.to_field_pairs();
        let out = crate::json::render_json_object(&pairs, false);
        proof {
            assert forall|fs: Seq<JsonField>| v3_fields_match(fs, *self) implies out@
                == crate::json::render_object(fs, false) by {
                lemma_v3_match_equiv(pairs@, fs, *self);
                crate::json::lemma_render_object_congruence(pairs@, fs, false);
            }
        }
        out
    }
}

impl UsnRecord {
    /// Projects the record into its ordered key-value representation, in
    /// declaration order.
    pub fn to_field_pairs(&self) -> (r: Vec<JsonField>)
        ensures
            record_fields_match(r@, *self),
    {
        match self {
            UsnRecord::V2(rec) => rec.to_field_pairs(),
            UsnRecord::V3(rec) => rec.to_field_pairs(),
        }
    }

    /// JSON text of the record, fields in declaration order.
    pub fn to_json(&self) -> (r: String)
        ensures
            forall|fs: Seq<JsonField>|
                record_fields_match(fs, *self) ==> r@ == crate::json::render_object(fs, false),
    {
        let pairs = self.to_field_pairs();
        let out = crate::json::render_json_object(&pairs, false);
        proof {
            assert forall|fs: Seq<JsonField>| record_fields_match(fs, *self) implies out@
                == crate::json::render_object(fs, false) by {
                lemma_record_match_equiv(pairs@, fs, *self);
                crate::json::lemma_render_object_congruence(pairs@, fs, false);
            }
        }
        out
    }

    /// JSON text of the record's structured value: fields ordered by key,
    /// with the fields of `additional`, when supplied, merged in and winning
    /// on key collision. Always succeeds: the typed representation cannot
    /// lose its object shape.
    pub fn to_json_value(&self, additional: Option<Vec<JsonField>>) -> (r: Result<
        String,
        UsnError,
    >)
        ensures
            r is Ok,
            additional is None ==> forall|fs: Seq<JsonField>|
                record_fields_match(fs, *self) ==> (r matches Ok(s) && s@
                    == crate::json::render_object(crate::json::spec_sorted_fields(fs), true)),
            additional matches Some(add) ==> forall|fs: Seq<JsonField>|
                record_fields_match(fs, *self) ==> (r matches Ok(s) && s@
                    == crate::json::render_object(
                    crate::json::spec_sorted_fields(crate::json::spec_merge(fs, add@)),
                    true,
                )),
    {
        let pairs = self.to_field_pairs();
        let ghost base = pairs@;
        let merged = match additional {
            Some(add) => crate::json::merge_fields(pairs, add),
            None => pairs,
        };
        let ordered = crate::json::sort_fields(merged);
        let out = crate::json::render_json_object(&ordered, true);
        proof {
            if additional is None {
                assert forall|fs: Seq<JsonField>| record_fields_match(fs, *self) implies out@
                    == crate::json::render_object(crate::json::spec_sorted_fields(fs), true) by {
                    lemma_record_match_equiv(base, fs, *self);
                    crate::json::lemma_sorted_equiv(base, fs);
                    crate::json::lemma_render_object_congruence(
                        crate::json::spec_sorted_fields(base),
                        crate::json::spec_sorted_fields(fs),
                        true,
                    );
                }
            } else {
                let add = additional->Some_0;
                assert forall|fs: Seq<JsonField>| record_fields_match(fs, *self) implies out@
                    == crate::json::render_object(
                    crate::json::spec_sorted_fields(crate::json::spec_merge(fs, add@)),
                    true,
                ) by {
                    lemma_record_match_equiv(base, fs, *self);
                    assert(crate::json::fields_equiv(add@, add@));
                    crate::json::lemma_merge_equiv(base, fs, add@, add@);
                    crate::json::lemma_sorted_equiv(
                        crate::json::spec_merge(base, add@),
                        crate::json::spec_merge(fs, add@),
                    );
                    crate::json::lemma_render_object_congruence(
                        crate::json::spec_sorted_fields(crate::json::spec_merge(base, add@)),
                        crate::json::spec_sorted_fields(crate::json::spec_merge(fs, add@)),
                        true,
                    );
                }
            }
        }
        Ok(out)
    }
}

/// Provenance attached by the caller: where the record's bytes were found.
/// Never produced by the decoder; merged into projected output only.
#[derive(Debug, Clone)]
pub struct EntryMeta {
    pub source: String,
    pub offset: u64,
}

/// `fs` is the ordered projection of caller-supplied metadata, its keys
/// distinctly prefixed so they cannot collide with record fields.
pub open spec fn meta_fields_match(fs: Seq<JsonField>, meta: EntryMeta) -> bool {
    &&& fs.len() == 2
    &&& fs[0].key@ == "meta__source"@
    &&& (fs[0].value matches FieldValue::Text(s) && s@ == meta.source@)
    &&& fs[1].key@ == "meta__offset"@
    &&& fs[1].value == FieldValue::Unsigned(meta.offset)
}

proof fn lemma_meta_match_equiv(a: Seq<JsonField>, b: Seq<JsonField>, meta: EntryMeta)
    requires
        meta_fields_match(a, meta),
        meta_fields_match(b, meta),
    ensures
        crate::json::fields_equiv(a, b),
{
    assert forall|i: int| 0 <= i < a.len() implies (#[trigger] a[i]).key@ == b[i].key@
        && crate::json::value_equiv(a[i].value, b[i].value) by {}
}

impl EntryMeta {
    /// Wraps a source identifier and byte offset.
    pub fn new(source: &str, offset: u64) -> (r: Self)
        ensures
            r.source@ == source@,
            r.offset == offset,
    {
        EntryMeta { source: source.to_owned(), offset }
    }

    /// Projects the metadata into its ordered key-value representation.
    /// Always succeeds: the typed representation cannot lose its object
    /// shape.
    pub fn to_json_value(&self) -> (r: Result<Vec<JsonField>, UsnError>)
        ensures
            r matches Ok(fs) && meta_fields_match(fs@, *self),
    {
        let mut fs: Vec<JsonField> = Vec::new();
        fs.push(
            JsonField {
                key: String::from_str("meta__source"),
                value: FieldValue::Text(self.source.clone()),
            },
        );
        fs.push(
            JsonField {
                key: String::from_str("meta__offset"),
                value: FieldValue::Unsigned(self.offset),
            },
        );
        Ok(fs)
    }
}

/// A decoded record together with the provenance of its bytes.
#[derive(Debug)]
pub struct UsnEntry {
    pub meta: EntryMeta,
    pub record: UsnRecord,
}

impl UsnEntry {
    /// Decodes one record from `bytes` and attaches `meta` to it. `version`
    /// is the caller hint forwarded to the dispatching decoder, which
    /// ignores it.
    pub fn new(meta: EntryMeta, version: u16, bytes: &[u8]) -> (r: Result<UsnEntry, UsnError>)
        ensures
            match r {
                Ok(e) => e.meta == meta && usn_record_new_result(
                    Result::<UsnRecord, UsnError>::Ok(e.record),
                    bytes@,
                ),
                Err(e) => usn_record_new_result(Result::<UsnRecord, UsnError>::Err(e), bytes@),
            },
    {
        match UsnRecord::new(version, bytes) {
            Ok(record) => Ok(UsnEntry { meta, record }),
            Err(e) => Err(e),
        }
    }

    /// JSON text of the record's structured value with the metadata fields
    /// merged in, ordered by key.
    pub fn to_json_value(&self) -> (r: Result<String, UsnError>)
        ensures
            r is Ok,
            forall|fs: Seq<JsonField>, ms: Seq<JsonField>|
                record_fields_match(fs, self.record) && meta_fields_match(ms, self.meta) ==> (
                r matches Ok(s) && s@ == crate::json::render_object(
                    crate::json::spec_sorted_fields(crate::json::spec_merge(fs, ms)),
                    true,
                )),
    {
        let add = match self.meta.to_json_value() {
            Ok(fs) => fs,
            Err(e) => {
                return Err(e);
            },
        };
        let ghost add_view = add@;
        let out = self.record.to_json_value(Some(add));
        proof {
            assert forall|fs: Seq<JsonField>, ms: Seq<JsonField>|
                record_fields_match(fs, self.record) && meta_fields_match(ms, self.meta) implies (
            out matches Ok(s) && s@ == crate::json::render_object(
                crate::json::spec_sorted_fields(crate::json::spec_merge(fs, ms)),
                true,
            )) by {
                lemma_meta_match_equiv(add_view, ms, self.meta);
                assert(crate::json::fields_equiv(fs, fs));
                crate::json::lemma_merge_equiv(fs, fs, add_view, ms);
                crate::json::lemma_sorted_equiv(
                    crate::json::spec_merge(fs, add_view),
                    crate::json::spec_merge(fs, ms),
                );
                crate::json::lemma_render_object_congruence(
                    crate::json::spec_sorted_fields(crate::json::spec_merge(fs, add_view)),
                    crate::json::spec_sorted_fields(crate::json::spec_merge(fs, ms)),
                    true,
                );
            }
        }
        out
    }
}

/// The on-wire bytes of the 8-byte header prefix shared by both layouts.
pub open spec fn spec_header_bytes(rl: u32, maj: u16, min: u16) -> Seq<u8> {
    spec_u32_to_le_bytes(rl) + spec_u16_to_le_bytes(maj) + spec_u16_to_le_bytes(min)
}

/// Re-encodes the fixed header prefix of a decoded record to its on-wire
/// bytes.
pub fn encode_header(record_length: u32, major_version: u16, minor_version: u16) -> (r: Vec<u8>)
    ensures
        r@ == spec_header_bytes(record_length, major_version, minor_version),
{
    let mut out = u32_to_le_bytes(record_length);
    let mut maj = u16_to_le_bytes(major_version);
    out.append(&mut maj);
    let mut min = u16_to_le_bytes(minor_version);
    out.append(&mut min);
    proof {
        assert(out@ =~= spec_header_bytes(record_length, major_version, minor_version));
    }
    out
}

/// Law: decoding a well-formed 96-byte narrow version-2 buffer succeeds, and
/// re-encoding the header fields of any record decoded from it reproduces
/// the buffer's 8-byte header prefix byte for byte (the remaining fields
/// equal their little-endian reads by the decode contract itself).
pub proof fn lemma_v2_header_roundtrip(b: Seq<u8>)
    requires
        b.len() == 96,
        le16(b, 4) == 2,
        le16(b, 6) == 0,
        le16(b, 56) <= le32(b, 0),
        60 + le16(b, 56) <= 96,
    ensures
        forall|r: Result<UsnRecord, UsnError>| usn_record_new_result(r, b) ==> r is Ok,
        forall|rec: UsnRecordV2|
            v2_body_matches(rec, le32(b, 0), 2, 0, b.skip(8)) ==> spec_header_bytes(
                rec.record_length,
                rec.major_version,
                rec.minor_version,
            ) == b.subrange(0, 8),
{
    let body = b.skip(8);
    assert(body.len() == 88);
    assert(body.subrange(48, 50) =~= b.subrange(56, 58));
    assert forall|r: Result<UsnRecord, UsnError>| usn_record_new_result(r, b) implies r is Ok by {
        if r is Err {
            let e = r->Err_0;
            assert(v2_body_err(e, le32(b, 0), body));
            assert(false);
        }
    }
    assert forall|rec: UsnRecordV2|
        v2_body_matches(rec, le32(b, 0), 2, 0, b.skip(8)) implies spec_header_bytes(
        rec.record_length,
        rec.major_version,
        rec.minor_version,
    ) == b.subrange(0, 8) by {
        lemma_auto_spec_u32_to_from_le_bytes();
        lemma_auto_spec_u16_to_from_le_bytes();
        assert(b.subrange(0, 4).len() == 4);
        assert(b.subrange(4, 6).len() == 2);
        assert(b.subrange(6, 8).len() == 2);
        assert(spec_u32_to_le_bytes(rec.record_length) == b.subrange(0, 4));
        assert(spec_u16_to_le_bytes(rec.major_version) == b.subrange(4, 6));
        assert(spec_u16_to_le_bytes(rec.minor_version) == b.subrange(6, 8));
        assert(spec_header_bytes(rec.record_length, rec.major_version, rec.minor_version) =~= b
            .subrange(0, 8));
    }
}

/// Law: a buffer whose embedded major version lies outside {2, 3, 4} is
/// rejected as unsupported, with the offending version reported.
pub proof fn lemma_unknown_version_rejected(b: Seq<u8>, r: Result<UsnRecord, UsnError>)
    requires
        b.len() >= 8,
        le16(b, 4) != 2,
        le16(b, 4) != 3,
        le16(b, 4) != 4,
        usn_record_new_result(r, b),
    ensures
        r == Err::<UsnRecord, UsnError>(UsnError::UnsupportedVersion(le16(b, 4))),
{
}

/// Law: a major-version-4 buffer is rejected as unsupported whatever its
/// length and whichever layout the width classification selects.
pub proof fn lemma_version_four_rejected(b: Seq<u8>, r: Result<UsnRecord, UsnError>)
    requires
        b.len() >= 8,
        le16(b, 4) == 4,
        usn_record_new_result(r, b),
    ensures
        r == Err::<UsnRecord, UsnError>(UsnError::UnsupportedVersion(4)),
{
}

/// Law: a narrow-layout buffer of major version 3 decodes — when it decodes
/// at all — into the narrow shape with its true major version preserved.
pub proof fn lemma_narrow_v3_preserves_version(b: Seq<u8>, r: Result<UsnRecord, UsnError>)
    requires
        b.len() >= 8,
        le16(b, 4) == 3,
        le32(b, 0) < 76,
        usn_record_new_result(r, b),
    ensures
        r matches Ok(rec) ==> rec matches UsnRecord::V2(v2) && v2.major_version == 3,
{
}

} // verus!
