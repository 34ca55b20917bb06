//! Decoder for NTFS update sequence number (USN) journal change records.
//!
//! Raw journal bytes are decoded into structured records: version dispatch
//! over the narrow (64-bit file reference) and wide (128-bit file reference)
//! wire layouts, bit-flag decoding for the file-attribute, change-reason and
//! source-classification domains, Windows-epoch timestamp handling, and a
//! structured key-value projection of a decoded record merged with optional
//! caller-supplied metadata.

pub mod error;
pub mod flags;
pub mod json;
pub mod record;
pub mod utils;
