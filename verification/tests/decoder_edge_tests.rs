use rusty_usn::error::UsnError;
use rusty_usn::flags;
use rusty_usn::json;
use rusty_usn::record;
use rusty_usn::utils;

#[test]
fn unsupported_major_version_rejected() {
    // Versions outside {2, 3, 4} fail with UnsupportedVersion carrying the
    // offending version.
    let v1_header: &[u8] = &[0x60, 0x00, 0x00, 0x00, 0x01, 0x00, 0x00, 0x00];
    let r = record::UsnRecord::new(1, v1_header);
    assert!(matches!(r, Err(UsnError::UnsupportedVersion(1))));

    let v5_header: &[u8] = &[0x60, 0x00, 0x00, 0x00, 0x05, 0x00, 0x00, 0x00];
    let r = record::UsnRecord::new(5, v5_header);
    assert!(matches!(r, Err(UsnError::UnsupportedVersion(5))));
}

#[test]
fn version_four_rejected_in_both_layouts() {
    // Wide classification (record_length >= 76).
    let wide_header: &[u8] = &[0x70, 0x00, 0x00, 0x00, 0x04, 0x00, 0x00, 0x00];
    let r = record::UsnRecord::new(4, wide_header);
    assert!(matches!(r, Err(UsnError::UnsupportedVersion(4))));

    // Narrow classification (record_length < 76).
    let narrow_header: &[u8] = &[0x3C, 0x00, 0x00, 0x00, 0x04, 0x00, 0x00, 0x00];
    let r = record::UsnRecord::new(4, narrow_header);
    assert!(matches!(r, Err(UsnError::UnsupportedVersion(4))));
}

#[test]
fn narrow_v3_decodes_as_v2_shape_with_version_preserved() {
    // A 60-byte version-3 record: too short for the wide layout, so it takes
    // the narrow shape, keeping major_version == 3.
    let mut buffer = vec![0u8; 60];
    buffer[0] = 60; // record_length
    buffer[4] = 3; // major_version
    let r = record::UsnRecord::new(3, &buffer).unwrap();
    match r {
        record::UsnRecord::V2(rec) => {
            assert_eq!(rec.major_version, 3);
            assert_eq!(rec.minor_version, 0);
            assert_eq!(rec.record_length, 60);
            assert_eq!(rec.file_name, "");
        }
        record::UsnRecord::V3(_) => panic!("narrow layout must decode in the V2 shape"),
    }
}

#[test]
fn truncated_buffers_fail_with_io_error() {
    let empty: &[u8] = &[];
    assert!(matches!(
        record::UsnRecord::new(2, empty),
        Err(UsnError::IoError)
    ));

    let header_only: &[u8] = &[0x60, 0x00, 0x00, 0x00];
    assert!(matches!(
        record::UsnRecord::new(2, header_only),
        Err(UsnError::IoError)
    ));

    // A valid header whose body ends before the fixed fields do.
    let mut short = vec![0u8; 40];
    short[0] = 0x60;
    short[4] = 2;
    assert!(matches!(
        record::UsnRecord::new(2, &short),
        Err(UsnError::IoError)
    ));

    // Fixed fields complete, but the name payload is cut off.
    let mut cut_name = vec![0u8; 70];
    cut_name[0] = 0x60;
    cut_name[4] = 2;
    cut_name[56] = 32; // file_name_length: needs 60 + 32 = 92 bytes
    assert!(matches!(
        record::UsnRecord::new(2, &cut_name),
        Err(UsnError::IoError)
    ));
}

#[test]
fn strict_v2_constructor_validates_shape() {
    let zero_length: &[u8] = &[0x00, 0x00, 0x00, 0x00];
    match record::UsnRecordV2::new(zero_length) {
        Err(UsnError::InvalidRecord(m)) => assert_eq!(m, "Record length is 0."),
        other => panic!("{:?}", other),
    }

    // 2000 = 0x07D0 exceeds the 1024 cap.
    let oversized: &[u8] = &[0xD0, 0x07, 0x00, 0x00];
    match record::UsnRecordV2::new(oversized) {
        Err(UsnError::InvalidRecord(m)) => assert_eq!(m, "Record length is over 1024."),
        other => panic!("{:?}", other),
    }

    let wrong_major: &[u8] = &[0x60, 0x00, 0x00, 0x00, 0x03, 0x00];
    match record::UsnRecordV2::new(wrong_major) {
        Err(UsnError::InvalidRecord(m)) => assert_eq!(m, "Major version is not 2"),
        other => panic!("{:?}", other),
    }

    let wrong_minor: &[u8] = &[0x60, 0x00, 0x00, 0x00, 0x02, 0x00, 0x01, 0x00];
    match record::UsnRecordV2::new(wrong_minor) {
        Err(UsnError::InvalidRecord(m)) => assert_eq!(m, "Minor version is not 0"),
        other => panic!("{:?}", other),
    }
}

#[test]
fn strict_v3_constructor_validates_shape() {
    let wrong_major: &[u8] = &[0x70, 0x00, 0x00, 0x00, 0x02, 0x00];
    match record::UsnRecordV3::new(wrong_major) {
        Err(UsnError::InvalidRecord(m)) => assert_eq!(m, "Major version is not 3"),
        other => panic!("{:?}", other),
    }
}

#[test]
fn name_length_beyond_record_length_is_invalid() {
    // A hostile record stating record_length 10 but a 32-byte name: the name
    // allocation would exceed the stated record size.
    let mut buffer = vec![0u8; 96];
    buffer[0] = 10; // record_length
    buffer[4] = 2; // major_version
    buffer[56] = 32; // file_name_length
    match record::UsnRecord::new(2, &buffer) {
        Err(UsnError::InvalidRecord(m)) => {
            assert_eq!(m, "file_name_length exceeds record_length")
        }
        other => panic!("{:?}", other),
    }
}

#[test]
fn flag_bits_roundtrip_and_truncate() {
    // Bits present in the table round-trip unchanged.
    assert_eq!(flags::FileAttributes::from_bits_truncate(0x2020).bits(), 0x2020);
    assert_eq!(flags::Reason::from_bits_truncate(0x8000_0003).bits(), 0x8000_0003);
    assert_eq!(flags::SourceInfo::from_bits_truncate(0x0000_000C).bits(), 0x0000_000C);

    // Unknown bits are dropped, leaving exactly the known mask.
    assert_eq!(
        flags::FileAttributes::from_bits_truncate(0xFFFF_FFFF).bits(),
        0x0046_FFF7
    );
    assert_eq!(flags::Reason::from_bits_truncate(0xFFFF_FFFF).bits(), 0x80FF_FF77);
    assert_eq!(flags::SourceInfo::from_bits_truncate(0xFFFF_FFFF).bits(), 0x0000_000F);
    assert_eq!(flags::FileAttributes::from_bits_truncate(0x0000_0008).bits(), 0);
}

#[test]
fn empty_flag_sets_display_as_empty() {
    assert_eq!(flags::FileAttributes::from_bits_truncate(0).to_display_name(), "(empty)");
    assert_eq!(flags::Reason::from_bits_truncate(0).to_display_name(), "(empty)");
    assert_eq!(flags::SourceInfo::from_bits_truncate(0).to_display_name(), "(empty)");
}

#[test]
fn flag_names_join_in_table_order() {
    assert_eq!(
        flags::Reason::from_bits_truncate(0x8000_0003).to_display_name(),
        "USN_REASON_CLOSE | USN_REASON_DATA_EXTEND | USN_REASON_DATA_OVERWRITE"
    );
    assert_eq!(
        flags::SourceInfo::from_bits_truncate(0x0000_0001).to_display_name(),
        "USN_SOURCE_DATA_MANAGEMENT"
    );
    // The offline and virtual markers intentionally alias bit 0x1000; both
    // names appear for that bit.
    assert_eq!(
        flags::FileAttributes::from_bits_truncate(0x1000).to_display_name(),
        "FILE_ATTRIBUTE_OFFLINE | FILE_ATTRIBUTE_VIRTUAL"
    );
}

#[test]
fn timestamp_conversion_edges() {
    let epoch = utils::u64_to_datetime(0);
    assert_eq!(epoch.to_iso_string(), "1601-01-01T00:00:00Z");
    // 25 ticks of 100 ns are 2 whole microseconds.
    assert_eq!(utils::u64_to_datetime(25).micros(), 2);
    // The test vector of the wide-record fixture.
    let t = utils::u64_to_datetime(0x01D5_65E0_4D4E_B6E9);
    assert_eq!(t.to_iso_string(), "2019-09-08T00:56:52.138160Z");
}

#[test]
fn decimal_rendering_exact() {
    assert_eq!(json::u128_to_decimal(0), "0");
    assert_eq!(json::u64_to_decimal(12345), "12345");
    assert_eq!(json::u128_to_decimal(562949953456825), "562949953456825");
    assert_eq!(
        json::u128_to_decimal(u128::MAX),
        "340282366920938463463374607431768211455"
    );
}

#[test]
fn file_name_is_json_escaped() {
    // 66-byte narrow record whose name is a" b with a quote: 'a', '"', 'b'.
    let mut buffer = vec![0u8; 66];
    buffer[0] = 66; // record_length
    buffer[4] = 2; // major_version
    buffer[56] = 6; // file_name_length
    buffer[60] = 0x61; // 'a'
    buffer[62] = 0x22; // '"'
    buffer[64] = 0x62; // 'b'
    let record = match record::UsnRecord::new(2, &buffer) {
        Ok(record) => record,
        Err(error) => panic!("{:?}", error),
    };
    assert_eq!(record.get_file_name(), "a\"b");
    assert_eq!(
        record.to_json(),
        r#"{"record_length":66,"major_version":2,"minor_version":0,"file_reference":{"entry":0,"sequence":0},"parent_reference":{"entry":0,"sequence":0},"usn":0,"timestamp":"1601-01-01T00:00:00Z","reason":"(empty)","source_info":"(empty)","security_id":0,"file_attributes":"(empty)","file_name_length":6,"file_name_offset":0,"file_name":"a\"b"}"#
    );
}

#[test]
fn undecodable_name_units_are_dropped() {
    // A 3-byte name payload: one full UTF-16 unit ('a') and one dangling
    // byte, which the lossy decode silently drops.
    let mut buffer = vec![0u8; 63];
    buffer[0] = 63; // record_length
    buffer[4] = 2; // major_version
    buffer[56] = 3; // file_name_length
    buffer[60] = 0x61; // 'a'
    buffer[62] = 0x61; // dangling low byte of an incomplete unit
    let record = record::UsnRecord::new(2, &buffer).unwrap();
    assert_eq!(record.get_file_name(), "a");
}

#[test]
fn metadata_collision_lets_metadata_win() {
    let record_buffer: &[u8] = &[
        0x60, 0x00, 0x00, 0x00, 0x02, 0x00, 0x00, 0x00, 0x73, 0x00, 0x00, 0x00, 0x00, 0x00, 0x68,
        0x91, 0x3B, 0x2A, 0x02, 0x00, 0x00, 0x00, 0x07, 0x00, 0x00, 0x00, 0x80, 0xBC, 0x04, 0x00,
        0x00, 0x00, 0x53, 0xC7, 0x8B, 0x18, 0xC5, 0xCC, 0xCE, 0x01, 0x02, 0x00, 0x00, 0x00, 0x00,
        0x00, 0x00, 0x00, 0x00, 0x00, 0x00, 0x00, 0x20, 0x20, 0x00, 0x00, 0x20, 0x00, 0x3C, 0x00,
        0x42, 0x00, 0x54, 0x00, 0x44, 0x00, 0x65, 0x00, 0x76, 0x00, 0x4D, 0x00, 0x61, 0x00, 0x6E,
        0x00, 0x61, 0x00, 0x67, 0x00, 0x65, 0x00, 0x72, 0x00, 0x2E, 0x00, 0x6C, 0x00, 0x6F, 0x00,
        0x67, 0x00, 0x00, 0x00, 0x00, 0x00,
    ];
    let record = record::UsnRecord::new(2, record_buffer).unwrap();
    // A colliding key: the caller-supplied field replaces the record's usn.
    let additional = vec![json::JsonField {
        key: String::from("usn"),
        value: json::FieldValue::Unsigned(1),
    }];
    let merged = record.to_json_value(Some(additional)).unwrap();
    assert_eq!(
        merged,
        r#"{"file_attributes":"FILE_ATTRIBUTE_ARCHIVE | FILE_ATTRIBUTE_NOT_CONTENT_INDEXED","file_name":"BTDevManager.log","file_name_length":32,"file_name_offset":60,"file_reference":{"entry":115,"sequence":37224},"major_version":2,"minor_version":0,"parent_reference":{"entry":141883,"sequence":7},"reason":"USN_REASON_DATA_EXTEND","record_length":96,"security_id":0,"source_info":"(empty)","timestamp":"2013-10-19T12:16:53.276040Z","usn":1}"#
    );
}

#[test]
fn usn_entry_carries_meta_and_merges_it() {
    let v3_record_buffer: &[u8] = &[
        0x70, 0x00, 0x00, 0x00, 0x03, 0x00, 0x00, 0x00, 0xB9, 0x8A, 0x00, 0x00, 0x00, 0x00, 0x02,
        0x00, 0x00, 0x00, 0x00, 0x00, 0x00, 0x00, 0x00, 0x00, 0xC8, 0x07, 0x00, 0x00, 0x00, 0x00,
        0x02, 0x00, 0x00, 0x00, 0x00, 0x00, 0x00, 0x00, 0x00, 0x00, 0x60, 0x78, 0xA2, 0x9A, 0x01,
        0x00, 0x00, 0x00, 0xE9, 0xB6, 0x4E, 0x4D, 0xE0, 0x65, 0xD5, 0x01, 0x02, 0x00, 0x00, 0x00,
        0x00, 0x00, 0x00, 0x00, 0x00, 0x00, 0x00, 0x00, 0x20, 0x00, 0x00, 0x00, 0x20, 0x00, 0x4C,
        0x00, 0x43, 0x00, 0x49, 0x00, 0x44, 0x00, 0x6F, 0x00, 0x77, 0x00, 0x6E, 0x00, 0x6C, 0x00,
        0x6F, 0x00, 0x61, 0x00, 0x64, 0x00, 0x65, 0x00, 0x72, 0x00, 0x2E, 0x00, 0x6C, 0x00, 0x6F,
        0x00, 0x67, 0x00, 0x00, 0x00, 0x00, 0x00,
    ];
    let meta = record::EntryMeta::new("Test Buffer", 0);
    assert_eq!(meta.source, "Test Buffer");
    assert_eq!(meta.offset, 0);
    let entry = record::UsnEntry::new(meta, 3, v3_record_buffer).unwrap();
    assert_eq!(entry.record.get_usn(), 6889306208);
    assert_eq!(entry.record.get_file_name(), "CIDownloader.log");
    assert_eq!(entry.record.get_file_reference().entry, 35513);
    assert_eq!(entry.record.get_file_reference().sequence, 2);
    assert_eq!(entry.record.get_parent_reference().entry, 1992);
    assert_eq!(entry.record.get_reason_code().bits(), 2);
    assert_eq!(entry.record.get_file_attributes().bits(), 32);
    assert_eq!(
        entry.to_json_value().unwrap(),
        r#"{"file_attributes":"FILE_ATTRIBUTE_ARCHIVE","file_name":"CIDownloader.log","file_name_length":32,"file_name_offset":76,"file_reference":{"entry":35513,"sequence":2,"u128":"562949953456825"},"major_version":3,"meta__offset":0,"meta__source":"Test Buffer","minor_version":0,"parent_reference":{"entry":1992,"sequence":2,"u128":"562949953423304"},"reason":"USN_REASON_DATA_EXTEND","record_length":112,"security_id":0,"source_info":"(empty)","timestamp":"2019-09-08T00:56:52.138160Z","usn":6889306208}"#
    );
}

#[test]
fn header_reencodes_byte_for_byte() {
    let record_buffer: &[u8] = &[
        0x60, 0x00, 0x00, 0x00, 0x02, 0x00, 0x00, 0x00, 0x73, 0x00, 0x00, 0x00, 0x00, 0x00, 0x68,
        0x91, 0x3B, 0x2A, 0x02, 0x00, 0x00, 0x00, 0x07, 0x00, 0x00, 0x00, 0x80, 0xBC, 0x04, 0x00,
        0x00, 0x00, 0x53, 0xC7, 0x8B, 0x18, 0xC5, 0xCC, 0xCE, 0x01, 0x02, 0x00, 0x00, 0x00, 0x00,
        0x00, 0x00, 0x00, 0x00, 0x00, 0x00, 0x00, 0x20, 0x20, 0x00, 0x00, 0x20, 0x00, 0x3C, 0x00,
        0x42, 0x00, 0x54, 0x00, 0x44, 0x00, 0x65, 0x00, 0x76, 0x00, 0x4D, 0x00, 0x61, 0x00, 0x6E,
        0x00, 0x61, 0x00, 0x67, 0x00, 0x65, 0x00, 0x72, 0x00, 0x2E, 0x00, 0x6C, 0x00, 0x6F, 0x00,
        0x67, 0x00, 0x00, 0x00, 0x00, 0x00,
    ];
    let record = record::UsnRecordV2::new(record_buffer).unwrap();
    let header = record::encode_header(
        record.record_length,
        record.major_version,
        record.minor_version,
    );
    assert_eq!(&header[..], &record_buffer[..8]);
}

#[test]
fn reference_projection_is_low_64_bits() {
    // High 64 bits are discarded by design; the low 8 bytes decompose as the
    // narrow form.
    let wide = record::Ntfs128Reference(0xFFFF_FFFF_FFFF_FFFF_9168_0000_0000_0073);
    assert_eq!(wide.as_u128(), 0xFFFF_FFFF_FFFF_FFFF_9168_0000_0000_0073);
    let projected = wide.as_mft_reference();
    assert_eq!(projected.entry, 115);
    assert_eq!(projected.sequence, 37224);

    let narrow = record::MftReference::from_u64(0x9168_0000_0000_0073);
    assert_eq!(narrow.entry, 115);
    assert_eq!(narrow.sequence, 37224);
}
