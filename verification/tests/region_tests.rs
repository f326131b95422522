use ranvil::error::MCLoadError;
use ranvil::region::decode_chunk_payload;
use ranvil::region::get_region_coords;
use ranvil::region::Region;

/// A region buffer with one present slot: the 8 KiB header, then payload
/// sectors. `offset`/`count` go into slot `slot`'s location entry; the
/// payload (declared length, tag, data) is written at `offset * 4096`.
fn region_buffer(slot: usize, offset: u32, count: u8, tag: u8, data: &[u8]) -> Vec<u8> {
    let total = (offset as usize + count as usize) * 4096;
    let mut buf = vec![0u8; total.max(8192)];
    buf[slot * 4] = ((offset >> 16) & 0xff) as u8;
    buf[slot * 4 + 1] = ((offset >> 8) & 0xff) as u8;
    buf[slot * 4 + 2] = (offset & 0xff) as u8;
    buf[slot * 4 + 3] = count;
    let declared = (data.len() + 1) as u32;
    let base = offset as usize * 4096;
    buf[base..base + 4].copy_from_slice(&declared.to_be_bytes());
    buf[base + 4] = tag;
    buf[base + 5..base + 5 + data.len()].copy_from_slice(data);
    buf
}

#[test]
fn locate_absent_iff_both_fields_zero() {
    let mut r = Region::new(0, 0);
    let mut buf = vec![0u8; 8192];
    // slot 1: offset 0, count 2 -> present (not both zero)
    buf[4 + 3] = 2;
    // slot 2: offset 3, count 0 -> present (not both zero)
    buf[8 + 2] = 3;
    // slot 3: offset 2, count 1 -> present
    buf[12 + 2] = 2;
    buf[12 + 3] = 1;
    r.load(buf);
    assert_eq!(r.get_location(0), Ok(None));
    assert_eq!(r.get_location(1), Ok(Some((0, 2))));
    assert_eq!(r.get_location(2), Ok(Some((3, 0))));
    assert_eq!(r.get_location(3), Ok(Some((2, 1))));
    assert_eq!(r.get_location(1023), Ok(None));
}

#[test]
fn locate_short_buffer_is_io_error() {
    let mut r = Region::new(0, 0);
    r.load(vec![0u8; 10]);
    assert_eq!(r.get_location(0), Ok(None));
    assert_eq!(r.get_location(2), Err(MCLoadError::IoError));
}

#[test]
fn locate_unloaded_is_io_error() {
    let r = Region::new(0, 0);
    assert_eq!(r.get_location(0), Err(MCLoadError::IoError));
}

#[test]
fn load_is_idempotent() {
    let mut r = Region::new(1, -2);
    let first = vec![1u8, 2, 3];
    let second = vec![9u8, 9, 9, 9];
    r.load(first.clone());
    assert!(r.loaded());
    let after_first = r.raw_data().unwrap().clone();
    r.load(second);
    let after_second = r.raw_data().unwrap().clone();
    assert_eq!(after_first, first);
    assert_eq!(after_first, after_second);
    assert_eq!(r.get_x_coord(), 1);
    assert_eq!(r.get_z_coord(), -2);
}

#[test]
fn stored_chunk_round_trips() {
    let payload = b"raw nbt bytes".to_vec();
    let mut r = Region::new(0, 0);
    r.load(region_buffer(0, 2, 1, 3, &payload));
    assert_eq!(r.get_chunk_nbt_data(0), Ok(Some(payload)));
    assert_eq!(r.get_chunk_nbt_data(1), Ok(None));
}

#[test]
fn zlib_chunk_round_trips() {
    let payload = b"some chunk data that zlib will squeeze".to_vec();
    let mut enc = flate2::write::ZlibEncoder::new(Vec::new(), flate2::Compression::default());
    std::io::Write::write_all(&mut enc, &payload).unwrap();
    let compressed = enc.finish().unwrap();
    let mut r = Region::new(0, 0);
    r.load(region_buffer(0, 2, 1, 2, &compressed));
    assert_eq!(r.get_chunk_nbt_data(0), Ok(Some(payload)));
}

#[test]
fn gzip_chunk_round_trips() {
    let payload = b"some chunk data that gzip will squeeze".to_vec();
    let mut enc = flate2::write::GzEncoder::new(Vec::new(), flate2::Compression::default());
    std::io::Write::write_all(&mut enc, &payload).unwrap();
    let compressed = enc.finish().unwrap();
    let mut r = Region::new(0, 0);
    r.load(region_buffer(0, 2, 1, 1, &compressed));
    assert_eq!(r.get_chunk_nbt_data(0), Ok(Some(payload)));
}

#[test]
fn payload_range_converts_sectors_to_bytes() {
    let mut r = Region::new(0, 0);
    r.load(region_buffer(0, 2, 1, 3, b"x"));
    assert_eq!(r.payload_range(0), Ok(Some((8192, 12288))));
    assert_eq!(r.payload_range(1), Ok(None));
}

#[test]
fn payload_range_clamps_to_buffer_length() {
    let mut buf = region_buffer(0, 2, 2, 3, b"x");
    buf.truncate(2 * 4096 + 100);
    let mut r = Region::new(0, 0);
    r.load(buf);
    assert_eq!(r.payload_range(0), Ok(Some((8192, 8292))));
}

#[test]
fn chunk_range_is_clamped_not_out_of_bounds() {
    // slot 0 claims sectors [2, 4) but the buffer ends 100 bytes into sector 2
    let mut buf = region_buffer(0, 2, 2, 3, b"x");
    buf.truncate(2 * 4096 + 100);
    let mut r = Region::new(0, 0);
    r.load(buf);
    let data = r.get_chunk_data(0).unwrap().unwrap();
    assert_eq!(data.len(), 100);
}

#[test]
fn range_entirely_past_buffer_clamps_to_empty_and_fails_decode() {
    let mut buf = vec![0u8; 8192];
    // slot 0: offset 100, count 1, far beyond the buffer
    buf[2] = 100;
    buf[3] = 1;
    let mut r = Region::new(0, 0);
    r.load(buf);
    let data = r.get_chunk_data(0).unwrap().unwrap();
    assert_eq!(data.len(), 0);
    assert_eq!(r.get_chunk_nbt_data(0), Err(MCLoadError::CorruptChunkData));
}

#[test]
fn truncated_declared_length_is_corrupt() {
    // declared length says 4096 bytes follow, but the slot has one sector
    let mut buf = region_buffer(0, 2, 1, 3, b"tiny");
    let base = 2 * 4096;
    buf[base..base + 4].copy_from_slice(&8000u32.to_be_bytes());
    let mut r = Region::new(0, 0);
    r.load(buf);
    assert_eq!(r.get_chunk_nbt_data(0), Err(MCLoadError::CorruptChunkData));
}

#[test]
fn unsupported_compression_tags_are_incompatible() {
    for tag in [0u8, 4, 5, 127, 255] {
        let mut r = Region::new(0, 0);
        r.load(region_buffer(0, 2, 1, tag, b"whatever"));
        assert_eq!(
            r.get_chunk_nbt_data(0),
            Err(MCLoadError::IncompatibleCompressionType(tag)),
            "tag {tag}"
        );
    }
}

#[test]
fn malformed_zlib_stream_is_corrupt() {
    let mut r = Region::new(0, 0);
    r.load(region_buffer(0, 2, 1, 2, b"this is not a zlib stream"));
    assert_eq!(r.get_chunk_nbt_data(0), Err(MCLoadError::CorruptChunkData));
}

#[test]
fn malformed_gzip_stream_is_corrupt() {
    let mut r = Region::new(0, 0);
    r.load(region_buffer(0, 2, 1, 1, b"this is not a gzip stream"));
    assert_eq!(r.get_chunk_nbt_data(0), Err(MCLoadError::CorruptChunkData));
}

#[test]
fn decode_rejects_short_and_zero_length_payloads() {
    assert_eq!(decode_chunk_payload(&[]), Err(MCLoadError::CorruptChunkData));
    assert_eq!(decode_chunk_payload(&[0, 0, 0, 1]), Err(MCLoadError::CorruptChunkData));
    // declared length zero
    assert_eq!(decode_chunk_payload(&[0, 0, 0, 0, 3]), Err(MCLoadError::CorruptChunkData));
}

#[test]
fn decode_stored_payload_directly() {
    // declared length 4: tag plus three bytes
    let raw = [0u8, 0, 0, 4, 3, 7, 8, 9];
    assert_eq!(decode_chunk_payload(&raw), Ok(vec![7, 8, 9]));
    // trailing sector padding past the declared length is ignored
    let padded = [0u8, 0, 0, 4, 3, 7, 8, 9, 0, 0, 0];
    assert_eq!(decode_chunk_payload(&padded), Ok(vec![7, 8, 9]));
}

#[test]
fn filename_parser_accepts_coordinates() {
    assert_eq!(get_region_coords("r.0.0.mca"), Some((0, 0)));
    assert_eq!(get_region_coords("r.-12.7.mca"), Some((-12, 7)));
    assert_eq!(get_region_coords("r.301.-18.mca"), Some((301, -18)));
}

#[test]
fn filename_parser_handles_extremes_and_leading_zeros() {
    assert_eq!(get_region_coords("r.-2147483648.2147483647.mca"), Some((i32::MIN, i32::MAX)));
    assert_eq!(get_region_coords("r.2147483648.0.mca"), None);
    assert_eq!(get_region_coords("r.0.-2147483649.mca"), None);
    assert_eq!(get_region_coords("r.00.-0.mca"), Some((0, 0)));
}

#[test]
fn filename_parser_skips_junk() {
    assert_eq!(get_region_coords("r.abc.mca"), None);
    assert_eq!(get_region_coords("r.1.2.mcb"), None);
    assert_eq!(get_region_coords("level.dat"), None);
    assert_eq!(get_region_coords("r.1.2.3.mca"), None);
    assert_eq!(get_region_coords(""), None);
    assert_eq!(get_region_coords("r.99999999999.0.mca"), None);
    assert_eq!(get_region_coords("r.-.4.mca"), None);
}
