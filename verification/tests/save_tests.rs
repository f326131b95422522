use ranvil::chunkregion::ChunkRegion;
use ranvil::error::MCLoadError;
use ranvil::get_saves_from_instance;
use ranvil::region::Region;
use ranvil::Save;
use ranvil::SaveMeta;

fn listing(names: &[&str]) -> Option<Vec<String>> {
    Some(names.iter().map(|n| n.to_string()).collect())
}

#[test]
fn from_path_missing_listing_is_not_found() {
    let r = SaveMeta::from_path("w".to_string(), "/s/w".to_string(), None);
    assert_eq!(r.unwrap_err(), MCLoadError::PathNotFoundError);
}

#[test]
fn from_path_collects_coordinates_and_skips_junk() {
    let meta = SaveMeta::from_path(
        "world".to_string(),
        "/saves/world".to_string(),
        listing(&["r.0.0.mca", "level.dat", "r.abc.mca", "r.-12.7.mca"]),
    )
    .unwrap();
    assert_eq!(meta.name, "world");
    assert_eq!(meta.path, "/saves/world");
    assert_eq!(meta.regions, vec![(0, 0), (-12, 7)]);
}

#[test]
fn end_to_end_three_regions() {
    let meta = SaveMeta::from_path(
        "world".to_string(),
        "/saves/world".to_string(),
        listing(&["r.0.0.mca", "r.1.0.mca", "r.-1.-1.mca"]),
    )
    .unwrap();
    assert_eq!(meta.regions, vec![(0, 0), (1, 0), (-1, -1)]);
    assert!(meta.has_region(0, 0));
    assert!(meta.has_region(1, 0));
    assert!(meta.has_region(-1, -1));
    assert!(!meta.has_region(-1, 0));
    assert!(!meta.has_region(2, 2));

    let grid = meta.get_grid_view().render();
    let expected = "world [3 regions]\n\
                    \u{20}   +---+\n\
                    \u{20}   |X  |\n\
                    \u{20} 0 | XX|\n\
                    \u{20}   +---+\n\
                    \u{20}     0  ";
    assert_eq!(grid, expected);
}

#[test]
fn grid_view_of_empty_save_is_header_only() {
    let meta = SaveMeta::from_path("empty".to_string(), "/s/empty".to_string(), listing(&[]))
        .unwrap();
    let grid = meta.get_grid_view().render();
    assert_eq!(grid, "empty [0 regions]\n");
}

#[test]
fn grid_view_labels_every_five_units() {
    let meta = SaveMeta::from_path(
        "big".to_string(),
        "/s/big".to_string(),
        listing(&["r.3.4.mca", "r.11.6.mca"]),
    )
    .unwrap();
    let grid = meta.get_grid_view().render();
    let expected = "big [2 regions]\n\
                    \u{20}   +---------+\n\
                    \u{20}   |X        |\n\
                    \u{20} 5 |         |\n\
                    \u{20}   |        X|\n\
                    \u{20}   +---------+\n\
                    \u{20}      5   10  ";
    assert_eq!(grid, expected);
}

#[test]
fn grid_view_labels_negative_rows() {
    let meta = SaveMeta::from_path(
        "neg".to_string(),
        "/s/neg".to_string(),
        listing(&["r.0.-5.mca", "r.0.0.mca"]),
    )
    .unwrap();
    let grid = meta.get_grid_view().render();
    let expected = "neg [2 regions]\n\
                    \u{20}   +-+\n\
                    \u{20}-5 |X|\n\
                    \u{20}   | |\n\
                    \u{20}   | |\n\
                    \u{20}   | |\n\
                    \u{20}   | |\n\
                    \u{20} 0 |X|\n\
                    \u{20}   +-+\n\
                    \u{20}    0  ";
    assert_eq!(grid, expected);
}

#[test]
fn region_path_is_independent_of_discovery() {
    let meta = SaveMeta::from_path("w".to_string(), "/s/w".to_string(), listing(&[])).unwrap();
    assert_eq!(meta.get_region_path(-12, 7), "/s/w/region/r.-12.7.mca");
    assert_eq!(meta.get_region_path(0, 0), "/s/w/region/r.0.0.mca");
    assert_eq!(
        meta.get_region_path(i32::MIN, i32::MAX),
        "/s/w/region/r.-2147483648.2147483647.mca"
    );
}

#[test]
fn saves_from_instance_skip_entries_without_listing() {
    let entries = vec![
        ("w1".to_string(), "/a/w1".to_string(), listing(&["r.0.0.mca"])),
        ("junk".to_string(), "/a/junk".to_string(), None),
        ("w2".to_string(), "/a/w2".to_string(), listing(&[])),
    ];
    let saves = get_saves_from_instance(entries);
    assert_eq!(saves.len(), 2);
    assert_eq!(saves[0].name, "w1");
    assert_eq!(saves[0].regions, vec![(0, 0)]);
    assert_eq!(saves[1].name, "w2");
    assert!(saves[1].regions.is_empty());
}

#[test]
fn save_from_meta_builds_unloaded_regions() {
    let meta = SaveMeta::from_path(
        "w".to_string(),
        "/s/w".to_string(),
        listing(&["r.2.3.mca", "r.-4.5.mca"]),
    )
    .unwrap();
    let save = Save::from(meta);
    assert_eq!(save.regions.len(), 2);
    assert_eq!(save.regions[0].get_x_coord(), 2);
    assert_eq!(save.regions[0].get_z_coord(), 3);
    assert_eq!(save.regions[1].get_x_coord(), -4);
    assert_eq!(save.regions[1].get_z_coord(), 5);
    assert!(!save.regions[0].loaded());
    assert!(save.regions[0].raw_data().is_none());
}

#[test]
fn error_messages_name_the_failure() {
    assert_eq!(MCLoadError::IoError.message(), "IO error");
    assert_eq!(MCLoadError::PathNotFoundError.message(), "Path not found");
    assert_eq!(MCLoadError::CorruptChunkData.message(), "Corrupt chunk data");
    assert_eq!(
        MCLoadError::IncompatibleCompressionType(127).message(),
        "Incompatible compression type 127"
    );
}

#[test]
fn chunk_region_materializes_every_slot_independently() {
    // slot 7 holds a stored chunk; slot 9's entry points past the buffer;
    // everything else is absent
    let payload = b"stored nbt".to_vec();
    let mut buf = vec![0u8; 3 * 4096];
    buf[7 * 4 + 2] = 2;
    buf[7 * 4 + 3] = 1;
    buf[9 * 4 + 2] = 50;
    buf[9 * 4 + 3] = 1;
    let declared = (payload.len() + 1) as u32;
    buf[8192..8196].copy_from_slice(&declared.to_be_bytes());
    buf[8196] = 3;
    buf[8197..8197 + payload.len()].copy_from_slice(&payload);
    let mut region = Region::new(4, -9);
    region.load(buf);

    let cr = ChunkRegion::from(region);
    assert_eq!(cr.x, 4);
    assert_eq!(cr.y, -9);
    assert_eq!(cr.chunks.len(), 1024);
    assert_eq!(cr.chunks[7], Some(payload));
    assert_eq!(cr.chunks[9], None);
    assert_eq!(cr.chunks.iter().filter(|c| c.is_some()).count(), 1);
}

#[test]
fn chunk_region_of_unloaded_region_is_all_absent() {
    let cr = ChunkRegion::from(Region::new(0, 0));
    assert_eq!(cr.chunks.len(), 1024);
    assert!(cr.chunks.iter().all(|c| c.is_none()));
}

#[test]
fn chunk_region_new_is_empty() {
    let cr = ChunkRegion::new(1, 2, "/p".to_string());
    assert_eq!(cr.x, 1);
    assert_eq!(cr.y, 2);
    assert_eq!(cr.path, "/p");
    assert!(cr.chunks.is_empty());
}

#[test]
fn absolute_chunk_coordinates_combine_region_and_slot() {
    let cr = ChunkRegion::new(2, -1, String::new());
    assert_eq!(cr.absolute_chunk_coords(0), (64, -32));
    assert_eq!(cr.absolute_chunk_coords(33), (65, -31));
    assert_eq!(cr.absolute_chunk_coords(1023), (95, -1));
}
