use vstd::prelude::*;

verus! {

/// The decoded shape of one chunk's tree, as a save writes it.
#[derive(Debug)]
pub struct Chunk {
    data_version: i32,
    x_pos: i32,
    y_pos: i32,
    z_pos: i32,
    status: String,
    last_update: i64,
    sections: Vec<Section>,
    block_entities: Vec<BlockEntity>,
}

/// One 16-block-tall section of a chunk.
#[derive(Debug)]
pub struct Section {
    y: u8,
    block_states: BlockStates,
    biomes: Biomes,
    block_light: Vec<u8>,
    sky_light: Vec<u8>,
}

/// The packed block-state indices of a section.
#[derive(Debug)]
pub struct BlockStates {
    data: Vec<u8>,
}

/// The packed biome indices of a section.
#[derive(Debug)]
pub struct Biomes {
    data: Vec<u8>,
}

/// A block entity a chunk can carry.
#[derive(Debug)]
pub enum BlockEntity {
    Banners(Banners),
    Barrel(Barrel),
}

/// A banner block entity.
#[derive(Debug)]
pub struct Banners {
    custom_name: String,
    patterns: Vec<BannerPattern>,
}

/// One layer of a banner's pattern.
#[derive(Debug)]
pub struct BannerPattern {
    color: i32,
    pattern: String,
}

/// A barrel block entity.
#[derive(Debug)]
pub struct Barrel {
    custom_name: String,
}

} // verus!
