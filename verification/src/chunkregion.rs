use vstd::prelude::*;
use crate::region::Region;
use crate::region::spec_chunk_nbt;

verus! {

/// A region expanded into its 1024 chunk slots.
///
/// Each slot holds the decoded bytes of one chunk, ready for an NBT decoder,
/// or `None` where the slot is absent, truncated or corrupt.
#[derive(Debug)]
pub struct ChunkRegion {
    pub x: i32,
    pub y: i32,
    pub path: String,
    pub chunks: Vec<Option<Vec<u8>>>,
}

/// What slot `index` of a region buffer materializes to: the decoded chunk
/// bytes when the slot is present and decodes cleanly, and `None` on any
/// per-slot failure, an unloaded buffer included.
pub open spec fn spec_slot(data: Option<Seq<u8>>, index: int) -> Option<Seq<u8>> {
    match data {
        None => None,
        Some(d) => match spec_chunk_nbt(d, index) {
            Ok(Some(p)) => Some(p),
            _ => None,
        },
    }
}

impl ChunkRegion {
    /// An empty chunk region at the given coordinates and path.
    pub fn new(x: i32, y: i32, path: String) -> (r: ChunkRegion)
        ensures
            r.x == x,
            r.y == y,
            r.path == path,
            r.chunks@.len() == 0,
    {
        ChunkRegion { x, y, path, chunks: Vec::new() }
    }

    /// Materializes every slot of a region: each of the 1024 chunks is
    /// located and decoded on its own, and a slot that fails in any way
    /// becomes `None` without disturbing the other slots.
    pub fn from(region: Region) -> (r: ChunkRegion)
        ensures
            r.x == region.spec_x(),
            r.y == region.spec_y(),
            r.path@ == Seq::<char>::empty(),
            r.chunks@.len() == 1024,
            forall|i: int|
                0 <= i < 1024 ==> match #[trigger] r.chunks@[i] {
                    Some(v) => spec_slot(region.spec_data(), i) == Some(v@),
                    None => spec_slot(region.spec_data(), i) is None,
                },
    {
        let mut chunks: Vec<Option<Vec<u8>>> = Vec::new();
        let mut index: usize = 0;
        while index < 1024
            invariant
                index <= 1024,
                chunks@.len() == index,
                forall|i: int|
                    0 <= i < index ==> match #[trigger] chunks@[i] {
                        Some(v) => spec_slot(region.spec_data(), i) == Some(v@),
                        None => spec_slot(region.spec_data(), i) is None,
                    },
            decreases 1024 - index,
        {
            match region.get_chunk_nbt_data(index) {
                Ok(Some(chunk_data)) => chunks.push(Some(chunk_data)),
                _ => chunks.push(None),
            }
            index = index + 1;
        }
        ChunkRegion { x: region.get_x_coord(), y: region.get_z_coord(), path: String::new(), chunks }
    }

    /// The absolute coordinates of the chunk in slot `index`: the region's
    /// origin plus the slot's offset in its 32 x 32 grid.
    pub fn absolute_chunk_coords(&self, index: usize) -> (r: (i64, i64))
        requires
            index < 1024,
        ensures
            r.0 == self.x * 32 + index as int % 32,
            r.1 == self.y * 32 + index as int / 32,
    {
        let cx = (self.x as i64) * 32 + (index as i64) % 32;
        let cz = (self.y as i64) * 32 + (index as i64) / 32;
        (cx, cz)
    }
}

} // verus!
