use vstd::prelude::*;

pub mod chunk;
pub mod chunkregion;
pub mod error;
pub mod region;
pub mod text;

use crate::error::MCLoadError;
use crate::region::Region;
use crate::region::get_region_coords;
use crate::region::parse_region_name;
use crate::text::dec_digits;
use crate::text::dec_int;
use crate::text::pad3;
use crate::text::push_char;
use crate::text::u64_to_string;
use crate::text::i64_to_string;
use crate::text::i64_to_string_pad3;

verus! {

/// Fixed addressing unit of a region file, in bytes.
pub const SECTOR_SIZE: usize = 4096;

/// The value of the big-endian 24-bit integer stored at `data[pos..pos + 3]`.
pub open spec fn be_u24(data: Seq<u8>, pos: int) -> int
    recommends
        0 <= pos,
        pos + 3 <= data.len(),
{
    data[pos] * 0x10000 + data[pos + 1] * 0x100 + data[pos + 2]
}

// ---------------------------------------------------------------------------
// SaveMeta: a save's catalogue of discovered regions
// ---------------------------------------------------------------------------

/// A save's name, its root path, and the coordinates of the region files
/// discovered under `<path>/region`, without any file contents.
#[derive(Debug, Clone)]
pub struct SaveMeta {
    pub name: String,
    pub path: String,
    pub regions: Vec<(i32, i32)>,
}

/// A save together with one `Region` handle per discovered coordinate pair.
#[derive(Debug)]
pub struct Save {
    pub meta: SaveMeta,
    pub regions: Vec<Region>,
}

/// An ASCII occupancy grid over a save's discovered region coordinates.
#[derive(Debug, Clone)]
pub struct GridView<'a> {
    save: &'a SaveMeta,
}

/// The coordinate pairs parsed out of a directory listing, in listing order:
/// each name of the form `r.<x>.<z>.mca` contributes its pair, and every
/// other name is skipped.
pub open spec fn parsed_region_coords(names: Seq<Seq<char>>) -> Seq<(i32, i32)>
    decreases names.len(),
{
    if names.len() == 0 {
        Seq::empty()
    } else {
        let rest = parsed_region_coords(names.drop_last());
        match parse_region_name(names.last()) {
            Some(c) => rest.push(c),
            None => rest,
        }
    }
}

/// The relative path of the region file for coordinates `(x, z)` under a
/// save's root.
pub open spec fn region_file_rel_path(x: int, z: int) -> Seq<char> {
    "/region/r."@ + dec_int(x) + "."@ + dec_int(z) + ".mca"@
}

impl SaveMeta {
    /// Builds the catalogue of a save from its name, its root path, and the
    /// listing of its `region` directory; `None` for the listing means the
    /// path does not exist and fails the build. A listing entry whose name
    /// does not parse as a region filename is skipped, never a failure.
    pub fn from_path(name: String, path: String, region_listing: Option<Vec<String>>) -> (r:
        Result<SaveMeta, MCLoadError>)
        ensures
            match region_listing {
                None => r == Err::<SaveMeta, MCLoadError>(MCLoadError::PathNotFoundError),
                Some(names) => r matches Ok(m) && m.name@ == name@ && m.path@ == path@
                    && m.regions@ == parsed_region_coords(names.deep_view()),
            },
    {
        let names = match region_listing {
            Some(names) => names,
            None => {
                return Err(MCLoadError::PathNotFoundError);
            },
        };
        let mut regions: Vec<(i32, i32)> = Vec::new();
        let mut i: usize = 0;
        while i < names.len()
            invariant
                i <= names@.len(),
                regions@ == parsed_region_coords(names.deep_view().take(i as int)),
            decreases names@.len() - i,
        {
            proof {
                assert(names.deep_view().take(i + 1).drop_last() =~= names.deep_view().take(
                    i as int,
                ));
                assert(names.deep_view().take(i + 1).last() == names@[i as int]@);
            }
            match get_region_coords(names[i].as_str()) {
                Some(c) => regions.push(c),
                None => (),
            }
            i = i + 1;
        }
        proof {
            assert(names.deep_view().take(names@.len() as int) =~= names.deep_view());
        }
        Ok(SaveMeta { name, path, regions })
    }

    /// The path of the region file for `(x, z)` under this save's root,
    /// whether or not that file was discovered.
    pub fn get_region_path(&self, x: i32, z: i32) -> (r: String)
        ensures
            r@ == self.path@ + region_file_rel_path(x as int, z as int),
    {
        let mut s = self.path.clone();
        s.append("/region/r.");
        let xs = i64_to_string(x as i64);
        s.append(xs.as_str());
        s.append(".");
        let zs = i64_to_string(z as i64);
        s.append(zs.as_str());
        s.append(".mca");
        proof {
            assert(s@ =~= self.path@ + region_file_rel_path(x as int, z as int));
        }
        s
    }

    /// Whether the region at `(x, z)` was discovered.
    pub fn has_region(&self, x: i32, z: i32) -> (r: bool)
        ensures
            r == self.regions@.contains((x, z)),
    {
        let mut i: usize = 0;
        while i < self.regions.len()
            invariant
                i <= self.regions@.len(),
                forall|k: int| 0 <= k < i ==> #[trigger] self.regions@[k] != (x, z),
            decreases self.regions@.len() - i,
        {
            let p = self.regions[i];
            if p.0 == x && p.1 == z {
                return true;
            }
            i = i + 1;
        }
        false
    }

    /// A grid view over this save's discovered coordinates.
    pub fn get_grid_view<'a>(&'a self) -> (g: GridView<'a>)
        ensures
            g.spec_save() == *self,
    {
        GridView { save: self }
    }
}

impl Save {
    /// Expands a catalogue into a save whose regions are all still unloaded,
    /// one per discovered coordinate pair, in catalogue order.
    pub fn from(meta: SaveMeta) -> (r: Save)
        ensures
            r.meta == meta,
            r.regions@.len() == meta.regions@.len(),
            forall|i: int|
                0 <= i < meta.regions@.len() ==> {
                    &&& (#[trigger] r.regions@[i]).spec_x() == meta.regions@[i].0
                    &&& r.regions@[i].spec_y() == meta.regions@[i].1
                    &&& !r.regions@[i].is_loaded()
                },
    {
        let mut regions: Vec<Region> = Vec::new();
        let mut i: usize = 0;
        while i < meta.regions.len()
            invariant
                i <= meta.regions@.len(),
                regions@.len() == i,
                forall|k: int|
                    0 <= k < i ==> {
                        &&& (#[trigger] regions@[k]).spec_x() == meta.regions@[k].0
                        &&& regions@[k].spec_y() == meta.regions@[k].1
                        &&& !regions@[k].is_loaded()
                    },
            decreases meta.regions@.len() - i,
        {
            let c = meta.regions[i];
            regions.push(Region::new(c.0, c.1));
            i = i + 1;
        }
        Save { meta, regions }
    }
}

// ---------------------------------------------------------------------------
// Discovering saves
// ---------------------------------------------------------------------------

/// The entries of a directory scan that point at an existing save: each is a
/// save's name, its path, and its `region` directory listing.
pub open spec fn loadable_entries(entries: Seq<(String, String, Option<Vec<String>>)>) -> Seq<
    (Seq<char>, Seq<char>, Seq<Seq<char>>),
>
    decreases entries.len(),
{
    if entries.len() == 0 {
        Seq::empty()
    } else {
        let rest = loadable_entries(entries.drop_last());
        match entries.last().2 {
            Some(l) => rest.push((entries.last().0@, entries.last().1@, l.deep_view())),
            None => rest,
        }
    }
}

/// Copies a listing's names.
fn clone_names(names: &Vec<String>) -> (r: Vec<String>)
    ensures
        r.deep_view() == names.deep_view(),
{
    let mut r: Vec<String> = Vec::new();
    let mut i: usize = 0;
    while i < names.len()
        invariant
            i <= names@.len(),
            r@.len() == i,
            forall|k: int| 0 <= k < i ==> #[trigger] r@[k]@ == names@[k]@,
        decreases names@.len() - i,
    {
        r.push(names[i].clone());
        i = i + 1;
    }
    proof {
        assert(r.deep_view() =~= names.deep_view());
    }
    r
}

/// Builds one catalogue per save found in a game instance's directory scan.
/// An entry whose listing is absent is skipped; the rest keep their scan
/// order.
pub fn get_saves_from_instance(entries: Vec<(String, String, Option<Vec<String>>)>) -> (r: Vec<
    SaveMeta,
>)
    ensures
        r@.len() == loadable_entries(entries@).len(),
        forall|i: int|
            0 <= i < r@.len() ==> {
                &&& (#[trigger] r@[i]).name@ == loadable_entries(entries@)[i].0
                &&& r@[i].path@ == loadable_entries(entries@)[i].1
                &&& r@[i].regions@ == parsed_region_coords(loadable_entries(entries@)[i].2)
            },
{
    let mut r: Vec<SaveMeta> = Vec::new();
    let mut i: usize = 0;
    while i < entries.len()
        invariant
            i <= entries@.len(),
            r@.len() == loadable_entries(entries@.take(i as int)).len(),
            forall|k: int|
                0 <= k < r@.len() ==> {
                    &&& (#[trigger] r@[k]).name@ == loadable_entries(entries@.take(i as int))[k].0
                    &&& r@[k].path@ == loadable_entries(entries@.take(i as int))[k].1
                    &&& r@[k].regions@ == parsed_region_coords(
                        loadable_entries(entries@.take(i as int))[k].2,
                    )
                },
        decreases entries@.len() - i,
    {
        proof {
            assert(entries@.take(i + 1).drop_last() =~= entries@.take(i as int));
            assert(entries@.take(i + 1).last() == entries@[i as int]);
        }
        let has_listing = entries[i].2.is_some();
        if has_listing {
            let name = entries[i].0.clone();
            let path = entries[i].1.clone();
            let listing = match &entries[i].2 {
                Some(l) => clone_names(l),
                None => Vec::new(),
            };
            match SaveMeta::from_path(name, path, Some(listing)) {
                Ok(m) => r.push(m),
                Err(_) => (),
            }
        }
        i = i + 1;
    }
    proof {
        assert(entries@.take(entries@.len() as int) =~= entries@);
    }
    r
}

// ---------------------------------------------------------------------------
// GridView rendering
// ---------------------------------------------------------------------------

/// The least x coordinate among `rs`.
pub open spec fn min_x(rs: Seq<(i32, i32)>) -> i32
    recommends
        rs.len() > 0,
    decreases rs.len(),
{
    if rs.len() <= 1 {
        rs[0].0
    } else {
        let m = min_x(rs.drop_last());
        if rs.last().0 < m {
            rs.last().0
        } else {
            m
        }
    }
}

/// The greatest x coordinate among `rs`.
pub open spec fn max_x(rs: Seq<(i32, i32)>) -> i32
    recommends
        rs.len() > 0,
    decreases rs.len(),
{
    if rs.len() <= 1 {
        rs[0].0
    } else {
        let m = max_x(rs.drop_last());
        if rs.last().0 > m {
            rs.last().0
        } else {
            m
        }
    }
}

/// The least z coordinate among `rs`.
pub open spec fn min_z(rs: Seq<(i32, i32)>) -> i32
    recommends
        rs.len() > 0,
    decreases rs.len(),
{
    if rs.len() <= 1 {
        rs[0].1
    } else {
        let m = min_z(rs.drop_last());
        if rs.last().1 < m {
            rs.last().1
        } else {
            m
        }
    }
}

/// The greatest z coordinate among `rs`.
pub open spec fn max_z(rs: Seq<(i32, i32)>) -> i32
    recommends
        rs.len() > 0,
    decreases rs.len(),
{
    if rs.len() <= 1 {
        rs[0].1
    } else {
        let m = max_z(rs.drop_last());
        if rs.last().1 > m {
            rs.last().1
        } else {
            m
        }
    }
}

/// `n` copies of `c`.
pub open spec fn repeat_char(c: char, n: int) -> Seq<char>
    decreases n,
{
    if n <= 0 {
        Seq::empty()
    } else {
        repeat_char(c, n - 1).push(c)
    }
}

/// The grid cell for `(x, z)`: occupied or blank.
pub open spec fn cell_char(rs: Seq<(i32, i32)>, x: int, z: int) -> char {
    if rs.contains((x as i32, z as i32)) {
        'X'
    } else {
        ' '
    }
}

/// The cells of one grid row, for x from `lo` through `hi`.
pub open spec fn grid_cells(rs: Seq<(i32, i32)>, z: int, lo: int, hi: int) -> Seq<char>
    decreases hi + 1 - lo,
{
    if hi < lo {
        Seq::empty()
    } else {
        grid_cells(rs, z, lo, hi - 1).push(cell_char(rs, hi, z))
    }
}

/// The left margin of one grid row: the z coordinate, labelled every 5
/// units, before the row's wall.
pub open spec fn row_label(z: int) -> Seq<char> {
    if z % 5 == 0 {
        pad3(dec_int(z)) + " |"@
    } else {
        "    |"@
    }
}

/// One grid row: its label, its cells, and its closing wall.
pub open spec fn grid_row(rs: Seq<(i32, i32)>, z: int, xl: int, xh: int) -> Seq<char> {
    row_label(z) + grid_cells(rs, z, xl, xh) + "|\n"@
}

/// The grid rows for z from `zl` through `z`.
pub open spec fn grid_rows(rs: Seq<(i32, i32)>, zl: int, z: int, xl: int, xh: int) -> Seq<char>
    decreases z + 1 - zl,
{
    if z < zl {
        Seq::empty()
    } else {
        grid_rows(rs, zl, z - 1, xl, xh) + grid_row(rs, z, xl, xh)
    }
}

/// The grid's horizontal border.
pub open spec fn grid_border(xl: int, xh: int) -> Seq<char> {
    "    +"@ + repeat_char('-', xh + 1 - xl) + "+\n"@
}

/// The x axis labels from `x` through `xh`, every 5 units.
pub open spec fn labels_from(x: int, xh: int) -> Seq<char>
    decreases xh + 5 - x,
{
    if x > xh {
        Seq::empty()
    } else {
        pad3(dec_int(x)) + "  "@ + labels_from(x + 5, xh)
    }
}

/// The grid's bottom line: blanks up to the first multiple of 5 at or after
/// `xl`, then a label every 5 units through `xh`.
pub open spec fn label_line(xl: int, xh: int) -> Seq<char> {
    "   "@ + repeat_char(' ', (-xl) % 5) + labels_from(xl + (-xl) % 5, xh)
}

/// The full rendering of a save's occupancy grid: a header line, and — for a
/// save with at least one region — the bordered grid over the discovered
/// coordinates' bounding box with its axis labels.
pub open spec fn grid_render(save: SaveMeta) -> Seq<char> {
    let rs = save.regions@;
    let header = save.name@ + " ["@ + dec_digits(rs.len()) + " regions]\n"@;
    if rs.len() == 0 {
        header
    } else {
        let xl = min_x(rs) as int;
        let xh = max_x(rs) as int;
        let zl = min_z(rs) as int;
        let zh = max_z(rs) as int;
        header + grid_border(xl, xh) + grid_rows(rs, zl, zh, xl, xh) + grid_border(xl, xh)
            + label_line(xl, xh)
    }
}

proof fn lemma_neg_mod5(z: int)
    ensures
        (z % 5 == 0) <==> ((-z) % 5 == 0),
{
    vstd::arithmetic::div_mod::lemma_fundamental_div_mod(z, 5);
    vstd::arithmetic::div_mod::lemma_fundamental_div_mod(-z, 5);
    if z % 5 == 0 {
        assert(-z == (-(z / 5)) * 5 + 0);
        vstd::arithmetic::div_mod::lemma_fundamental_div_mod_converse(-z, 5, -(z / 5), 0);
    }
    if (-z) % 5 == 0 {
        assert(z == (-((-z) / 5)) * 5 + 0);
        vstd::arithmetic::div_mod::lemma_fundamental_div_mod_converse(z, 5, -((-z) / 5), 0);
    }
}

/// Whether `z` is divisible by 5.
fn is_mult_of_5(z: i32) -> (r: bool)
    ensures
        r == ((z as int) % 5 == 0),
{
    if z >= 0 {
        (z as u64) % 5 == 0
    } else {
        let m = ((-(z as i64)) as u64) % 5;
        proof {
            lemma_neg_mod5(z as int);
        }
        m == 0
    }
}

/// How many blanks stand before the first multiple of 5 at or after `xl`.
fn pad_to_mult5(xl: i32) -> (r: u64)
    ensures
        r == (-(xl as int)) % 5,
        0 <= r < 5,
{
    if xl >= 0 {
        let rm = (xl as u64) % 5;
        proof {
            vstd::arithmetic::div_mod::lemma_fundamental_div_mod(xl as int, 5);
            if rm == 0 {
                vstd::arithmetic::div_mod::lemma_fundamental_div_mod_converse(
                    -(xl as int),
                    5,
                    -((xl as int) / 5),
                    0,
                );
            } else {
                assert(-(xl as int) == (-((xl as int) / 5) - 1) * 5 + (5 - rm));
                vstd::arithmetic::div_mod::lemma_fundamental_div_mod_converse(
                    -(xl as int),
                    5,
                    -((xl as int) / 5) - 1,
                    5 - rm as int,
                );
            }
        }
        if rm == 0 {
            0
        } else {
            5 - rm
        }
    } else {
        ((-(xl as i64)) as u64) % 5
    }
}

/// Appends `n` copies of `c`.
fn append_repeat(s: &mut String, c: char, n: u64)
    ensures
        final(s)@ == old(s)@ + repeat_char(c, n as int),
{
    let mut i: u64 = 0;
    while i < n
        invariant
            i <= n,
            s@ == old(s)@ + repeat_char(c, i as int),
        decreases n - i,
    {
        push_char(s, c);
        proof {
            assert((old(s)@ + repeat_char(c, i as int)).push(c) =~= old(s)@ + repeat_char(
                c,
                i as int + 1,
            ));
        }
        i = i + 1;
    }
    proof {
        assert(s@ =~= old(s)@ + repeat_char(c, n as int));
    }
}

/// Appends the grid's horizontal border.
fn append_border(s: &mut String, xl: i32, xh: i32)
    requires
        xl <= xh,
    ensures
        final(s)@ == old(s)@ + grid_border(xl as int, xh as int),
{
    s.append("    +");
    let width = ((xh as i64) - (xl as i64) + 1) as u64;
    append_repeat(s, '-', width);
    s.append("+\n");
    proof {
        assert(s@ =~= old(s)@ + grid_border(xl as int, xh as int));
    }
}

/// Appends one grid row.
fn append_row(s: &mut String, save: &SaveMeta, z: i32, xl: i32, xh: i32)
    requires
        xl <= xh,
    ensures
        final(s)@ == old(s)@ + grid_row(save.regions@, z as int, xl as int, xh as int),
{
    if is_mult_of_5(z) {
        let lbl = i64_to_string_pad3(z as i64);
        s.append(lbl.as_str());
        s.append(" |");
    } else {
        s.append("    |");
    }
    proof {
        assert(s@ =~= old(s)@ + row_label(z as int));
    }
    let ghost labelled = s@;
    let mut x: i64 = xl as i64;
    while x <= xh as i64
        invariant
            xl as i64 <= x <= xh as i64 + 1,
            s@ == labelled + grid_cells(save.regions@, z as int, xl as int, x as int - 1),
        decreases xh as i64 + 1 - x,
    {
        let c = if save.has_region(x as i32, z) {
            'X'
        } else {
            ' '
        };
        push_char(s, c);
        proof {
            assert(c == cell_char(save.regions@, x as int, z as int));
            assert((labelled + grid_cells(save.regions@, z as int, xl as int, x as int - 1)).push(c)
                =~= labelled + grid_cells(save.regions@, z as int, xl as int, x as int));
        }
        x = x + 1;
    }
    s.append("|\n");
    proof {
        assert(s@ =~= old(s)@ + grid_row(save.regions@, z as int, xl as int, xh as int));
    }
}

/// The bounding box of a catalogue's coordinates: least and greatest x, then
/// least and greatest z.
fn min_max_coords(regions: &Vec<(i32, i32)>) -> (r: (i32, i32, i32, i32))
    requires
        regions@.len() > 0,
    ensures
        r.0 == min_x(regions@),
        r.1 == max_x(regions@),
        r.2 == min_z(regions@),
        r.3 == max_z(regions@),
{
    let first = regions[0];
    let mut xl = first.0;
    let mut xh = first.0;
    let mut zl = first.1;
    let mut zh = first.1;
    let mut i: usize = 1;
    proof {
        assert(regions@.take(1)[0] == regions@[0]);
    }
    while i < regions.len()
        invariant
            1 <= i <= regions@.len(),
            xl == min_x(regions@.take(i as int)),
            xh == max_x(regions@.take(i as int)),
            zl == min_z(regions@.take(i as int)),
            zh == max_z(regions@.take(i as int)),
        decreases regions@.len() - i,
    {
        proof {
            assert(regions@.take(i + 1).drop_last() =~= regions@.take(i as int));
            assert(regions@.take(i + 1).last() == regions@[i as int]);
        }
        let p = regions[i];
        if p.0 < xl {
            xl = p.0;
        }
        if p.0 > xh {
            xh = p.0;
        }
        if p.1 < zl {
            zl = p.1;
        }
        if p.1 > zh {
            zh = p.1;
        }
        i = i + 1;
    }
    proof {
        assert(regions@.take(regions@.len() as int) =~= regions@);
    }
    (xl, xh, zl, zh)
}

impl<'a> GridView<'a> {
    /// The save this view renders.
    pub closed spec fn spec_save(&self) -> SaveMeta {
        *self.save
    }

    /// Renders the save's occupancy grid, exactly as `grid_render` lays it
    /// out. A save with no discovered regions renders as the header line
    /// alone.
    pub fn render(&self) -> (out: String)
        ensures
            out@ == grid_render(self.spec_save()),
    {
        let save = self.save;
        let ghost rs = save.regions@;
        let mut s = String::new();
        s.append(save.name.as_str());
        s.append(" [");
        let cnt = u64_to_string(save.regions.len() as u64);
        s.append(cnt.as_str());
        s.append(" regions]\n");
        proof {
            assert(s@ =~= save.name@ + " ["@ + dec_digits(rs.len()) + " regions]\n"@);
        }
        if save.regions.len() == 0 {
            return s;
        }
        let ghost header = s@;
        let (xl, xh, zl, zh) = min_max_coords(&save.regions);
        append_border(&mut s, xl, xh);
        let ghost after_top = s@;
        let mut z: i64 = zl as i64;
        while z <= zh as i64
            invariant
                zl as i64 <= z <= zh as i64 + 1,
                xl <= xh,
                s@ == after_top + grid_rows(rs, zl as int, z as int - 1, xl as int, xh as int),
                after_top == header + grid_border(xl as int, xh as int),
                rs == save.regions@,
            decreases zh as i64 + 1 - z,
        {
            append_row(&mut s, save, z as i32, xl, xh);
            proof {
                assert((after_top + grid_rows(rs, zl as int, z as int - 1, xl as int, xh as int))
                    + grid_row(rs, z as int, xl as int, xh as int) =~= after_top + grid_rows(
                    rs,
                    zl as int,
                    z as int,
                    xl as int,
                    xh as int,
                ));
            }
            z = z + 1;
        }
        append_border(&mut s, xl, xh);
        s.append("   ");
        let pad = pad_to_mult5(xl);
        append_repeat(&mut s, ' ', pad);
        let ghost before_labels = s@;
        let ghost x0 = xl as int + (-(xl as int)) % 5;
        let mut x: i64 = xl as i64 + pad as i64;
        proof {
            assert(x as int == x0);
        }
        while x <= xh as i64
            invariant
                x0 <= x <= xh as i64 + 5,
                x > i64::MIN,
                before_labels + labels_from(x0, xh as int) == s@ + labels_from(
                    x as int,
                    xh as int,
                ),
            decreases xh as i64 + 5 - x,
        {
            let lbl = i64_to_string_pad3(x);
            s.append(lbl.as_str());
            s.append("  ");
            proof {
                assert(labels_from(x as int, xh as int) == pad3(dec_int(x as int)) + "  "@
                    + labels_from(x as int + 5, xh as int));
                // re-associate: (s_prev + lbl + "  ") + rest == s_prev + (lbl + "  " + rest)
                assert(before_labels + labels_from(x0, xh as int) =~= s@ + labels_from(
                    x as int + 5,
                    xh as int,
                ));
            }
            x = x + 5;
        }
        proof {
            assert(labels_from(x as int, xh as int) =~= Seq::<char>::empty());
            assert(s@ + Seq::<char>::empty() =~= s@);
            assert(s@ =~= before_labels + labels_from(x0, xh as int));
            assert(s@ =~= grid_render(*save));
        }
        s
    }
}

} // verus!
