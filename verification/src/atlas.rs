//! The texture atlas: which texture has which number, and where each tile
//! lies in the image.
//!
//! The tiles are squares of one size, laid out row by row in a square of
//! `tile_count` tiles a side. Tile 0 is kept free; the textures get the
//! numbers from 1 on, in the order in which they were taken in.

use vstd::prelude::*;

verus! {

/// One entry of the atlas: the texture `name` has the number `id`.
#[derive(Debug, Clone, PartialEq, Eq)]
pub struct TextureEntry {
    pub name: String,
    pub id: u32,
}

/// The numbers of the textures by name, when `entries` are taken in order:
/// a later entry replaces an earlier one of the same name.
pub open spec fn texture_table(entries: Seq<TextureEntry>) -> Map<Seq<char>, u32>
    decreases entries.len(),
{
    if entries.len() == 0 {
        Map::empty()
    } else {
        texture_table(entries.drop_last()).insert(entries.last().name@, entries.last().id)
    }
}

/// The atlas of block textures.
pub struct BlockAtlas {
    size: u32,
    tile_size: u32,
    entries: Vec<TextureEntry>,
}

impl View for BlockAtlas {
    type V = Map<Seq<char>, u32>;

    closed spec fn view(&self) -> Map<Seq<char>, u32> {
        texture_table(self.entries@)
    }
}

/// A name that no entry from `from` on has is looked up in the entries
/// before `from` alone.
proof fn lemma_table_skips_other_names(entries: Seq<TextureEntry>, name: Seq<char>, from: int)
    requires
        0 <= from <= entries.len(),
        forall|i: int| from <= i < entries.len() ==> entries[i].name@ != name,
    ensures
        texture_table(entries).contains_key(name) == texture_table(entries.take(from)).contains_key(
            name,
        ),
        texture_table(entries).contains_key(name) ==> texture_table(entries)[name] == texture_table(
            entries.take(from),
        )[name],
    decreases entries.len() - from,
{
    if from == entries.len() {
        assert(entries.take(from) =~= entries);
    } else {
        let shorter = entries.drop_last();
        lemma_table_skips_other_names(shorter, name, from);
        assert(shorter.take(from) =~= entries.take(from));
    }
}

impl BlockAtlas {
    /// An atlas of `size` pixels in width with tiles of `tile_size` pixels in
    /// width, which holds no texture yet.
    pub fn new(size: u32, tile_size: u32) -> (atlas: BlockAtlas)
        ensures
            atlas@ == Map::<Seq<char>, u32>::empty(),
            atlas.size() == size,
            atlas.tile_size() == tile_size,
    {
        BlockAtlas { size, tile_size, entries: Vec::new() }
    }

    /// The width of the atlas image, in pixels.
    pub closed spec fn spec_size(&self) -> u32 {
        self.size
    }

    /// The width of one tile, in pixels.
    pub closed spec fn spec_tile_size(&self) -> u32 {
        self.tile_size
    }

    /// The width of the atlas image, in pixels.
    #[verifier::when_used_as_spec(spec_size)]
    pub fn size(&self) -> (size: u32)
        ensures
            size == self.size(),
    {
        self.size
    }

    /// The width of one tile, in pixels.
    #[verifier::when_used_as_spec(spec_tile_size)]
    pub fn tile_size(&self) -> (tile_size: u32)
        ensures
            tile_size == self.tile_size(),
    {
        self.tile_size
    }

    /// Gives the texture `name` the number `id`, in place of the number it
    /// had.
    pub fn insert(&mut self, name: String, id: u32)
        ensures
            final(self)@ == old(self)@.insert(name@, id),
            final(self).size() == old(self).size(),
            final(self).tile_size() == old(self).tile_size(),
    {
        self.entries.push(TextureEntry { name, id });
        assert(self.entries@.drop_last() =~= old(self).entries@);
    }

    /// The number of the texture `texture_name`, if the atlas holds it.
    pub fn get_texture_id(&self, texture_name: &str) -> (id: Option<u32>)
        ensures
            id == if self@.contains_key(texture_name@) {
                Some(self@[texture_name@])
            } else {
                None
            },
    {
        let wanted: String = texture_name.to_owned();
        let mut at: usize = self.entries.len();
        while at > 0
            invariant
                at <= self.entries@.len(),
                wanted@ == texture_name@,
                forall|i: int| at <= i < self.entries@.len() ==> self.entries@[i].name@ != wanted@,
            decreases at,
        {
            at -= 1;
            if self.entries[at].name == wanted {
                proof {
                    let upto = self.entries@.take(at + 1);
                    lemma_table_skips_other_names(self.entries@, wanted@, at + 1);
                    assert(upto.last() == self.entries@[at as int]);
                }
                return Some(self.entries[at].id);
            }
        }
        proof {
            lemma_table_skips_other_names(self.entries@, wanted@, 0);
            assert(self.entries@.take(0) =~= Seq::empty());
        }
        None
    }
}

/// Whether `count` tiles a side give room for `files` textures and the
/// free tile 0.
pub open spec fn holds_tiles(count: int, files: int) -> bool {
    count * count >= files + 1
}

/// Whether `count` is the number of tiles along one side of the atlas for
/// `files` textures: the least whose square has room for them and the free
/// tile 0.
pub open spec fn is_tile_count(count: int, files: int) -> bool {
    count >= 1 && holds_tiles(count, files) && !holds_tiles(count - 1, files)
}

/// There is one such number only.
pub proof fn lemma_tile_count_unique(a: int, b: int, files: int)
    requires
        is_tile_count(a, files),
        is_tile_count(b, files),
    ensures
        a == b,
{
    if a < b {
        assert((b - 1) * (b - 1) >= a * a) by (nonlinear_arith)
            requires
                1 <= a <= b - 1,
        ;
    } else if b < a {
        assert((a - 1) * (a - 1) >= b * b) by (nonlinear_arith)
            requires
                1 <= b <= a - 1,
        ;
    }
}

/// The number of tiles along one side of the atlas for `files` textures.
pub fn tile_count(files: u32) -> (count: u32)
    ensures
        is_tile_count(count as int, files as int),
        count <= 65536,
{
    let wanted: u64 = files as u64 + 1;
    let mut count: u32 = 1;
    let mut square: u64 = 1;
    while square < wanted
        invariant
            1 <= count <= 65536,
            square == count * count,
            wanted == files + 1,
            !holds_tiles(count - 1, files as int),
        decreases 65536 - count,
    {
        assert(count < 65536) by (nonlinear_arith)
            requires
                (count as int) * (count as int) < wanted,
                wanted <= 0x1_0000_0000,
                count <= 65536,
        ;
        count += 1;
        assert((count as int) * (count as int) <= 0x1_0000_0000) by (nonlinear_arith)
            requires
                1 <= count <= 65536,
        ;
        square = (count as u64) * (count as u64);
    }
    count
}

/// The corner of the tile with the number `id`, in pixels: the tiles lie
/// row by row, `tile_count` to a row.
pub open spec fn tile_origin(id: int, tile_count: int, tile_width: int, tile_height: int) -> (
    int,
    int,
) {
    ((id % tile_count) * tile_width, (id / tile_count) * tile_height)
}

/// One image file offered to the atlas: its name without the extension,
/// and its size in pixels, or `None` if it could not be read.
#[derive(Debug, Clone, PartialEq, Eq)]
pub struct TextureFile {
    pub name: String,
    pub size: Option<(u32, u32)>,
}

/// Where one texture goes: the file at the place `file` of the list gets
/// the number `id` and is copied to the pixel `(x, y)`.
#[derive(Debug, Clone, Copy, PartialEq, Eq, Structural)]
pub struct Placement {
    pub file: usize,
    pub id: u32,
    pub x: u32,
    pub y: u32,
}

/// Whether the atlas takes the file: it was read, and it has the size of
/// a tile.
pub open spec fn is_taken(file: TextureFile, tile_width: u32, tile_height: u32) -> bool {
    file.size == Some((tile_width, tile_height))
}

/// The number of files among the first `upto` that the atlas takes.
pub open spec fn taken_before(
    files: Seq<TextureFile>,
    tile_width: u32,
    tile_height: u32,
    upto: int,
) -> int
    decreases upto,
{
    if upto <= 0 {
        0
    } else {
        taken_before(files, tile_width, tile_height, upto - 1) + if is_taken(
            files[upto - 1],
            tile_width,
            tile_height,
        ) {
            1int
        } else {
            0
        }
    }
}

/// The placements of the files that the atlas takes, among the first
/// `upto`, in order. The k-th of them gets the number k, counted from 1.
pub open spec fn placements(
    files: Seq<TextureFile>,
    tile_width: u32,
    tile_height: u32,
    tiles: int,
    upto: int,
) -> Seq<Placement>
    decreases upto,
{
    if upto <= 0 {
        Seq::empty()
    } else {
        let before = placements(files, tile_width, tile_height, tiles, upto - 1);
        if is_taken(files[upto - 1], tile_width, tile_height) {
            let id = taken_before(files, tile_width, tile_height, upto - 1) + 1;
            let origin = tile_origin(id, tiles, tile_width as int, tile_height as int);
            before.push(
                Placement {
                    file: (upto - 1) as usize,
                    id: id as u32,
                    x: origin.0 as u32,
                    y: origin.1 as u32,
                },
            )
        } else {
            before
        }
    }
}

/// The entries of the atlas for the files that it takes, among the first
/// `upto`, in order.
pub open spec fn taken_entries(
    files: Seq<TextureFile>,
    tile_width: u32,
    tile_height: u32,
    upto: int,
) -> Map<Seq<char>, u32>
    decreases upto,
{
    if upto <= 0 {
        Map::empty()
    } else {
        let before = taken_entries(files, tile_width, tile_height, upto - 1);
        if is_taken(files[upto - 1], tile_width, tile_height) {
            before.insert(
                files[upto - 1].name@,
                (taken_before(files, tile_width, tile_height, upto - 1) + 1) as u32,
            )
        } else {
            before
        }
    }
}

proof fn lemma_taken_before_bound(
    files: Seq<TextureFile>,
    tile_width: u32,
    tile_height: u32,
    upto: int,
)
    requires
        0 <= upto,
    ensures
        0 <= taken_before(files, tile_width, tile_height, upto) <= upto,
    decreases upto,
{
    if upto > 0 {
        lemma_taken_before_bound(files, tile_width, tile_height, upto - 1);
    }
}

/// A tile whose number is at most the count of files lies within the
/// square of `tiles` tiles a side.
proof fn lemma_tile_in_atlas(id: int, files: int, tiles: int)
    requires
        0 <= id <= files,
        tiles >= 1,
        holds_tiles(tiles, files),
    ensures
        0 <= id % tiles < tiles,
        0 <= id / tiles < tiles,
{
    vstd::arithmetic::div_mod::lemma_mod_bound(id, tiles);
    vstd::arithmetic::div_mod::lemma_div_pos_is_pos(id, tiles);
    if id / tiles >= tiles {
        vstd::arithmetic::div_mod::lemma_fundamental_div_mod(id, tiles);
        assert(tiles * (id / tiles) >= tiles * tiles) by (nonlinear_arith)
            requires
                id / tiles >= tiles,
                tiles >= 1,
        ;
    }
}

/// Whether an atlas for `files` textures of the tile size `tile_width` by
/// `tile_height` can be laid out: a `u32` can count the textures, and the
/// image is no wider and no higher than a `u32` can say.
pub open spec fn can_plan(tile_width: u32, tile_height: u32, files: int) -> bool {
    &&& files < u32::MAX
    &&& forall|count: int|
        is_tile_count(count, files) ==> tile_width * count <= u32::MAX && tile_height * count
            <= u32::MAX
}

/// The layout of an atlas.
pub struct AtlasPlan {
    /// The atlas, which knows the number of each texture.
    pub atlas: BlockAtlas,
    /// The number of tiles along one side.
    pub tiles: u32,
    /// For each file taken, where its pixels go.
    pub placed: Vec<Placement>,
}

impl BlockAtlas {
    /// Lays out the atlas for `files`, whose first file gave the tile size
    /// `tile_width` by `tile_height`. A file that could not be read, or
    /// that is of another size, is left out; the others get the numbers from
    /// 1 on and a tile each, within the image. `None` when the atlas cannot
    /// be laid out.
    pub fn plan(tile_width: u32, tile_height: u32, files: &Vec<TextureFile>) -> (plan: Option<
        AtlasPlan,
    >)
        ensures
            plan is Some <==> can_plan(tile_width, tile_height, files@.len() as int),
            plan matches Some(plan) ==> {
                &&& is_tile_count(plan.tiles as int, files@.len() as int)
                &&& plan.atlas.size() == tile_width * plan.tiles
                &&& plan.atlas.tile_size() == tile_width
                &&& plan.atlas@ == taken_entries(
                    files@,
                    tile_width,
                    tile_height,
                    files@.len() as int,
                )
                &&& plan.placed@ == placements(
                    files@,
                    tile_width,
                    tile_height,
                    plan.tiles as int,
                    files@.len() as int,
                )
                &&& forall|i: int|
                    0 <= i < plan.placed@.len() ==> (#[trigger] plan.placed@[i]).x + tile_width
                        <= tile_width * plan.tiles && plan.placed@[i].y + tile_height <= tile_height
                        * plan.tiles
            },
    {
        let n: usize = files.len();
        if n >= u32::MAX as usize {
            return None;
        }
        let tiles: u32 = tile_count(n as u32);
        assert(tile_width * tiles <= 0xffff_ffff_ffff_ffff && tile_height * tiles
            <= 0xffff_ffff_ffff_ffff) by (nonlinear_arith)
            requires
                tile_width <= 0xffff_ffff,
                tile_height <= 0xffff_ffff,
                tiles <= 65536,
        ;
        let width: u64 = tile_width as u64 * tiles as u64;
        let height: u64 = tile_height as u64 * tiles as u64;
        if width > u32::MAX as u64 || height > u32::MAX as u64 {
            return None;
        }
        assert(can_plan(tile_width, tile_height, n as int)) by {
            assert forall|count: int| is_tile_count(count, n as int) implies tile_width * count
                <= u32::MAX && tile_height * count <= u32::MAX by {
                lemma_tile_count_unique(count, tiles as int, n as int);
            }
        }
        let mut atlas = BlockAtlas::new(width as u32, tile_width);
        let mut placed: Vec<Placement> = Vec::new();
        let mut id: u32 = 1;
        let mut at: usize = 0;
        while at < n
            invariant
                at <= n,
                n == files@.len(),
                n < u32::MAX,
                is_tile_count(tiles as int, n as int),
                tile_width * tiles <= u32::MAX,
                tile_height * tiles <= u32::MAX,
                id == taken_before(files@, tile_width, tile_height, at as int) + 1,
                atlas.size() == tile_width * tiles,
                atlas.tile_size() == tile_width,
                atlas@ == taken_entries(files@, tile_width, tile_height, at as int),
                placed@ == placements(files@, tile_width, tile_height, tiles as int, at as int),
                forall|i: int|
                    0 <= i < placed@.len() ==> (#[trigger] placed@[i]).x + tile_width <= tile_width
                        * tiles && placed@[i].y + tile_height <= tile_height * tiles,
            decreases n - at,
        {
            proof {
                lemma_taken_before_bound(files@, tile_width, tile_height, at as int);
            }
            let taken = match files[at].size {
                Some((w, h)) => w == tile_width && h == tile_height,
                None => false,
            };
            if taken {
                proof {
                    lemma_tile_in_atlas(id as int, n as int, tiles as int);
                    let col = id as int % tiles as int;
                    let row = id as int / tiles as int;
                    assert(col * tile_width + tile_width <= tile_width * tiles) by (nonlinear_arith)
                        requires
                            0 <= col < tiles,
                            0 <= tile_width,
                    ;
                    assert(row * tile_height + tile_height <= tile_height * tiles)
                        by (nonlinear_arith)
                        requires
                            0 <= row < tiles,
                            0 <= tile_height,
                    ;
                    assert(0 <= col * tile_width && 0 <= row * tile_height) by (nonlinear_arith)
                        requires
                            0 <= col,
                            0 <= row,
                            0 <= tile_width,
                            0 <= tile_height,
                    ;
                }
                let x: u32 = (id % tiles) * tile_width;
                let y: u32 = (id / tiles) * tile_height;
                placed.push(Placement { file: at, id, x, y });
                atlas.insert(files[at].name.clone(), id);
                id += 1;
            }
            at += 1;
        }
        Some(AtlasPlan { atlas, tiles, placed })
    }
}

} // verus!
