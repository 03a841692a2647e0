use vstd::prelude::*;
use crate::blocks::{spec_block_id, Block};

verus! {

/// Number of blocks in a chunk (64³).
pub const CHUNK_VOLUME: usize = 262144;

/// Level of detail a chunk is drawn with.
#[derive(Clone, Copy, PartialEq, Eq, Hash, Debug, Structural)]
pub enum LoD {
    LOD1,
    LOD2,
    LOD4,
    LOD8,
    LOD16,
    Solid,
    Empty,
}

/// How many blocks one mesh slab spans at a level of detail.
pub open spec fn spec_lod_step(lod: LoD) -> u32 {
    match lod {
        LoD::LOD1 => 1,
        LoD::LOD2 => 2,
        LoD::LOD4 => 4,
        LoD::LOD8 => 8,
        LoD::LOD16 => 16,
        _ => 1,
    }
}

impl LoD {
    pub fn step(&self) -> (r: u32)
        ensures
            r == spec_lod_step(*self),
    {
        match self {
            LoD::LOD1 => 1,
            LoD::LOD2 => 2,
            LoD::LOD4 => 4,
            LoD::LOD8 => 8,
            LoD::LOD16 => 16,
            _ => 1,
        }
    }
}

/// The blocks of one chunk, stored x-fastest, then y, then z. Cells past the
/// end of the storage read as `Void`.
pub struct ChunkData {
    blocks: Vec<Block>,
}

/// Storage index of a chunk-local position.
pub open spec fn spec_index(x: u8, y: u8, z: u8) -> int {
    z as int * 4096 + y as int * 64 + x as int
}

/// The block at storage index `i`, `Void` past the end.
pub open spec fn spec_cell(s: Seq<Block>, i: int) -> Block {
    if 0 <= i < s.len() {
        s[i]
    } else {
        Block::Void
    }
}

/// The storage after writing `b` at index `i`: grown with `Void` up to `i` if
/// needed, everything else unchanged.
pub open spec fn spec_store(s: Seq<Block>, i: int, b: Block) -> Seq<Block> {
    let n = if i + 1 > s.len() { i + 1 } else { s.len() as int };
    Seq::new(n as nat, |j: int| if j == i { b } else { spec_cell(s, j) })
}

/// The level of detail a chunk's storage suggests: `Solid` when no cell is
/// `Void`, else `Empty` when every cell is `Void`, else `LOD1`.
pub open spec fn spec_lod_hint(s: Seq<Block>) -> LoD {
    if forall|i: int| 0 <= i < s.len() ==> s[i] != Block::Void {
        LoD::Solid
    } else if forall|i: int| 0 <= i < s.len() ==> s[i] == Block::Void {
        LoD::Empty
    } else {
        LoD::LOD1
    }
}

/// The texture byte of the cell at storage index `k / 4`, in the first channel
/// of each 4-byte pixel; the other channels are 0.
pub open spec fn spec_texel(s: Seq<Block>, k: int) -> u8 {
    if k % 4 == 0 {
        spec_block_id(spec_cell(s, k / 4)) as u8
    } else {
        0
    }
}

/// Calls `rand::random::<u8>()`, a byte from the thread-local generator; nothing
/// is claimed of its value.
#[verifier::external_body]
fn random_byte() -> (b: u8) {
    rand::random::<u8>()
}

impl View for ChunkData {
    type V = Seq<Block>;

    closed spec fn view(&self) -> Seq<Block> {
        self.blocks@
    }
}

impl ChunkData {
    pub open spec fn spec_get(&self, x: u8, y: u8, z: u8) -> Block {
        spec_cell(self@, spec_index(x, y, z))
    }

    /// A chunk with no storage: every cell reads as `Void`.
    pub fn empty() -> (r: ChunkData)
        ensures
            r@ == Seq::<Block>::empty(),
    {
        ChunkData { blocks: Vec::new() }
    }

    #[verifier::inline]
    pub open spec fn spec_get_index(x: u8, y: u8, z: u8) -> int {
        spec_index(x, y, z)
    }

    pub fn get_index(x: u8, y: u8, z: u8) -> (r: usize)
        ensures
            r as int == spec_index(x, y, z),
    {
        z as usize * 64 * 64 + y as usize * 64 + x as usize
    }

    pub fn set_block(&mut self, x: u8, y: u8, z: u8, block: Block)
        ensures
            final(self)@ == spec_store(old(self)@, spec_index(x, y, z), block),
    {
        let i = Self::get_index(x, y, z);
        let ghost s0 = self.blocks@;
        while self.blocks.len() <= i
            invariant
                s0.len() <= self.blocks@.len(),
                self.blocks@.len() == s0.len() || self.blocks@.len() <= i + 1,
                forall|j: int| 0 <= j < self.blocks@.len() ==> self.blocks@[j] == spec_cell(s0, j),
            decreases i + 1 - self.blocks.len(),
        {
            self.blocks.push(Block::Void);
        }
        self.blocks.set(i, block);
        assert(self.blocks@ =~= spec_store(s0, i as int, block));
    }

    pub fn get_block(&self, x: u8, y: u8, z: u8) -> (r: Block)
        ensures
            r == self.spec_get(x, y, z),
    {
        let i = Self::get_index(x, y, z);
        if i >= self.blocks.len() {
            return Block::Void;
        }
        self.blocks[i]
    }

    /// The block at a position, or `None` when a coordinate is outside the chunk.
    pub fn get_block_checked(&self, x: u8, y: u8, z: u8) -> (r: Option<Block>)
        ensures
            r == (if x < 64 && y < 64 && z < 64 {
                Some(self.spec_get(x, y, z))
            } else {
                None
            }),
    {
        if x as usize >= 64 || y as usize >= 64 || z as usize >= 64 {
            return None;
        }
        Some(self.get_block(x, y, z))
    }

    pub fn lod_hint(&self) -> (r: LoD)
        ensures
            r == spec_lod_hint(self@),
    {
        let mut any_void = false;
        let mut any_solid = false;
        let mut i: usize = 0;
        while i < self.blocks.len()
            invariant
                i <= self.blocks@.len(),
                any_void <==> exists|j: int| 0 <= j < i && self.blocks@[j] == Block::Void,
                any_solid <==> exists|j: int| 0 <= j < i && self.blocks@[j] != Block::Void,
            decreases self.blocks@.len() - i,
        {
            if self.blocks[i] == Block::Void {
                any_void = true;
            } else {
                any_solid = true;
            }
            i += 1;
        }
        if !any_void {
            LoD::Solid
        } else if !any_solid {
            LoD::Empty
        } else {
            LoD::LOD1
        }
    }

    /// A test chunk: the lower half of every column holds `Other` blocks with
    /// random bytes, the upper half is `Void`.
    pub fn test() -> (r: ChunkData)
        ensures
            r@.len() == CHUNK_VOLUME,
            forall|i: int|
                0 <= i < CHUNK_VOLUME ==> (#[trigger] r@[i] is Other <==> (i / 64) % 64 < 32),
            forall|i: int|
                0 <= i < CHUNK_VOLUME && (i / 64) % 64 >= 32 ==> #[trigger] r@[i] == Block::Void,
    {
        let mut data = Self::empty();
        let mut z: u8 = 0;
        while z < 64
            invariant
                z <= 64,
                data@.len() == z as int * 4096,
                forall|i: int|
                    0 <= i < data@.len() ==> (#[trigger] data@[i] is Other <==> (i / 64) % 64 < 32),
                forall|i: int|
                    0 <= i < data@.len() && (i / 64) % 64 >= 32 ==> #[trigger] data@[i] == Block::Void,
            decreases 64 - z,
        {
            let mut y: u8 = 0;
            while y < 64
                invariant
                    z < 64,
                    y <= 64,
                    data@.len() == z as int * 4096 + y as int * 64,
                    forall|i: int|
                        0 <= i < data@.len() ==> (#[trigger] data@[i] is Other <==> (i / 64) % 64
                            < 32),
                    forall|i: int|
                        0 <= i < data@.len() && (i / 64) % 64 >= 32 ==> #[trigger] data@[i]
                            == Block::Void,
                decreases 64 - y,
            {
                let mut x: u8 = 0;
                while x < 64
                    invariant
                        z < 64,
                        y < 64,
                        x <= 64,
                        data@.len() == z as int * 4096 + y as int * 64 + x as int,
                        forall|i: int|
                            0 <= i < data@.len() ==> (#[trigger] data@[i] is Other <==> (i / 64)
                                % 64 < 32),
                        forall|i: int|
                            0 <= i < data@.len() && (i / 64) % 64 >= 32 ==> #[trigger] data@[i]
                                == Block::Void,
                    decreases 64 - x,
                {
                    let ghost n = data@.len() as int;
                    assert((n / 64) % 64 == y as int) by {
                        assert(n == (z as int * 64 + y as int) * 64 + x as int);
                        vstd::arithmetic::div_mod::lemma_fundamental_div_mod_converse(
                            n,
                            64,
                            z as int * 64 + y as int,
                            x as int,
                        );
                        vstd::arithmetic::div_mod::lemma_fundamental_div_mod_converse(
                            z as int * 64 + y as int,
                            64,
                            z as int,
                            y as int,
                        );
                    }
                    if y < 32 {
                        data.set_block(x, y, z, Block::Other(random_byte()));
                    } else {
                        data.set_block(x, y, z, Block::Void);
                    }
                    x += 1;
                }
                y += 1;
            }
            z += 1;
        }
        data
    }

    /// The pixel bytes of the chunk's 64³ RGBA8 texture: for each cell in storage
    /// order, its block byte followed by three zero bytes.
    pub fn to_image(&self) -> (r: Vec<u8>)
        ensures
            r@.len() == 4 * CHUNK_VOLUME,
            forall|k: int| 0 <= k < 4 * CHUNK_VOLUME ==> #[trigger] r@[k] == spec_texel(self@, k),
    {
        let mut data: Vec<u8> = Vec::new();
        let mut k: usize = 0;
        while k < CHUNK_VOLUME
            invariant
                k <= CHUNK_VOLUME,
                data@.len() == 4 * k,
                forall|j: int| 0 <= j < data@.len() ==> #[trigger] data@[j] == spec_texel(self@, j),
            decreases CHUNK_VOLUME - k,
        {
            let b = if k < self.blocks.len() {
                self.blocks[k]
            } else {
                Block::Void
            };
            let t = b.block_type();
            let ghost n = data@.len() as int;
            data.push(t);
            data.push(0);
            data.push(0);
            data.push(0);
            assert forall|j: int| 0 <= j < data@.len() implies #[trigger] data@[j] == spec_texel(
                self@,
                j,
            ) by {
                if j >= n {
                    assert(n == 4 * k);
                    assert(j / 4 == k as int);
                    assert(j % 4 == j - n);
                }
            }
            k += 1;
        }
        data
    }

    /// The pixel bytes of an all-zero 64³ RGBA8 texture, shown before a chunk's
    /// data is ready.
    pub fn dummy_image() -> (r: Vec<u8>)
        ensures
            r@.len() == 4 * CHUNK_VOLUME,
            forall|k: int| 0 <= k < 4 * CHUNK_VOLUME ==> #[trigger] r@[k] == 0,
    {
        let mut data: Vec<u8> = Vec::new();
        let mut k: usize = 0;
        while k < 4 * CHUNK_VOLUME
            invariant
                k <= 4 * CHUNK_VOLUME,
                data@.len() == k,
                forall|j: int| 0 <= j < data@.len() ==> #[trigger] data@[j] == 0,
            decreases 4 * CHUNK_VOLUME - k,
        {
            data.push(0);
            k += 1;
        }
        data
    }
}

/// The cell at chunk-local `(x, y, z)` of a storage sequence.
pub open spec fn spec_cell_at(s: Seq<Block>, x: int, y: int, z: int) -> Block {
    spec_cell(s, z * 4096 + y * 64 + x)
}

/// Block `y` of column `(x, z)`, where columns are listed x-major.
pub open spec fn spec_column_cell(columns: Seq<[Block; 64]>, x: int, y: int, z: int) -> Block {
    columns[x * 64 + z]@[y]
}

/// The block the storage index `j` stands for, taken from the columns.
pub open spec fn spec_column_at_index(columns: Seq<[Block; 64]>, j: int) -> Block {
    spec_column_cell(columns, j % 64, (j / 64) % 64, j / 4096)
}

proof fn lemma_index_split(x: int, y: int, z: int)
    requires
        0 <= x < 64,
        0 <= y < 64,
        0 <= z,
    ensures
        (z * 4096 + y * 64 + x) % 64 == x,
        ((z * 4096 + y * 64 + x) / 64) % 64 == y,
        (z * 4096 + y * 64 + x) / 4096 == z,
{
    let j = z * 4096 + y * 64 + x;
    vstd::arithmetic::div_mod::lemma_fundamental_div_mod_converse(j, 64, z * 64 + y, x);
    vstd::arithmetic::div_mod::lemma_fundamental_div_mod_converse(z * 64 + y, 64, z, y);
    vstd::arithmetic::div_mod::lemma_fundamental_div_mod_converse(j, 4096, z, y * 64 + x);
}

impl ChunkData {
    /// Assembles a chunk from its 64 × 64 columns, listed x-major (column
    /// `(x, z)` at `x * 64 + z`), each bottom to top.
    pub fn from_columns(columns: &Vec<[Block; 64]>) -> (r: ChunkData)
        requires
            columns@.len() == 4096,
        ensures
            r@.len() == CHUNK_VOLUME,
            forall|x: int, y: int, z: int|
                0 <= x < 64 && 0 <= y < 64 && 0 <= z < 64 ==> #[trigger] spec_cell_at(r@, x, y, z)
                    == spec_column_cell(columns@, x, y, z),
    {
        let mut blocks: Vec<Block> = Vec::new();
        let mut z: usize = 0;
        while z < 64
            invariant
                z <= 64,
                columns@.len() == 4096,
                blocks@.len() == z * 4096,
                forall|j: int| 0 <= j < blocks@.len() ==> #[trigger] blocks@[j] == spec_column_at_index(columns@, j),
            decreases 64 - z,
        {
            let mut y: usize = 0;
            while y < 64
                invariant
                    z < 64,
                    y <= 64,
                    columns@.len() == 4096,
                    blocks@.len() == z * 4096 + y * 64,
                    forall|j: int| 0 <= j < blocks@.len() ==> #[trigger] blocks@[j] == spec_column_at_index(columns@, j),
                decreases 64 - y,
            {
                let mut x: usize = 0;
                while x < 64
                    invariant
                        z < 64,
                        y < 64,
                        x <= 64,
                        columns@.len() == 4096,
                        blocks@.len() == z * 4096 + y * 64 + x,
                        forall|j: int| 0 <= j < blocks@.len() ==> #[trigger] blocks@[j] == spec_column_at_index(columns@, j),
                    decreases 64 - x,
                {
                    proof {
                        lemma_index_split(x as int, y as int, z as int);
                    }
                    let column = &columns[x * 64 + z];
                    blocks.push(column[y]);
                    x += 1;
                }
                y += 1;
            }
            z += 1;
        }
        assert forall|x: int, y: int, z: int|
            0 <= x < 64 && 0 <= y < 64 && 0 <= z < 64 implies #[trigger] spec_cell_at(blocks@, x, y, z)
                == spec_column_cell(columns@, x, y, z) by {
            lemma_index_split(x, y, z);
        }
        ChunkData { blocks }
    }
}

/// Cells are stored x fastest, then y, then z: the corner `(0, 0, 0)` first,
/// one step in x moves one cell on, one in y a row of 64 cells, one in z a
/// layer of 64 × 64 cells, and every cell of the chunk lies in the first
/// `CHUNK_VOLUME` places.
pub proof fn lemma_storage_order(x: u8, y: u8, z: u8)
    requires
        x < 64 && y < 64 && z < 64,
    ensures
        spec_index(0, 0, 0) == 0,
        x < 63 ==> spec_index((x + 1) as u8, y, z) == spec_index(x, y, z) + 1,
        y < 63 ==> spec_index(x, (y + 1) as u8, z) == spec_index(x, y, z) + 64,
        z < 63 ==> spec_index(x, y, (z + 1) as u8) == spec_index(x, y, z) + 4096,
        0 <= spec_index(x, y, z) < CHUNK_VOLUME,
{
}

/// A chunk assembled from columns reads back, through `get_block`, block `y`
/// of column `(x, z)` at `(x, y, z)`, the columns listed x-major.
pub proof fn lemma_columns_read_back(columns: Seq<[Block; 64]>, s: Seq<Block>, x: u8, y: u8, z: u8)
    requires
        columns.len() == 4096,
        forall|i: int, j: int, k: int|
            0 <= i < 64 && 0 <= j < 64 && 0 <= k < 64 ==> #[trigger] spec_cell_at(s, i, j, k)
                == spec_column_cell(columns, i, j, k),
        x < 64 && y < 64 && z < 64,
    ensures
        spec_cell(s, spec_index(x, y, z)) == columns[x as int * 64 + z as int]@[y as int],
{
    assert(spec_cell_at(s, x as int, y as int, z as int) == spec_column_cell(columns, x as int, y as int, z as int));
}

/// A chunk is drawn solid when it has no empty cell, skipped when it has
/// cells and all are empty, and at full detail when it mixes both.
pub proof fn lemma_lod_hint_cases(s: Seq<Block>)
    ensures
        spec_lod_hint(s) == LoD::Solid <==> !s.contains(Block::Void),
        spec_lod_hint(s) == LoD::Empty <==> (s.contains(Block::Void) && forall|i: int|
            0 <= i < s.len() ==> s[i] == Block::Void),
        spec_lod_hint(s) == LoD::LOD1 <==> (s.contains(Block::Void) && exists|i: int|
            0 <= i < s.len() && s[i] != Block::Void),
{
    if s.contains(Block::Void) {
        let k = choose|k: int| 0 <= k < s.len() && s[k] == Block::Void;
        assert(s[k] == Block::Void);
    } else {
        assert forall|i: int| 0 <= i < s.len() implies s[i] != Block::Void by {
            if s[i] == Block::Void {
                assert(s.contains(Block::Void));
            }
        }
    }
}

/// Pixel `i` of a chunk's texture holds the byte of the block stored at
/// cell `i` (`Void` past the storage) in its first channel, for every kind of
/// block, water and `Other` included, and zero in the other three channels.
pub proof fn lemma_texture_pixel(s: Seq<Block>, i: int)
    requires
        0 <= i < CHUNK_VOLUME,
    ensures
        spec_texel(s, 4 * i) == match spec_cell(s, i) {
            Block::Void => 0u8,
            Block::Grass => 1u8,
            Block::Dirt => 2u8,
            Block::Stone => 3u8,
            Block::BedRock => 4u8,
            Block::Snow => 5u8,
            Block::Sand => 6u8,
            Block::Water => 7u8,
            Block::Other(v) => v,
        },
        spec_texel(s, 4 * i + 1) == 0,
        spec_texel(s, 4 * i + 2) == 0,
        spec_texel(s, 4 * i + 3) == 0,
        i < s.len() ==> spec_cell(s, i) == s[i],
        i >= s.len() ==> spec_cell(s, i) == Block::Void,
{
    vstd::arithmetic::div_mod::lemma_fundamental_div_mod_converse(4 * i, 4, i, 0);
    vstd::arithmetic::div_mod::lemma_fundamental_div_mod_converse(4 * i + 1, 4, i, 1);
    vstd::arithmetic::div_mod::lemma_fundamental_div_mod_converse(4 * i + 2, 4, i, 2);
    vstd::arithmetic::div_mod::lemma_fundamental_div_mod_converse(4 * i + 3, 4, i, 3);
}

/// Writing a block and then reading the same position gives the block back;
/// reading any other position of the chunk gives what it held before.
pub proof fn lemma_set_then_get(s: Seq<Block>, x: u8, y: u8, z: u8, b: Block, x2: u8, y2: u8, z2: u8)
    requires
        x < 64 && y < 64 && z < 64,
        x2 < 64 && y2 < 64 && z2 < 64,
    ensures
        spec_cell(spec_store(s, spec_index(x, y, z), b), spec_index(x2, y2, z2)) == if x == x2
            && y == y2 && z == z2 {
            b
        } else {
            spec_cell(s, spec_index(x2, y2, z2))
        },
{
    if spec_index(x, y, z) == spec_index(x2, y2, z2) {
        lemma_index_injective(x, y, z, x2, y2, z2);
    }
}

/// Distinct positions inside a chunk have distinct storage indices.
pub proof fn lemma_index_injective(x: u8, y: u8, z: u8, x2: u8, y2: u8, z2: u8)
    requires
        x < 64 && y < 64 && z < 64,
        x2 < 64 && y2 < 64 && z2 < 64,
        spec_index(x, y, z) == spec_index(x2, y2, z2),
    ensures
        x == x2 && y == y2 && z == z2,
{
    let i = spec_index(x, y, z);
    vstd::arithmetic::div_mod::lemma_fundamental_div_mod_converse(i, 64, z as int * 64 + y as int, x as int);
    vstd::arithmetic::div_mod::lemma_fundamental_div_mod_converse(i, 64, z2 as int * 64 + y2 as int, x2 as int);
    vstd::arithmetic::div_mod::lemma_fundamental_div_mod_converse(z as int * 64 + y as int, 64, z as int, y as int);
    vstd::arithmetic::div_mod::lemma_fundamental_div_mod_converse(z2 as int * 64 + y2 as int, 64, z2 as int, y2 as int);
}

/// Every cell of an empty chunk reads as `Void`, and an empty chunk is hinted
/// `Solid` (no cell of its storage is `Void`).
pub proof fn lemma_empty_chunk(x: u8, y: u8, z: u8)
    ensures
        spec_cell(Seq::<Block>::empty(), spec_index(x, y, z)) == Block::Void,
        spec_lod_hint(Seq::<Block>::empty()) == LoD::Solid,
{
}

} // verus!
