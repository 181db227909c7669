//! The renderer's tile layout: pixels are produced in 8x8 tiles, each tile
//! walked in Z (Morton) order, and unshuffled into a row-major RGB image.
use vstd::prelude::*;
use vstd::arithmetic::div_mod::lemma_fundamental_div_mod;
use vstd::arithmetic::div_mod::lemma_fundamental_div_mod_converse;

verus! {

/// Side length, in pixels, of the square tiles the renderer works in.
pub const TILE_SIZE: usize = 8;

/// Number of pixels in one tile.
pub const PIXELS_PER_TILE: usize = 64;

/// Local x coordinate of the `index`-th pixel of a tile walked in Z order:
/// bits 0, 2 and 4 of the index.
pub open spec fn morton_x(index: int) -> int {
    index % 2 + 2 * ((index / 4) % 2) + 4 * ((index / 16) % 2)
}

/// Local y coordinate of the `index`-th pixel of a tile walked in Z order:
/// bits 1, 3 and 5 of the index.
pub open spec fn morton_y(index: int) -> int {
    (index / 2) % 2 + 2 * ((index / 8) % 2) + 4 * ((index / 32) % 2)
}

/// Position in Z order of the pixel at local coordinates `(x, y)` of a tile:
/// the bits of `x` and `y` interleaved.
pub open spec fn morton_index(x: int, y: int) -> int {
    x % 2 + 2 * (y % 2) + 4 * ((x / 2) % 2) + 8 * ((y / 2) % 2) + 16 * ((x / 4) % 2) + 32 * ((y
        / 4) % 2)
}

/// Local coordinates of the `index`-th pixel of a tile walked in Z order.
pub fn morton_coordinates(index: usize) -> (coordinates: (usize, usize))
    ensures
        coordinates.0 == morton_x(index as int),
        coordinates.1 == morton_y(index as int),
{
    let x: usize = (((index >> 0usize) & 1) << 0usize) | (((index >> 2usize) & 1) << 1usize) | (((
    index >> 4usize) & 1) << 2usize);
    let y: usize = (((index >> 1usize) & 1) << 0usize) | (((index >> 3usize) & 1) << 1usize) | (((
    index >> 5usize) & 1) << 2usize);
    assert(x == index % 2 + 2 * ((index / 4) % 2) + 4 * ((index / 16) % 2)) by (bit_vector)
        requires
            x == (((index >> 0usize) & 1) << 0usize) | (((index >> 2usize) & 1) << 1usize) | (((
            index >> 4usize) & 1) << 2usize),
    ;
    assert(y == (index / 2) % 2 + 2 * ((index / 8) % 2) + 4 * ((index / 32) % 2)) by (bit_vector)
        requires
            y == (((index >> 1usize) & 1) << 0usize) | (((index >> 3usize) & 1) << 1usize) | (((
            index >> 5usize) & 1) << 2usize),
    ;
    (x, y)
}

/// Within one tile, walking the Z order visits every pixel exactly once:
/// each of the 64 indices lands inside the tile, and interleaving its
/// coordinates gives the index back.
pub proof fn lemma_morton_coordinates_in_tile(index: int)
    requires
        0 <= index < 64,
    ensures
        0 <= morton_x(index) < 8,
        0 <= morton_y(index) < 8,
        morton_index(morton_x(index), morton_y(index)) == index,
{
    let i = index as u8;
    assert(i < 64 ==> (i % 2 + 2 * ((i / 4) % 2) + 4 * ((i / 16) % 2)) % 2 + 2 * (((i / 2) % 2 + 2
        * ((i / 8) % 2) + 4 * ((i / 32) % 2)) % 2) + 4 * (((i % 2 + 2 * ((i / 4) % 2) + 4 * ((i
        / 16) % 2)) / 2) % 2) + 8 * ((((i / 2) % 2 + 2 * ((i / 8) % 2) + 4 * ((i / 32) % 2)) / 2)
        % 2) + 16 * (((i % 2 + 2 * ((i / 4) % 2) + 4 * ((i / 16) % 2)) / 4) % 2) + 32 * ((((i / 2)
        % 2 + 2 * ((i / 8) % 2) + 4 * ((i / 32) % 2)) / 4) % 2) == i) by (bit_vector);
}

/// Every pixel of a tile has a place in the Z order, and that place leads back
/// to the pixel.
pub proof fn lemma_morton_index_in_tile(x: int, y: int)
    requires
        0 <= x < 8,
        0 <= y < 8,
    ensures
        0 <= morton_index(x, y) < 64,
        morton_x(morton_index(x, y)) == x,
        morton_y(morton_index(x, y)) == y,
{
    let a = x as u8;
    let b = y as u8;
    assert(a < 8 && b < 8 ==> {
        let m = a % 2 + 2 * (b % 2) + 4 * ((a / 2) % 2) + 8 * ((b / 2) % 2) + 16 * ((a / 4) % 2)
            + 32 * ((b / 4) % 2);
        &&& m < 64
        &&& m % 2 + 2 * ((m / 4) % 2) + 4 * ((m / 16) % 2) == a
        &&& (m / 2) % 2 + 2 * ((m / 8) % 2) + 4 * ((m / 32) % 2) == b
    }) by (bit_vector);
}


/// The walk is the Z order: at every scale, from pixels through 2x2 and 4x4
/// blocks to the 8x8 tile, the index visits the four quarters of a block
/// left to right, then top to bottom. Bit `2k` of the index is bit `k` of
/// the local x coordinate and bit `2k + 1` is bit `k` of the local y
/// coordinate; index 8, for one, lies at `(0, 2)`.
pub proof fn lemma_morton_walk_is_z_order(index: int)
    requires
        0 <= index < 64,
    ensures
        morton_x(index) % 2 == index % 2,
        morton_y(index) % 2 == (index / 2) % 2,
        (morton_x(index) / 2) % 2 == (index / 4) % 2,
        (morton_y(index) / 2) % 2 == (index / 8) % 2,
        (morton_x(index) / 4) % 2 == (index / 16) % 2,
        (morton_y(index) / 4) % 2 == (index / 32) % 2,
        morton_x(index) < 8,
        morton_y(index) < 8,
{
    let i = index as u8;
    assert(i < 64 ==> {
        let x = i % 2 + 2 * ((i / 4) % 2) + 4 * ((i / 16) % 2);
        let y = (i / 2) % 2 + 2 * ((i / 8) % 2) + 4 * ((i / 32) % 2);
        &&& x % 2 == (i & 1)
        &&& y % 2 == ((i >> 1) & 1)
        &&& (x / 2) % 2 == ((i >> 2) & 1)
        &&& (y / 2) % 2 == ((i >> 3) & 1)
        &&& (x / 4) % 2 == ((i >> 4) & 1)
        &&& (y / 4) % 2 == ((i >> 5) & 1)
        &&& (i & 1) == i % 2
        &&& ((i >> 1) & 1) == (i / 2) % 2
        &&& ((i >> 2) & 1) == (i / 4) % 2
        &&& ((i >> 3) & 1) == (i / 8) % 2
        &&& ((i >> 4) & 1) == (i / 16) % 2
        &&& ((i >> 5) & 1) == (i / 32) % 2
        &&& x < 8
        &&& y < 8
    }) by (bit_vector);
}

/// Number of tiles needed to cover `size` pixels along one axis.
pub open spec fn tiles_along(size: int) -> int {
    (size + 7) / 8
}

/// Image x coordinate of slot `slot` of a tile buffer whose rows hold
/// `tiles_x` tiles.
pub open spec fn slot_x(slot: int, tiles_x: int) -> int {
    ((slot / 64) % tiles_x) * 8 + morton_x(slot % 64)
}

/// Image y coordinate of slot `slot` of a tile buffer whose rows hold
/// `tiles_x` tiles.
pub open spec fn slot_y(slot: int, tiles_x: int) -> int {
    ((slot / 64) / tiles_x) * 8 + morton_y(slot % 64)
}

/// Slot of the tile buffer that holds image pixel `(x, y)`.
pub open spec fn pixel_slot(x: int, y: int, tiles_x: int) -> int {
    ((y / 8) * tiles_x + x / 8) * 64 + morton_index(x % 8, y % 8)
}

/// The slot that holds the pixel a slot stands for is that slot.
pub proof fn lemma_slot_position_round_trip(slot: int, tiles_x: int)
    requires
        0 <= slot,
        0 < tiles_x,
    ensures
        0 <= slot_x(slot, tiles_x) < tiles_x * 8,
        0 <= slot_y(slot, tiles_x),
        pixel_slot(slot_x(slot, tiles_x), slot_y(slot, tiles_x), tiles_x) == slot,
{
    let tile = slot / 64;
    let m = slot % 64;
    let tx = tile % tiles_x;
    let ty = tile / tiles_x;
    lemma_fundamental_div_mod(slot, 64);
    lemma_fundamental_div_mod(tile, tiles_x);
    lemma_morton_coordinates_in_tile(m);
    let x = slot_x(slot, tiles_x);
    let y = slot_y(slot, tiles_x);
    assert(0 <= tx < tiles_x);
    assert(0 <= ty);
    assert(x == tx * 8 + morton_x(m));
    lemma_fundamental_div_mod_converse(x, 8, tx, morton_x(m));
    lemma_fundamental_div_mod_converse(y, 8, ty, morton_y(m));
    assert(tx * 8 <= (tiles_x - 1) * 8) by (nonlinear_arith)
        requires
            tx <= tiles_x - 1,
    ;
    assert(0 <= ty * 8) by (nonlinear_arith)
        requires
            0 <= ty,
    ;
    assert(ty * tiles_x + tx == tile) by (nonlinear_arith)
        requires
            tile == tiles_x * ty + tx,
    ;
}

/// The pixel that the slot of a pixel stands for is that pixel.
pub proof fn lemma_pixel_slot_round_trip(x: int, y: int, tiles_x: int)
    requires
        0 <= x < tiles_x * 8,
        0 <= y,
    ensures
        0 <= pixel_slot(x, y, tiles_x),
        slot_x(pixel_slot(x, y, tiles_x), tiles_x) == x,
        slot_y(pixel_slot(x, y, tiles_x), tiles_x) == y,
{
    let slot = pixel_slot(x, y, tiles_x);
    let tile = (y / 8) * tiles_x + x / 8;
    let m = morton_index(x % 8, y % 8);
    lemma_fundamental_div_mod(x, 8);
    lemma_fundamental_div_mod(y, 8);
    lemma_morton_index_in_tile(x % 8, y % 8);
    assert(x / 8 < tiles_x) by (nonlinear_arith)
        requires
            0 <= x < tiles_x * 8,
            x == 8 * (x / 8) + x % 8,
            0 <= x % 8,
    ;
    assert(0 <= (y / 8) * tiles_x) by (nonlinear_arith)
        requires
            0 <= y / 8,
            0 < tiles_x,
    ;
    lemma_fundamental_div_mod_converse(slot, 64, tile, m);
    lemma_fundamental_div_mod_converse(tile, tiles_x, y / 8, x / 8);
}

/// A tile buffer of `tile_buffer_len` slots holds every pixel of its image:
/// the slot of each pixel lies inside the buffer.
pub proof fn lemma_tile_buffer_covers_image(x: int, y: int, width: int, height: int)
    requires
        0 <= x < width,
        0 <= y < height,
    ensures
        0 <= pixel_slot(x, y, tiles_along(width)) < tiles_along(width) * tiles_along(height) * 64,
{
    let tiles_x = tiles_along(width);
    let tiles_y = tiles_along(height);
    lemma_fundamental_div_mod(x, 8);
    lemma_fundamental_div_mod(y, 8);
    lemma_morton_index_in_tile(x % 8, y % 8);
    assert(x / 8 < tiles_x && y / 8 < tiles_y);
    assert(0 <= (y / 8) * tiles_x + x / 8 < tiles_x * tiles_y) by (nonlinear_arith)
        requires
            0 <= x / 8 < tiles_x,
            0 <= y / 8 < tiles_y,
    ;
    let tile = (y / 8) * tiles_x + x / 8;
    assert(tile * 64 + 64 <= tiles_x * tiles_y * 64) by (nonlinear_arith)
        requires
            tile < tiles_x * tiles_y,
    ;
}

/// Image pixels are stored as consecutive RGB byte triples, row after row.
pub open spec fn rgb_offset(x: int, y: int, width: int) -> int {
    (y * width + x) * 3
}

/// Distinct pixels of a row-major image occupy disjoint byte triples.
pub proof fn lemma_rgb_offsets_disjoint(x1: int, y1: int, c1: int, x2: int, y2: int, c2: int, width: int)
    requires
        0 <= x1 < width,
        0 <= x2 < width,
        0 <= y1,
        0 <= y2,
        0 <= c1 < 3,
        0 <= c2 < 3,
        rgb_offset(x1, y1, width) + c1 == rgb_offset(x2, y2, width) + c2,
    ensures
        x1 == x2,
        y1 == y2,
        c1 == c2,
{
    let p1 = y1 * width + x1;
    let p2 = y2 * width + x2;
    assert(p1 == p2 && c1 == c2);
    lemma_fundamental_div_mod_converse(p1, width, y1, x1);
    lemma_fundamental_div_mod_converse(p2, width, y2, x2);
}

/// A pixel inside a `width` x `height` image has its byte triple inside the
/// image's `width * height * 3` bytes.
pub proof fn lemma_rgb_offset_in_image(x: int, y: int, width: int, height: int)
    requires
        0 <= x < width,
        0 <= y < height,
    ensures
        0 <= rgb_offset(x, y, width),
        rgb_offset(x, y, width) + 3 <= width * height * 3,
{
    assert(0 <= y * width + x && y * width + x + 1 <= width * height) by (nonlinear_arith)
        requires
            0 <= x < width,
            0 <= y < height,
    ;
}


/// The red, green and blue bytes of one rendered pixel.
#[derive(Clone, Copy, Debug, PartialEq, Eq)]
pub struct PixelData {
    data: [u8; 3],
}

impl View for PixelData {
    type V = Seq<u8>;

    closed spec fn view(&self) -> Seq<u8> {
        self.data@
    }
}

impl Default for PixelData {
    /// A black pixel.
    fn default() -> (pixel: Self)
        ensures
            pixel@ == seq![0u8, 0u8, 0u8],
    {
        PixelData { data: [0, 0, 0] }
    }
}

impl PixelData {
    /// A pixel with the given channel bytes.
    pub fn new(red: u8, green: u8, blue: u8) -> (pixel: Self)
        ensures
            pixel@ == seq![red, green, blue],
    {
        PixelData { data: [red, green, blue] }
    }

    /// Copies the pixel's three bytes into `destination` at `offset`.
    pub fn write_rgb(&self, destination: &mut Vec<u8>, offset: usize)
        requires
            offset + 3 <= old(destination)@.len(),
        ensures
            final(destination)@.len() == old(destination)@.len(),
            forall|i: int|
                0 <= i < old(destination)@.len() ==> #[trigger] final(destination)@[i] == if offset
                    <= i < offset + 3 {
                    self@[i - offset]
                } else {
                    old(destination)@[i]
                },
    {
        let len = destination.len();
        let mut channel: usize = 0;
        while channel < 3
            invariant
                channel <= 3,
                offset + 3 <= len,
                len == old(destination)@.len(),
                destination@.len() == old(destination)@.len(),
                self.data@ == self@,
                forall|i: int|
                    0 <= i < old(destination)@.len() ==> #[trigger] destination@[i] == if offset
                        <= i < offset + channel {
                        self@[i - offset]
                    } else {
                        old(destination)@[i]
                    },
            decreases 3 - channel,
        {
            destination[offset + channel] = self.data[channel];
            channel = channel + 1;
        }
    }
}

/// Number of tiles needed to cover `size` pixels along one axis.
pub fn tiles_needed(size: u32) -> (tiles: usize)
    ensures
        tiles == tiles_along(size as int),
        tiles * 8 <= u32::MAX + 1,
{
    let size = size as usize;
    let tiles = if size % TILE_SIZE == 0 {
        size / TILE_SIZE
    } else {
        size / TILE_SIZE + 1
    };
    assert(tiles == (size + 7) / 8 && tiles * 8 <= u32::MAX + 1) by (nonlinear_arith)
        requires
            size <= u32::MAX,
            tiles == if size % 8 == 0 {
                size as int / 8
            } else {
                size / 8 + 1
            },
    ;
    tiles
}

/// Length of the tile buffer that covers a `width` x `height` image, or
/// `None` where it does not fit in `usize`.
pub fn tile_buffer_len(width: u32, height: u32) -> (len: Option<usize>)
    ensures
        len == (if tiles_along(width as int) * tiles_along(height as int) * 64 <= usize::MAX {
            Some((tiles_along(width as int) * tiles_along(height as int) * 64) as usize)
        } else {
            None::<usize>
        }),
{
    let tiles_x = tiles_needed(width);
    let tiles_y = tiles_needed(height);
    match tiles_x.checked_mul(tiles_y) {
        Some(tiles) => tiles.checked_mul(PIXELS_PER_TILE),
        None => {
            assert(tiles_x * tiles_y * 64 > usize::MAX) by (nonlinear_arith)
                requires
                    tiles_x * tiles_y > usize::MAX,
            ;
            None
        },
    }
}

/// Image coordinates of slot `slot` of a tile buffer whose rows hold
/// `tiles_x` tiles.
pub fn slot_position(slot: usize, tiles_x: usize) -> (position: (usize, usize))
    requires
        0 < tiles_x,
        tiles_x * 8 <= usize::MAX + 1,
    ensures
        position.0 == slot_x(slot as int, tiles_x as int),
        position.1 == slot_y(slot as int, tiles_x as int),
{
    let tile_index = slot / PIXELS_PER_TILE;
    let morton_index = slot % PIXELS_PER_TILE;
    let tile_x = tile_index % tiles_x;
    let tile_y = tile_index / tiles_x;
    let (local_x, local_y) = morton_coordinates(morton_index);
    proof {
        lemma_morton_coordinates_in_tile(morton_index as int);
        assert(tile_x * 8 + local_x < tiles_x * 8) by (nonlinear_arith)
            requires
                tile_x < tiles_x,
                local_x < 8,
        ;
        assert(tile_y <= slot / 64) by (nonlinear_arith)
            requires
                tile_y == (slot / 64) / tiles_x,
                tiles_x >= 1,
        ;
        assert(tile_y * 8 <= slot / 8) by (nonlinear_arith)
            requires
                tile_y <= slot / 64,
        ;
    }
    (tile_x * TILE_SIZE + local_x, tile_y * TILE_SIZE + local_y)
}

/// Image coordinates of slot `slot` of a tile buffer whose rows hold
/// `tiles_x` tiles, where that pixel lies inside a `width` x `height` image;
/// `None` for the slots of partial tiles that fall outside it.
pub fn pixel_in_image(slot: usize, tiles_x: usize, width: usize, height: usize) -> (pixel: Option<(usize, usize)>)
    requires
        0 < tiles_x,
        tiles_x * 8 <= usize::MAX + 1,
    ensures
        pixel == (if slot_x(slot as int, tiles_x as int) < width && slot_y(slot as int, tiles_x as int)
            < height {
            Some((slot_x(slot as int, tiles_x as int) as usize, slot_y(slot as int, tiles_x as int) as usize))
        } else {
            None::<(usize, usize)>
        }),
{
    let (x, y) = slot_position(slot, tiles_x);
    if x < width && y < height {
        Some((x, y))
    } else {
        None
    }
}

/// Byte `c` of pixel `(x, y)` of a row-major RGB image `width` pixels wide.
pub open spec fn rgb_byte(image: Seq<u8>, width: int, x: int, y: int, c: int) -> u8 {
    image[rgb_offset(x, y, width) + c]
}

/// Byte `c` that pixel `(x, y)` takes from a tile buffer for an image `width`
/// pixels wide: the byte of the slot that holds the pixel, or zero where the
/// buffer is too short to hold it.
pub open spec fn unshuffled_byte(tile_pixels: Seq<PixelData>, width: int, x: int, y: int, c: int) -> u8 {
    let slot = pixel_slot(x, y, tiles_along(width));
    if slot < tile_pixels.len() {
        tile_pixels[slot]@[c]
    } else {
        0
    }
}

/// The row-major RGB image, `width * height * 3` bytes, that a tile buffer
/// unshuffles into.
pub open spec fn row_major_image(tile_pixels: Seq<PixelData>, width: int, height: int) -> Seq<u8> {
    Seq::new(
        (width * height * 3) as nat,
        |i: int| unshuffled_byte(tile_pixels, width, (i / 3) % width, (i / 3) / width, i % 3),
    )
}

/// Unshuffles a buffer of Z-ordered 8x8 tiles into a row-major RGB image.
pub fn row_major_pixels(width: u32, height: u32, tile_pixels: &[PixelData]) -> (image_pixels: Vec<u8>)
    requires
        width * height * 3 <= usize::MAX,
        tile_pixels@.len() > 0 ==> width > 0,
    ensures
        image_pixels@.len() == width * height * 3,
        forall|x: int, y: int, c: int|
            0 <= x < width && 0 <= y < height && 0 <= c < 3 ==> #[trigger] rgb_byte(
                image_pixels@,
                width as int,
                x,
                y,
                c,
            ) == unshuffled_byte(tile_pixels@, width as int, x, y, c),
        image_pixels@ == row_major_image(tile_pixels@, width as int, height as int),
{
    let width_usize = width as usize;
    let height_usize = height as usize;
    let tiles_x = tiles_needed(width);
    proof {
        assert(width_usize * height_usize * 3 <= usize::MAX);
        assert(0 <= width_usize * height_usize) by (nonlinear_arith);
    }
    let mut image_pixels: Vec<u8> = vec![0; width_usize * height_usize * 3];
    let ghost w = width as int;
    let ghost h = height as int;
    let ghost tiles = tile_pixels@;
    assert forall|x: int, y: int, c: int|
        0 <= x < w && 0 <= y < h && 0 <= c < 3 implies #[trigger] rgb_byte(image_pixels@, w, x, y, c)
        == 0 by {
        lemma_rgb_offset_in_image(x, y, w, h);
    }
    let mut slot: usize = 0;
    while slot < tile_pixels.len()
        invariant
            slot <= tile_pixels@.len(),
            tiles == tile_pixels@,
            w == width_usize,
            h == height_usize,
            w * h * 3 <= usize::MAX,
            tiles.len() > 0 ==> w > 0,
            tiles_x == tiles_along(w),
            tiles_x * 8 <= u32::MAX + 1,
            image_pixels@.len() == w * h * 3,
            forall|x: int, y: int, c: int|
                0 <= x < w && 0 <= y < h && 0 <= c < 3 ==> #[trigger] rgb_byte(
                    image_pixels@,
                    w,
                    x,
                    y,
                    c,
                ) == if pixel_slot(x, y, tiles_x as int) < slot {
                    tiles[pixel_slot(x, y, tiles_x as int)]@[c]
                } else {
                    0
                },
        decreases tile_pixels@.len() - slot,
    {
        assert(tiles_x > 0);
        let (x, y) = slot_position(slot, tiles_x);
        proof {
            lemma_slot_position_round_trip(slot as int, tiles_x as int);
        }
        let ghost before = image_pixels@;
        if x < width_usize && y < height_usize {
            proof {
                lemma_rgb_offset_in_image(x as int, y as int, w, h);
            }
            let offset = (y * width_usize + x) * 3;
            tile_pixels[slot].write_rgb(&mut image_pixels, offset);
            proof {
                assert forall|px: int, py: int, c: int|
                    0 <= px < w && 0 <= py < h && 0 <= c < 3 implies #[trigger] rgb_byte(
                    image_pixels@,
                    w,
                    px,
                    py,
                    c,
                ) == if pixel_slot(px, py, tiles_x as int) < slot + 1 {
                    tiles[pixel_slot(px, py, tiles_x as int)]@[c]
                } else {
                    0
                } by {
                    lemma_rgb_offset_in_image(px, py, w, h);
                    let i = rgb_offset(px, py, w) + c;
                    if px == x && py == y {
                        assert(i - offset == c);
                    } else {
                        if offset <= i < offset + 3 {
                            lemma_rgb_offsets_disjoint(px, py, c, x as int, y as int, i - offset, w);
                        }
                        assert(image_pixels@[i] == before[i]);
                        assert(rgb_byte(before, w, px, py, c) == before[i]);
                        lemma_pixel_slot_round_trip(px, py, tiles_x as int);
                    }
                }
            }
        } else {
            proof {
                assert forall|px: int, py: int, c: int|
                    0 <= px < w && 0 <= py < h && 0 <= c < 3 implies #[trigger] rgb_byte(
                    image_pixels@,
                    w,
                    px,
                    py,
                    c,
                ) == if pixel_slot(px, py, tiles_x as int) < slot + 1 {
                    tiles[pixel_slot(px, py, tiles_x as int)]@[c]
                } else {
                    0
                } by {
                    lemma_pixel_slot_round_trip(px, py, tiles_x as int);
                }
            }
        }
        slot = slot + 1;
    }
    proof {
        let expected = row_major_image(tiles, w, h);
        assert forall|i: int| 0 <= i < w * h * 3 implies image_pixels@[i] == expected[i] by {
            let p = i / 3;
            let c = i % 3;
            let x = p % w;
            let y = p / w;
            lemma_fundamental_div_mod(i, 3);
            assert(w > 0) by (nonlinear_arith)
                requires
                    0 <= i < w * h * 3,
                    0 <= h,
            ;
            lemma_fundamental_div_mod(p, w);
            assert(y < h) by (nonlinear_arith)
                requires
                    0 <= p,
                    p * 3 + c == i,
                    0 <= c,
                    i < w * h * 3,
                    p == w * y + x,
                    0 <= x,
                    w > 0,
            ;
            assert(i == rgb_offset(x, y, w) + c);
            assert(rgb_byte(image_pixels@, w, x, y, c) == image_pixels@[i]);
        }
        assert(image_pixels@ =~= expected);
    }
    image_pixels
}

} // verus!
