//! Building textures and atlases: the built-in sample atlas, the standard
//! region layout, and textures from decoded RGBA bytes.
use vstd::prelude::*;
use crate::components::{BLUE, GREEN, OPAQUE_BLACK, RED, YELLOW};
use crate::texture::{AtlasSprite, SpriteAtlas, Texture};

verus! {

/// Builds textures and atlases.
pub struct AssetsLoader;

/// Side of one region of the standard layout, in pixels.
pub const CELL: usize = 32;

/// Side of the sample atlas texture, in pixels.
pub const SAMPLE_SIDE: usize = 128;

/// The standard layout: four `CELL`-sized regions along the top row.
pub open spec fn standard_layout() -> Map<Seq<char>, AtlasSprite> {
    Map::empty().insert("player"@, AtlasSprite { x: 0, y: 0, width: 32, height: 32 }).insert(
        "enemy1"@,
        AtlasSprite { x: 32, y: 0, width: 32, height: 32 },
    ).insert("enemy2"@, AtlasSprite { x: 64, y: 0, width: 32, height: 32 }).insert(
        "powerup"@,
        AtlasSprite { x: 96, y: 0, width: 32, height: 32 },
    )
}

/// The colour of the sample atlas at `(x, y)`: red, green, blue and yellow
/// squares along the top row, opaque black elsewhere.
pub open spec fn sample_color(x: nat, y: nat) -> u32 {
    if y >= 32 || x >= 128 {
        OPAQUE_BLACK
    } else if x < 32 {
        RED
    } else if x < 64 {
        GREEN
    } else if x < 96 {
        BLUE
    } else {
        YELLOW
    }
}

/// A pixel `0xAARRGGBB` from its four bytes.
pub open spec fn argb(r: u8, g: u8, b: u8, a: u8) -> u32 {
    (a as nat * 0x1000000 + r as nat * 0x10000 + g as nat * 0x100 + b as nat) as u32
}

/// The pixels that RGBA bytes `bytes` encode, four bytes to a pixel.
pub open spec fn argb_pixels(bytes: Seq<u8>) -> Seq<u32> {
    Seq::new(
        bytes.len() / 4,
        |i: int| argb(bytes[4 * i], bytes[4 * i + 1], bytes[4 * i + 2], bytes[4 * i + 3]),
    )
}

/// Packs four bytes into one `0xAARRGGBB` pixel.
pub fn pack_argb(r: u8, g: u8, b: u8, a: u8) -> (p: u32)
    ensures
        p == argb(r, g, b, a),
{
    let p = ((a as u32) << 24u32) | ((r as u32) << 16u32) | ((g as u32) << 8u32) | (b as u32);
    proof {
        let (a32, r32, g32, b32) = (a as u32, r as u32, g as u32, b as u32);
        assert(a32 < 256 && r32 < 256 && g32 < 256 && b32 < 256);
        assert((a32 << 24u32) | (r32 << 16u32) | (g32 << 8u32) | b32 == a32 * 0x1000000 + r32
            * 0x10000 + g32 * 0x100 + b32) by (bit_vector)
            requires
                a32 < 256 && r32 < 256 && g32 < 256 && b32 < 256,
        ;
    }
    p
}

impl AssetsLoader {
    /// A 128 by 128 atlas with four coloured 32-pixel squares along the top
    /// (red, green, blue, yellow) on black, laid out as `standard_layout`.
    pub fn create_sample_atlas() -> (atlas: SpriteAtlas)
        ensures
            atlas.wf(),
            atlas.regions() == standard_layout(),
            atlas.spec_texture().spec_width() == SAMPLE_SIDE,
            atlas.spec_texture().spec_height() == SAMPLE_SIDE,
            forall|x: nat, y: nat|
                x < SAMPLE_SIDE && y < SAMPLE_SIDE ==> #[trigger] atlas.spec_texture().pixel(x, y)
                    == sample_color(x, y),
    {
        let side = SAMPLE_SIDE;
        let total = side * side;
        let mut data: Vec<u32> = Vec::new();
        let mut i: usize = 0;
        while i < total
            invariant
                total == SAMPLE_SIDE * SAMPLE_SIDE,
                side == SAMPLE_SIDE,
                i <= total,
                data@.len() == i,
                forall|j: int|
                    0 <= j < i ==> #[trigger] data@[j] == sample_color(
                        (j % 128) as nat,
                        (j / 128) as nat,
                    ),
            decreases total - i,
        {
            let x = i % side;
            let y = i / side;
            let c = if y >= 32 {
                OPAQUE_BLACK
            } else if x < 32 {
                RED
            } else if x < 64 {
                GREEN
            } else if x < 96 {
                BLUE
            } else {
                YELLOW
            };
            data.push(c);
            i = i + 1;
        }
        let texture = Texture::new(side, side, data);
        proof {
            assert forall|x: nat, y: nat|
                x < SAMPLE_SIDE && y < SAMPLE_SIDE implies #[trigger] texture.pixel(x, y)
                    == sample_color(x, y) by {
                let j = (y * 128 + x) as int;
                assert(j % 128 == x && j / 128 == y) by (nonlinear_arith)
                    requires
                        x < 128,
                        j == y * 128 + x,
                ;
                assert(0 <= j < 128 * 128) by (nonlinear_arith)
                    requires
                        x < 128,
                        y < 128,
                        j == y * 128 + x,
                ;
            }
        }
        Self::load_atlas(texture)
    }

    /// An atlas over `texture` with the standard region layout.
    pub fn load_atlas(texture: Texture) -> (atlas: SpriteAtlas)
        requires
            texture.wf(),
        ensures
            atlas.wf(),
            atlas.spec_texture() == texture,
            atlas.regions() == standard_layout(),
    {
        let mut atlas = SpriteAtlas::new(texture);
        atlas.add_sprite("player".to_owned(), 0, 0, CELL, CELL);
        atlas.add_sprite("enemy1".to_owned(), 32, 0, CELL, CELL);
        atlas.add_sprite("enemy2".to_owned(), 64, 0, CELL, CELL);
        atlas.add_sprite("powerup".to_owned(), 96, 0, CELL, CELL);
        atlas
    }

    /// The texture that RGBA bytes encode, `width` by `height` pixels, each
    /// pixel turned into `0xAARRGGBB`; `None` unless there are exactly four
    /// bytes for each pixel.
    pub fn texture_from_rgba(width: usize, height: usize, rgba: &Vec<u8>) -> (r: Option<Texture>)
        ensures
            r is Some <==> rgba@.len() == 4 * (width * height),
            r matches Some(t) ==> t.wf() && t.spec_width() == width && t.spec_height() == height
                && t.pixels() == argb_pixels(rgba@),
    {
        let n = rgba.len();
        let cells = match width.checked_mul(height) {
            Some(c) => c,
            None => {
                return None;
            },
        };
        let bytes = match cells.checked_mul(4) {
            Some(b) => b,
            None => {
                return None;
            },
        };
        if bytes != n {
            return None;
        }
        let count = n / 4;
        let mut data: Vec<u32> = Vec::new();
        let mut i: usize = 0;
        while i < count
            invariant
                count == n / 4,
                n == rgba@.len(),
                i <= count,
                data@.len() == i,
                forall|j: int| 0 <= j < i ==> #[trigger] data@[j] == argb_pixels(rgba@)[j],
            decreases count - i,
        {
            let k = 4 * i;
            data.push(pack_argb(rgba[k], rgba[k + 1], rgba[k + 2], rgba[k + 3]));
            i = i + 1;
        }
        assert(data@ =~= argb_pixels(rgba@));
        Some(Texture::new(width, height, data))
    }
}

} // verus!
