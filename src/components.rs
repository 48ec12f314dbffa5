//! Plain component values. Lengths, coordinates and velocities are fixed-point
//! integers: `UNIT` steps make one whole pixel (or one pixel per second).
use vstd::prelude::*;
use vstd::arithmetic::power2::pow2;

verus! {

/// An entity is a bare identifier: a key into the component tables.
pub type Entity = u32;

/// Number of fixed-point steps in one whole unit.
pub const UNIT: i32 = 1000;

/// Where an entity stands, in thousandths of a pixel.
#[derive(Debug, Clone, Copy, PartialEq, Eq, Structural)]
pub struct Position {
    pub x: i32,
    pub y: i32,
}

impl Position {
    /// A position at `(x, y)`.
    pub fn new(x: i32, y: i32) -> (r: Self)
        ensures
            r.x == x,
            r.y == y,
    {
        Position { x, y }
    }

    /// The coordinates as a pair.
    pub fn as_tuple(&self) -> (r: (i32, i32))
        ensures
            r == (self.x, self.y),
    {
        (self.x, self.y)
    }
}


/// How fast an entity moves, in thousandths of a pixel per second.
#[derive(Debug, Clone, Copy, PartialEq, Eq, Structural)]
pub struct Velocity {
    pub x: i32,
    pub y: i32,
}

impl Velocity {
    /// A velocity of `(x, y)`.
    pub fn new(x: i32, y: i32) -> (r: Self)
        ensures
            r.x == x,
            r.y == y,
    {
        Velocity { x, y }
    }

    /// The velocity that does not move.
    pub fn zero() -> (r: Self)
        ensures
            r.x == 0,
            r.y == 0,
    {
        Velocity { x: 0, y: 0 }
    }

    /// The components as a pair.
    pub fn as_tuple(&self) -> (r: (i32, i32))
        ensures
            r == (self.x, self.y),
    {
        (self.x, self.y)
    }
}

/// A solid square of one colour (`0xAARRGGBB`), `size` pixels on a side.
#[derive(Debug, Clone, Copy, PartialEq, Eq, Structural)]
pub struct Sprite {
    pub color: u32,
    pub size: usize,
}

pub const RED: u32 = 0xFFFF0000;
pub const GREEN: u32 = 0xFF00FF00;
pub const BLUE: u32 = 0xFF0000FF;
pub const WHITE: u32 = 0xFFFFFFFF;
pub const YELLOW: u32 = 0xFFFFFF00;
pub const OPAQUE_BLACK: u32 = 0xFF000000;

/// The byte of `color` that starts `shift` bits up.
pub open spec fn channel(color: u32, shift: nat) -> u8 {
    ((color as nat / pow2(shift)) % 256) as u8
}

impl Sprite {
    pub fn new(color: u32, size: usize) -> (r: Self)
        ensures
            r.color == color,
            r.size == size,
    {
        Sprite { color, size }
    }

    pub fn red(size: usize) -> (r: Self)
        ensures
            r == Sprite::new_spec(RED, size),
    {
        Self::new(RED, size)
    }

    pub fn green(size: usize) -> (r: Self)
        ensures
            r == Sprite::new_spec(GREEN, size),
    {
        Self::new(GREEN, size)
    }

    pub fn blue(size: usize) -> (r: Self)
        ensures
            r == Sprite::new_spec(BLUE, size),
    {
        Self::new(BLUE, size)
    }

    pub fn white(size: usize) -> (r: Self)
        ensures
            r == Sprite::new_spec(WHITE, size),
    {
        Self::new(WHITE, size)
    }

    pub fn yellow(size: usize) -> (r: Self)
        ensures
            r == Sprite::new_spec(YELLOW, size),
    {
        Self::new(YELLOW, size)
    }

    pub open spec fn new_spec(color: u32, size: usize) -> Sprite {
        Sprite { color, size }
    }

    /// The alpha, red, green and blue bytes of the colour.
    pub fn get_argb(&self) -> (r: (u8, u8, u8, u8))
        ensures
            r == (channel(self.color, 24), channel(self.color, 16), channel(self.color, 8),
                channel(self.color, 0)),
    {
        let c = self.color;
        let a = ((c >> 24u32) & 0xFFu32) as u8;
        let r = ((c >> 16u32) & 0xFFu32) as u8;
        let g = ((c >> 8u32) & 0xFFu32) as u8;
        let b = (c & 0xFFu32) as u8;
        proof {
            lemma_channel(c);
        }
        (a, r, g, b)
    }
}

proof fn lemma_channel(c: u32)
    ensures
        ((c >> 24u32) & 0xFFu32) as u8 == channel(c, 24),
        ((c >> 16u32) & 0xFFu32) as u8 == channel(c, 16),
        ((c >> 8u32) & 0xFFu32) as u8 == channel(c, 8),
        (c & 0xFFu32) as u8 == channel(c, 0),
{
    vstd::arithmetic::power2::lemma2_to64();
    assert((c >> 24u32) == c / 0x1000000u32) by (bit_vector);
    assert((c >> 16u32) == c / 0x10000u32) by (bit_vector);
    assert((c >> 8u32) == c / 0x100u32) by (bit_vector);
    assert(((c >> 24u32) & 0xFFu32) == (c >> 24u32) % 256) by (bit_vector);
    assert(((c >> 16u32) & 0xFFu32) == (c >> 16u32) % 256) by (bit_vector);
    assert(((c >> 8u32) & 0xFFu32) == (c >> 8u32) % 256) by (bit_vector);
    assert((c & 0xFFu32) == c % 256) by (bit_vector);
}

/// A sprite drawn from a named region of the world's atlas, at `scale`
/// thousandths of the region's size.
#[derive(Debug, Clone, PartialEq, Eq)]
pub struct TextureSprite {
    pub atlas_name: String,
    pub scale: u32,
}

/// `v * scale / UNIT`, rounded down and held at `usize::MAX`.
pub open spec fn scaled(v: usize, scale: u32) -> usize {
    let s = (v as nat * scale as nat) / (UNIT as nat);
    if s <= usize::MAX {
        s as usize
    } else {
        usize::MAX
    }
}

impl TextureSprite {
    pub fn new(atlas_name: String, scale: u32) -> (r: Self)
        ensures
            r.atlas_name@ == atlas_name@,
            r.scale == scale,
    {
        TextureSprite { atlas_name, scale }
    }

    /// A sprite for the region `atlas_name` at its own size.
    pub fn with_name(atlas_name: &str) -> (r: Self)
        ensures
            r.atlas_name@ == atlas_name@,
            r.scale == UNIT,
    {
        Self::new(atlas_name.to_owned(), UNIT as u32)
    }

    /// A sprite for the region `atlas_name` at `scale` thousandths.
    pub fn with_scale(atlas_name: &str, scale: u32) -> (r: Self)
        ensures
            r.atlas_name@ == atlas_name@,
            r.scale == scale,
    {
        Self::new(atlas_name.to_owned(), scale)
    }

    /// The size of a region of `region_width` by `region_height` once scaled.
    pub fn get_scaled_size(&self, region_width: usize, region_height: usize) -> (r: (
        usize,
        usize,
    ))
        ensures
            r == (scaled(region_width, self.scale), scaled(region_height, self.scale)),
    {
        (scale_length(region_width, self.scale), scale_length(region_height, self.scale))
    }
}

/// `v * scale / UNIT`, rounded down and held at `usize::MAX`.
pub fn scale_length(v: usize, scale: u32) -> (r: usize)
    ensures
        r == scaled(v, scale),
{
    assert((v as nat) * (scale as nat) <= (usize::MAX as nat) * (u32::MAX as nat)) by (nonlinear_arith)
        requires
            v <= usize::MAX,
            scale <= u32::MAX,
    ;
    let p: u128 = (v as u128) * (scale as u128);
    let s: u128 = p / (UNIT as u128);
    if s <= usize::MAX as u128 {
        s as usize
    } else {
        usize::MAX
    }
}

} // verus!
