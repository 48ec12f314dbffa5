//! Drawing the world into a frame buffer of `0xAARRGGBB` pixels, row by row.
use vstd::prelude::*;
use crate::components::{Entity, Position, Sprite, TextureSprite, OPAQUE_BLACK, RED, UNIT};
use crate::query::{lists_table, PositionQuery};
use crate::scheduler::System;
use crate::texture::{AtlasSprite, Texture};
use crate::world::World;

verus! {

/// Frame width, in pixels.
pub const WIDTH: usize = 800;

/// Frame height, in pixels.
pub const HEIGHT: usize = 600;

/// Side of the square drawn for an entity without a sprite.
pub const DEFAULT_SQUARE: usize = 20;

pub open spec fn col(i: int) -> int {
    i % (WIDTH as int)
}

pub open spec fn row(i: int) -> int {
    i / (WIDTH as int)
}

/// The pixel column of fixed-point coordinate `v`, negative ones at 0.
pub open spec fn pixel_floor(v: i32) -> int {
    if v < 0 {
        0
    } else {
        (v as int) / (UNIT as int)
    }
}

/// The pixel column of fixed-point coordinate `v`, rounded toward zero.
pub open spec fn pixel_trunc(v: i32) -> int {
    if v < 0 {
        -((-(v as int)) / (UNIT as int))
    } else {
        (v as int) / (UNIT as int)
    }
}

/// `buf` with the square of side `size` at `(left, top)` painted `color`.
pub open spec fn square(buf: Seq<u32>, left: int, top: int, size: int, color: u32) -> Seq<u32> {
    Seq::new(
        buf.len(),
        |i: int|
            if left <= col(i) < left + size && top <= row(i) < top + size {
                color
            } else {
                buf[i]
            },
    )
}

/// `color` with its alpha byte set to opaque.
pub open spec fn opaque(color: u32) -> u32 {
    (color % 0x1000000 + 0xFF000000) as u32
}

/// The pixel that a scaled region draws at offset `(dx, dy)` from its
/// top-left corner: the texture pixel under it, unscaled.
pub open spec fn region_pixel(tex: Texture, region: AtlasSprite, scale: u32, dx: int, dy: int) -> u32 {
    let ax = region.x + dx * (UNIT as int) / (scale as int);
    let ay = region.y + dy * (UNIT as int) / (scale as int);
    tex.pixel(ax as nat, ay as nat)
}

/// `buf` with `region` of `tex`, scaled by `scale` thousandths, drawn with
/// its top-left corner at `(left, top)`; transparent pixels (alpha 0) leave
/// the frame as it was.
pub open spec fn textured(
    buf: Seq<u32>,
    left: int,
    top: int,
    tex: Texture,
    region: AtlasSprite,
    scale: u32,
) -> Seq<u32> {
    let w = scaled_extent(region.width, scale);
    let h = scaled_extent(region.height, scale);
    Seq::new(
        buf.len(),
        |i: int|
            {
                let dx = col(i) - left;
                let dy = row(i) - top;
                if 0 <= dx < w && 0 <= dy < h && region_pixel(tex, region, scale, dx, dy)
                    / 0x1000000 > 0 {
                    region_pixel(tex, region, scale, dx, dy)
                } else {
                    buf[i]
                }
            },
    )
}

/// `v` scaled by `scale` thousandths, rounded down, held at `i32::MAX`.
pub open spec fn scaled_extent(v: usize, scale: u32) -> int {
    let s = (v as int) * (scale as int) / (UNIT as int);
    if s > i32::MAX {
        i32::MAX as int
    } else {
        s
    }
}

/// The frame after drawing entity `e` at `p` onto `buf`: its texture sprite
/// if it has one (drawn only when the atlas has the region), else its
/// sprite, else a red default square.
pub open spec fn draw_entity(buf: Seq<u32>, world: World, e: Entity, p: Position) -> Seq<u32> {
    if world.texture_sprites().contains_key(e) {
        let ts = world.texture_sprites()[e];
        match world.atlas() {
            Some(atlas) => if atlas.regions().contains_key(ts.atlas_name@) {
                textured(
                    buf,
                    pixel_trunc(p.x),
                    pixel_trunc(p.y),
                    atlas.spec_texture(),
                    atlas.regions()[ts.atlas_name@],
                    ts.scale,
                )
            } else {
                buf
            },
            None => buf,
        }
    } else if world.sprites().contains_key(e) {
        let s = world.sprites()[e];
        square(buf, pixel_floor(p.x), pixel_floor(p.y), s.size as int, opaque(s.color))
    } else {
        square(buf, pixel_floor(p.x), pixel_floor(p.y), DEFAULT_SQUARE as int, RED)
    }
}

/// `buf` after drawing each of `rows`, in order.
pub open spec fn draw_all(buf: Seq<u32>, world: World, rows: Seq<(Entity, Position)>) -> Seq<u32>
    decreases rows.len(),
{
    if rows.len() == 0 {
        buf
    } else {
        let (e, p) = rows.last();
        draw_entity(draw_all(buf, world, rows.drop_last()), world, e, p)
    }
}

/// Draws frames of the world.
pub struct RenderSystem;

fn to_pixel_floor(v: i32) -> (r: usize)
    ensures
        r == pixel_floor(v),
{
    if v < 0 {
        0
    } else {
        (v / UNIT) as usize
    }
}

fn to_pixel_trunc(v: i32) -> (r: i64)
    ensures
        r == pixel_trunc(v),
{
    if v < 0 {
        let m: i64 = -(v as i64);
        -(m / (UNIT as i64))
    } else {
        (v / UNIT) as i64
    }
}

proof fn lemma_cell(x: int, y: int)
    requires
        0 <= x < WIDTH,
        0 <= y,
    ensures
        col(y * WIDTH + x) == x,
        row(y * WIDTH + x) == y,
{
    vstd::arithmetic::div_mod::lemma_fundamental_div_mod_converse(
        y * WIDTH + x,
        WIDTH as int,
        y,
        x,
    );
}

proof fn lemma_cell_unique(i: int)
    requires
        0 <= i,
    ensures
        i == row(i) * WIDTH + col(i),
        0 <= col(i) < WIDTH,
        0 <= row(i),
{
    vstd::arithmetic::div_mod::lemma_fundamental_div_mod(i, WIDTH as int);
}

/// Paints every pixel of the frame whose column lies in `[x0, x1)` and row in
/// `[y0, y1)` with `color`.
fn fill_rect(buffer: &mut Vec<u32>, x0: usize, x1: usize, y0: usize, y1: usize, color: u32)
    requires
        old(buffer)@.len() == WIDTH * HEIGHT,
        x1 <= WIDTH,
        y1 <= HEIGHT,
    ensures
        final(buffer)@.len() == WIDTH * HEIGHT,
        forall|i: int|
            0 <= i < WIDTH * HEIGHT ==> #[trigger] final(buffer)@[i] == if x0 <= col(i) < x1 && y0
                <= row(i) < y1 {
                color
            } else {
                old(buffer)@[i]
            },
{
    let mut y = y0;
    while y < y1
        invariant
            buffer@.len() == WIDTH * HEIGHT,
            x1 <= WIDTH,
            y1 <= HEIGHT,
            y0 <= y,
            y <= y1 || y == y0,
            forall|i: int|
                0 <= i < WIDTH * HEIGHT ==> #[trigger] buffer@[i] == if x0 <= col(i) < x1 && y0
                    <= row(i) < y {
                    color
                } else {
                    old(buffer)@[i]
                },
        decreases y1 - y,
    {
        let mut x = x0;
        while x < x1
            invariant
                buffer@.len() == WIDTH * HEIGHT,
                x1 <= WIDTH,
                y < y1 <= HEIGHT,
                y0 <= y,
                x0 <= x,
                x <= x1 || x == x0,
                forall|i: int|
                    0 <= i < WIDTH * HEIGHT ==> #[trigger] buffer@[i] == if (x0 <= col(i) < x1 && y0
                        <= row(i) < y) || (row(i) == y && x0 <= col(i) < x) {
                        color
                    } else {
                        old(buffer)@[i]
                    },
            decreases x1 - x,
        {
            let k = y * WIDTH + x;
            proof {
                lemma_cell(x as int, y as int);
                assert(k < WIDTH * HEIGHT) by (nonlinear_arith)
                    requires
                        k == y * WIDTH + x,
                        x < WIDTH,
                        y < HEIGHT,
                ;
            }
            let ghost before = buffer@;
            buffer.set(k, color);
            proof {
                assert forall|i: int|
                    0 <= i < WIDTH * HEIGHT implies #[trigger] buffer@[i] == if (x0 <= col(i) < x1
                        && y0 <= row(i) < y) || (row(i) == y && x0 <= col(i) < x + 1) {
                        color
                    } else {
                        old(buffer)@[i]
                    } by {
                    if i != k {
                        lemma_cell_unique(i);
                        assert(before[i] == buffer@[i]);
                    }
                }
            }
            x = x + 1;
        }
        y = y + 1;
    }
}

/// The frame pixel `i` after drawing the region there: the region's pixel
/// unless it is transparent.
pub open spec fn blit_value(
    old_px: u32,
    i: int,
    left: int,
    top: int,
    tex: Texture,
    region: AtlasSprite,
    scale: u32,
) -> u32 {
    let p = region_pixel(tex, region, scale, col(i) - left, row(i) - top);
    if p / 0x1000000 > 0 {
        p
    } else {
        old_px
    }
}

fn region_pixel_at(tex: &Texture, region: &AtlasSprite, scale: u32, dx: usize, dy: usize) -> (r:
    u32)
    requires
        tex.wf(),
        scale > 0,
        dx <= u32::MAX,
        dy <= u32::MAX,
    ensures
        r == region_pixel(*tex, *region, scale, dx as int, dy as int),
{
    let (w, h) = tex.dimensions();
    let ax: u128 = region.x as u128 + (dx as u128) * (UNIT as u128) / (scale as u128);
    let ay: u128 = region.y as u128 + (dy as u128) * (UNIT as u128) / (scale as u128);
    if ax < w as u128 && ay < h as u128 {
        tex.get_pixel(ax as usize, ay as usize)
    } else {
        0
    }
}

/// Draws the part of a region that falls on frame columns `[x0, x1)` and
/// rows `[y0, y1)`, the region's top-left corner standing at `(left, top)`.
fn blit_rect(
    buffer: &mut Vec<u32>,
    x0: usize,
    x1: usize,
    y0: usize,
    y1: usize,
    left: i64,
    top: i64,
    tex: &Texture,
    region: &AtlasSprite,
    scale: u32,
)
    requires
        old(buffer)@.len() == WIDTH * HEIGHT,
        tex.wf(),
        scale > 0,
        x1 <= WIDTH,
        y1 <= HEIGHT,
        left <= x0,
        top <= y0,
        x1 - left <= u32::MAX,
        y1 - top <= u32::MAX,
    ensures
        final(buffer)@.len() == WIDTH * HEIGHT,
        forall|i: int|
            0 <= i < WIDTH * HEIGHT ==> #[trigger] final(buffer)@[i] == if x0 <= col(i) < x1 && y0
                <= row(i) < y1 {
                blit_value(old(buffer)@[i], i, left as int, top as int, *tex, *region, scale)
            } else {
                old(buffer)@[i]
            },
{
    let mut y = y0;
    while y < y1
        invariant
            buffer@.len() == WIDTH * HEIGHT,
            tex.wf(),
            scale > 0,
            x1 <= WIDTH,
            y1 <= HEIGHT,
            left <= x0,
            top <= y0,
            x1 - left <= u32::MAX,
            y1 - top <= u32::MAX,
            y0 <= y,
            y <= y1 || y == y0,
            forall|i: int|
                0 <= i < WIDTH * HEIGHT ==> #[trigger] buffer@[i] == if x0 <= col(i) < x1 && y0
                    <= row(i) < y {
                    blit_value(old(buffer)@[i], i, left as int, top as int, *tex, *region, scale)
                } else {
                    old(buffer)@[i]
                },
        decreases y1 - y,
    {
        let mut x = x0;
        while x < x1
            invariant
                buffer@.len() == WIDTH * HEIGHT,
                tex.wf(),
                scale > 0,
                x1 <= WIDTH,
                y < y1 <= HEIGHT,
                left <= x0,
                top <= y0,
                x1 - left <= u32::MAX,
                y1 - top <= u32::MAX,
                y0 <= y,
                x0 <= x,
                x <= x1 || x == x0,
                forall|i: int|
                    0 <= i < WIDTH * HEIGHT ==> #[trigger] buffer@[i] == if (x0 <= col(i) < x1 && y0
                        <= row(i) < y) || (row(i) == y && x0 <= col(i) < x) {
                        blit_value(
                            old(buffer)@[i],
                            i,
                            left as int,
                            top as int,
                            *tex,
                            *region,
                            scale,
                        )
                    } else {
                        old(buffer)@[i]
                    },
            decreases x1 - x,
        {
            let k = y * WIDTH + x;
            proof {
                lemma_cell(x as int, y as int);
                assert(k < WIDTH * HEIGHT) by (nonlinear_arith)
                    requires
                        k == y * WIDTH + x,
                        x < WIDTH,
                        y < HEIGHT,
                ;
            }
            let dx = (x as i64 - left) as usize;
            let dy = (y as i64 - top) as usize;
            let p = region_pixel_at(tex, region, scale, dx, dy);
            let ghost before = buffer@;
            if p / 0x1000000 > 0 {
                buffer.set(k, p);
            }
            proof {
                assert(buffer@[k as int] == blit_value(
                    old(buffer)@[k as int],
                    k as int,
                    left as int,
                    top as int,
                    *tex,
                    *region,
                    scale,
                ));
                assert forall|i: int|
                    0 <= i < WIDTH * HEIGHT implies #[trigger] buffer@[i] == if (x0 <= col(i) < x1
                        && y0 <= row(i) < y) || (row(i) == y && x0 <= col(i) < x + 1) {
                        blit_value(
                            old(buffer)@[i],
                            i,
                            left as int,
                            top as int,
                            *tex,
                            *region,
                            scale,
                        )
                    } else {
                        old(buffer)@[i]
                    } by {
                    if i != k {
                        lemma_cell_unique(i);
                        assert(before[i] == buffer@[i]);
                    }
                }
            }
            x = x + 1;
        }
        y = y + 1;
    }
}

fn opaque_color(color: u32) -> (r: u32)
    ensures
        r == opaque(color),
{
    let r = color | 0xFF000000u32;
    proof {
        assert(color | 0xFF000000u32 == color % 0x1000000 + 0xFF000000) by (bit_vector);
    }
    r
}

/// `v` scaled by `scale` thousandths, rounded down, held at `i32::MAX`.
fn scaled_extent_of(v: usize, scale: u32) -> (r: i64)
    ensures
        r == scaled_extent(v, scale),
        0 <= r <= i32::MAX,
        scale == 0 ==> r == 0,
{
    if scale == 0 {
        assert((v as int) * (scale as int) == 0) by (nonlinear_arith)
            requires
                scale == 0,
        ;
    }
    assert((v as nat) * (scale as nat) <= (usize::MAX as nat) * (u32::MAX as nat)) by (nonlinear_arith)
        requires
            v <= usize::MAX,
            scale <= u32::MAX,
    ;
    let s: u128 = (v as u128) * (scale as u128) / (UNIT as u128);
    if s > i32::MAX as u128 {
        i32::MAX as i64
    } else {
        s as i64
    }
}

/// The columns `[a, b)` of the frame that an interval `[start, start + len)`
/// covers, `start` at or below `WIDTH`.
fn clip_span(start: usize, len: usize, limit: usize) -> (r: usize)
    requires
        start <= limit,
    ensures
        start <= r <= limit,
        r == if start + len >= limit {
            limit as int
        } else {
            start + len
        },
{
    if len >= limit - start {
        limit
    } else {
        start + len
    }
}

impl RenderSystem {
    pub fn new() -> (r: Self)
        ensures
            r == (RenderSystem {}),
    {
        RenderSystem
    }

    /// Fills a square of side `size` at the position's pixel, clipped to
    /// the frame.
    fn fill_square(buffer: &mut Vec<u32>, x: i32, y: i32, size: usize, color: u32)
        requires
            old(buffer)@.len() == WIDTH * HEIGHT,
        ensures
            final(buffer)@ == square(
                old(buffer)@,
                pixel_floor(x),
                pixel_floor(y),
                size as int,
                color,
            ),
    {
        let px = to_pixel_floor(x);
        let py = to_pixel_floor(y);
        let x0 = if px < WIDTH {
            px
        } else {
            WIDTH
        };
        let y0 = if py < HEIGHT {
            py
        } else {
            HEIGHT
        };
        let x1 = clip_span(x0, size, WIDTH);
        let y1 = clip_span(y0, size, HEIGHT);
        fill_rect(buffer, x0, x1, y0, y1, color);
        proof {
            let sq = square(old(buffer)@, pixel_floor(x), pixel_floor(y), size as int, color);
            assert forall|i: int| 0 <= i < buffer@.len() implies #[trigger] buffer@[i] == sq[i] by {
                lemma_cell_unique(i);
                assert(row(i) < HEIGHT) by {
                    if row(i) >= HEIGHT {
                        assert(i >= HEIGHT * WIDTH);
                    }
                }
            }
            assert(buffer@ =~= sq);
        }
    }

    /// Draws `sprite` with its top-left corner at `(x, y)`, fully opaque.
    pub fn draw_sprite(buffer: &mut Vec<u32>, x: i32, y: i32, sprite: &Sprite)
        requires
            old(buffer)@.len() == WIDTH * HEIGHT,
        ensures
            final(buffer)@ == square(
                old(buffer)@,
                pixel_floor(x),
                pixel_floor(y),
                sprite.size as int,
                opaque(sprite.color),
            ),
    {
        let c = opaque_color(sprite.color);
        Self::fill_square(buffer, x, y, sprite.size, c);
    }

    /// Draws the red square of an entity without a sprite.
    pub fn draw_default_square(buffer: &mut Vec<u32>, x: i32, y: i32)
        requires
            old(buffer)@.len() == WIDTH * HEIGHT,
        ensures
            final(buffer)@ == square(
                old(buffer)@,
                pixel_floor(x),
                pixel_floor(y),
                DEFAULT_SQUARE as int,
                RED,
            ),
    {
        Self::fill_square(buffer, x, y, DEFAULT_SQUARE, RED);
    }

    /// Draws region `texture_sprite.atlas_name` of `atlas`, scaled, with its
    /// top-left corner at `(x, y)`. A name the atlas lacks draws nothing.
    pub fn draw_texture_sprite(
        buffer: &mut Vec<u32>,
        x: i32,
        y: i32,
        texture_sprite: &TextureSprite,
        atlas: &crate::texture::SpriteAtlas,
    )
        requires
            old(buffer)@.len() == WIDTH * HEIGHT,
            atlas.wf(),
        ensures
            final(buffer)@ == if atlas.regions().contains_key(texture_sprite.atlas_name@) {
                textured(
                    old(buffer)@,
                    pixel_trunc(x),
                    pixel_trunc(y),
                    atlas.spec_texture(),
                    atlas.regions()[texture_sprite.atlas_name@],
                    texture_sprite.scale,
                )
            } else {
                old(buffer)@
            },
    {
        match atlas.get_sprite(texture_sprite.atlas_name.as_str()) {
            None => {},
            Some(region) => {
                let scale = texture_sprite.scale;
                let tex = atlas.texture();
                let left = to_pixel_trunc(x);
                let top = to_pixel_trunc(y);
                let w = scaled_extent_of(region.width, scale);
                let h = scaled_extent_of(region.height, scale);
                let ghost t = textured(old(buffer)@, left as int, top as int, *tex, *region, scale);
                if scale == 0 || left >= WIDTH as i64 || top >= HEIGHT as i64 || left + w <= 0
                    || top + h <= 0 {
                    proof {
                        assert forall|i: int| 0 <= i < buffer@.len() implies #[trigger] buffer@[i]
                            == t[i] by {
                            lemma_cell_unique(i);
                            if scale == 0 {
                                assert(w == 0);
                            }
                        }
                        assert(buffer@ =~= t);
                    }
                } else {
                    let x0: usize = if left < 0 {
                        0
                    } else {
                        left as usize
                    };
                    let y0: usize = if top < 0 {
                        0
                    } else {
                        top as usize
                    };
                    let x1: usize = if left + w >= WIDTH as i64 {
                        WIDTH
                    } else {
                        (left + w) as usize
                    };
                    let y1: usize = if top + h >= HEIGHT as i64 {
                        HEIGHT
                    } else {
                        (top + h) as usize
                    };
                    blit_rect(buffer, x0, x1, y0, y1, left, top, tex, region, scale);
                    proof {
                        assert forall|i: int| 0 <= i < buffer@.len() implies #[trigger] buffer@[i]
                            == t[i] by {
                            lemma_cell_unique(i);
                            assert(row(i) < HEIGHT) by {
                                if row(i) >= HEIGHT {
                                    assert(i >= HEIGHT * WIDTH);
                                }
                            }
                        }
                        assert(buffer@ =~= t);
                    }
                }
            },
        }
    }

    /// Draws the entity `e` at `p` as `draw_entity` says.
    fn draw_one(buffer: &mut Vec<u32>, world: &World, e: Entity, p: Position)
        requires
            old(buffer)@.len() == WIDTH * HEIGHT,
            world.wf(),
        ensures
            final(buffer)@ == draw_entity(old(buffer)@, *world, e, p),
            final(buffer)@.len() == WIDTH * HEIGHT,
    {
        match world.get_texture_sprite(e) {
            Some(ts) => match world.sprite_atlas() {
                Some(atlas) => Self::draw_texture_sprite(buffer, p.x, p.y, ts, atlas),
                None => {},
            },
            None => match world.get_sprite(e) {
                Some(s) => Self::draw_sprite(buffer, p.x, p.y, s),
                None => Self::draw_default_square(buffer, p.x, p.y),
            },
        }
    }

    /// Clears the frame to opaque black, then draws every entity that has a
    /// position, one after another in the order of the position query.
    pub fn render_frame(buffer: &mut Vec<u32>, world: &World)
        requires
            old(buffer)@.len() == WIDTH * HEIGHT,
            world.wf(),
        ensures
            final(buffer)@.len() == WIDTH * HEIGHT,
            exists|rows: Seq<(Entity, Position)>|
                #[trigger] lists_table(rows, world.positions()) && final(buffer)@ == draw_all(
                    Seq::new((WIDTH * HEIGHT) as nat, |i: int| OPAQUE_BLACK),
                    *world,
                    rows,
                ),
    {
        let n = buffer.len();
        let mut i: usize = 0;
        while i < n
            invariant
                n == WIDTH * HEIGHT,
                buffer@.len() == n,
                i <= n,
                forall|k: int| 0 <= k < i ==> #[trigger] buffer@[k] == OPAQUE_BLACK,
            decreases n - i,
        {
            buffer.set(i, OPAQUE_BLACK);
            i = i + 1;
        }
        let ghost cleared = Seq::new((WIDTH * HEIGHT) as nat, |i: int| OPAQUE_BLACK);
        assert(buffer@ =~= cleared);
        let q = PositionQuery::query(world);
        let mut j: usize = 0;
        while j < q.rows.len()
            invariant
                world.wf(),
                buffer@.len() == WIDTH * HEIGHT,
                j <= q.rows@.len(),
                buffer@ == draw_all(cleared, *world, q.rows@.take(j as int)),
            decreases q.rows@.len() - j,
        {
            let (e, p) = q.rows[j];
            proof {
                assert(q.rows@.take(j + 1).drop_last() =~= q.rows@.take(j as int));
            }
            Self::draw_one(buffer, world, e, p);
            j = j + 1;
        }
        assert(q.rows@.take(j as int) =~= q.rows@);
    }
}

impl Default for RenderSystem {
    fn default() -> (r: Self)
        ensures
            r == (RenderSystem {}),
    {
        RenderSystem
    }
}

impl System for RenderSystem {
    open spec fn changes(&self, before: World, after: World, dt: u32) -> bool {
        after == before
    }

    fn update(&self, world: &mut World, dt: u32) {
    }

    fn name(&self) -> &'static str {
        "RenderSystem"
    }
}

} // verus!
