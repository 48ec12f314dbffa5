//! Textures (a grid of `0xAARRGGBB` pixels) and sprite atlases: one texture
//! with named rectangular regions.
use vstd::prelude::*;

verus! {

/// A `width` by `height` grid of pixels, stored row by row.
#[derive(Debug, Clone)]
pub struct Texture {
    width: usize,
    height: usize,
    data: Vec<u32>,
}

/// The pixel of `data` at `(x, y)` in a grid `width` wide, or 0 outside the grid.
pub open spec fn pixel_at(width: nat, height: nat, data: Seq<u32>, x: nat, y: nat) -> u32 {
    if x < width && y < height {
        data[(y * width + x) as int]
    } else {
        0
    }
}

impl Texture {
    /// Whether the texture holds exactly one pixel for each cell.
    pub closed spec fn wf(&self) -> bool {
        self.data@.len() == self.width * self.height
    }

    pub closed spec fn spec_width(&self) -> nat {
        self.width as nat
    }

    pub closed spec fn spec_height(&self) -> nat {
        self.height as nat
    }

    /// The pixels, row by row.
    pub closed spec fn pixels(&self) -> Seq<u32> {
        self.data@
    }

    /// The colour at `(x, y)`: 0 outside the texture.
    pub open spec fn pixel(&self, x: nat, y: nat) -> u32 {
        pixel_at(self.spec_width(), self.spec_height(), self.pixels(), x, y)
    }

    /// A texture from its pixels, row by row; `data` holds one pixel for
    /// each cell of the grid.
    pub fn new(width: usize, height: usize, data: Vec<u32>) -> (r: Self)
        requires
            data@.len() == width * height,
        ensures
            r.wf(),
            r.spec_width() == width,
            r.spec_height() == height,
            r.pixels() == data@,
    {
        Texture { width, height, data }
    }

    /// The colour at `(x, y)`, or 0 (transparent) outside the texture.
    pub fn get_pixel(&self, x: usize, y: usize) -> (r: u32)
        requires
            self.wf(),
        ensures
            r == self.pixel(x as nat, y as nat),
    {
        if x < self.width && y < self.height {
            let i = self.index_of(x, y);
            self.data[i]
        } else {
            0
        }
    }

    fn index_of(&self, x: usize, y: usize) -> (i: usize)
        requires
            self.wf(),
            x < self.spec_width(),
            y < self.spec_height(),
        ensures
            i == y * self.spec_width() + x,
            i < self.pixels().len(),
    {
        let w = self.width;
        let h = self.height;
        proof {
            assert(y * w + x < w * h) by (nonlinear_arith)
                requires
                    x < w,
                    y < h,
            ;
        }
        let cells = self.data.len();
        assert(cells == w * h);
        y * w + x
    }

    /// Paints `(x, y)`; a point outside the texture changes nothing.
    pub fn set_pixel(&mut self, x: usize, y: usize, color: u32)
        requires
            old(self).wf(),
        ensures
            final(self).wf(),
            final(self).spec_width() == old(self).spec_width(),
            final(self).spec_height() == old(self).spec_height(),
            x < old(self).spec_width() && y < old(self).spec_height() ==> final(self).pixels()
                == old(self).pixels().update(y * old(self).spec_width() + x, color),
            !(x < old(self).spec_width() && y < old(self).spec_height()) ==> final(self).pixels()
                == old(self).pixels(),
    {
        if x < self.width && y < self.height {
            let i = self.index_of(x, y);
            self.data.set(i, color);
        }
    }

    /// `(width, height)`.
    pub fn dimensions(&self) -> (r: (usize, usize))
        ensures
            r.0 == self.spec_width(),
            r.1 == self.spec_height(),
    {
        (self.width, self.height)
    }

    /// The number of pixels: width times height.
    pub fn pixel_count(&self) -> (r: usize)
        requires
            self.wf(),
        ensures
            r == self.spec_width() * self.spec_height(),
    {
        self.data.len()
    }
}

/// A rectangle of an atlas texture: top-left corner and size, in pixels.
#[derive(Debug, Clone, Copy, PartialEq, Eq, Structural)]
pub struct AtlasSprite {
    pub x: usize,
    pub y: usize,
    pub width: usize,
    pub height: usize,
}

impl AtlasSprite {
    pub fn new(x: usize, y: usize, width: usize, height: usize) -> (r: Self)
        ensures
            r == (AtlasSprite { x, y, width, height }),
    {
        AtlasSprite { x, y, width, height }
    }

    /// `(x, y, width, height)`.
    pub fn bounds(&self) -> (r: (usize, usize, usize, usize))
        ensures
            r == (self.x, self.y, self.width, self.height),
    {
        (self.x, self.y, self.width, self.height)
    }

    pub open spec fn spec_contains(&self, x: nat, y: nat) -> bool {
        self.x <= x < self.x + self.width && self.y <= y < self.y + self.height
    }

    /// Whether `(x, y)` lies inside the rectangle.
    pub fn contains_point(&self, x: usize, y: usize) -> (r: bool)
        ensures
            r == self.spec_contains(x as nat, y as nat),
    {
        x >= self.x && x - self.x < self.width && y >= self.y && y - self.y < self.height
    }
}

/// One texture and its named regions. No two regions share a name.
#[derive(Debug, Clone)]
pub struct SpriteAtlas {
    texture: Texture,
    sprites: Vec<(String, AtlasSprite)>,
}

/// Whether no two entries share a name.
pub open spec fn names_unique(s: Seq<(String, AtlasSprite)>) -> bool {
    forall|i: int, j: int|
        0 <= i < s.len() && 0 <= j < s.len() && i != j ==> #[trigger] s[i].0@ != #[trigger] s[j].0@
}

/// The name to region mapping that `s` holds.
pub open spec fn region_map(s: Seq<(String, AtlasSprite)>) -> Map<Seq<char>, AtlasSprite> {
    Map::new(
        |n: Seq<char>| exists|i: int| 0 <= i < s.len() && s[i].0@ == n,
        |n: Seq<char>| s[choose|i: int| 0 <= i < s.len() && s[i].0@ == n].1,
    )
}

impl SpriteAtlas {
    /// Whether no two regions share a name and the texture is whole.
    pub closed spec fn wf(&self) -> bool {
        &&& names_unique(self.sprites@)
        &&& self.texture.wf()
    }

    pub closed spec fn spec_texture(&self) -> Texture {
        self.texture
    }

    /// The texture that the regions cut up.
    pub fn texture(&self) -> (r: &Texture)
        requires
            self.wf(),
        ensures
            *r == self.spec_texture(),
            r.wf(),
    {
        &self.texture
    }

    /// The regions by name.
    pub closed spec fn regions(&self) -> Map<Seq<char>, AtlasSprite> {
        region_map(self.sprites@)
    }

    /// The names in the order in which they were first added.
    pub closed spec fn names(&self) -> Seq<Seq<char>> {
        self.sprites@.map_values(|e: (String, AtlasSprite)| e.0@)
    }

    /// An atlas over `texture` with no regions yet.
    pub fn new(texture: Texture) -> (r: Self)
        requires
            texture.wf(),
        ensures
            r.wf(),
            r.spec_texture() == texture,
            r.regions() == Map::<Seq<char>, AtlasSprite>::empty(),
            r.names() == Seq::<Seq<char>>::empty(),
    {
        let r = SpriteAtlas { texture, sprites: Vec::new() };
        assert(r.regions() =~= Map::<Seq<char>, AtlasSprite>::empty());
        assert(r.names() =~= Seq::<Seq<char>>::empty());
        r
    }

    fn position_of(&self, name: &str) -> (r: Option<usize>)
        ensures
            match r {
                Some(i) => i < self.sprites@.len() && self.sprites@[i as int].0@ == name@,
                None => forall|i: int|
                    0 <= i < self.sprites@.len() ==> self.sprites@[i].0@ != name@,
            },
    {
        let key = name.to_owned();
        let mut i: usize = 0;
        while i < self.sprites.len()
            invariant
                i <= self.sprites@.len(),
                key@ == name@,
                forall|j: int| 0 <= j < i ==> self.sprites@[j].0@ != name@,
            decreases self.sprites@.len() - i,
        {
            if self.sprites[i].0 == key {
                return Some(i);
            }
            i = i + 1;
        }
        None
    }

    /// Adds the region `name`, or moves it if the name is already taken.
    pub fn add_sprite(&mut self, name: String, x: usize, y: usize, width: usize, height: usize)
        requires
            old(self).wf(),
        ensures
            final(self).wf(),
            final(self).spec_texture() == old(self).spec_texture(),
            final(self).regions() == old(self).regions().insert(
                name@,
                AtlasSprite { x, y, width, height },
            ),
            old(self).regions().contains_key(name@) ==> final(self).names() == old(self).names(),
            !old(self).regions().contains_key(name@) ==> final(self).names() == old(
                self,
            ).names().push(name@),
    {
        let region = AtlasSprite::new(x, y, width, height);
        let ghost before = self.sprites@;
        let found = self.position_of(name.as_str());
        match found {
            Some(i) => {
                let entry = (name, region);
                self.sprites.set(i, entry);
                proof {
                    let after = self.sprites@;
                    assert(after == before.update(i as int, entry));
                    assert(names_unique(after));
                    assert forall|n: Seq<char>|
                        #[trigger] region_map(after).contains_key(n) == region_map(
                            before,
                        ).insert(entry.0@, region).contains_key(n) by {
                        if n != entry.0@ {
                            if region_map(before).contains_key(n) {
                                let k = choose|k: int| 0 <= k < before.len() && before[k].0@ == n;
                                assert(after[k].0@ == n);
                            }
                        } else {
                            assert(after[i as int].0@ == n);
                        }
                    }
                    assert forall|n: Seq<char>| #[trigger]
                        region_map(after).contains_key(n) implies region_map(after)[n]
                        == region_map(before).insert(entry.0@, region)[n] by {
                        let k = choose|k: int| 0 <= k < after.len() && after[k].0@ == n;
                        if n != entry.0@ {
                            let k2 = choose|k: int| 0 <= k < before.len() && before[k].0@ == n;
                            assert(k == k2);
                        } else {
                            assert(k == i);
                        }
                    }
                    assert(region_map(after) =~= region_map(before).insert(entry.0@, region));
                    assert(self.names() =~= old(self).names());
                }
            },
            None => {
                let entry = (name, region);
                self.sprites.push(entry);
                proof {
                    let after = self.sprites@;
                    assert(after == before.push(entry));
                    assert(names_unique(after));
                    assert forall|n: Seq<char>|
                        #[trigger] region_map(after).contains_key(n) == region_map(
                            before,
                        ).insert(entry.0@, region).contains_key(n) by {
                        if n != entry.0@ {
                            if region_map(before).contains_key(n) {
                                let k = choose|k: int| 0 <= k < before.len() && before[k].0@ == n;
                                assert(after[k].0@ == n);
                            }
                        } else {
                            assert(after[before.len() as int].0@ == n);
                        }
                    }
                    assert forall|n: Seq<char>| #[trigger]
                        region_map(after).contains_key(n) implies region_map(after)[n]
                        == region_map(before).insert(entry.0@, region)[n] by {
                        let k = choose|k: int| 0 <= k < after.len() && after[k].0@ == n;
                        if n != entry.0@ {
                            let k2 = choose|k: int| 0 <= k < before.len() && before[k].0@ == n;
                            assert(after[k2].0@ == n);
                            assert(k == k2);
                        } else {
                            assert(after[before.len() as int].0@ == n);
                            assert(k == before.len());
                        }
                    }
                    assert(region_map(after) =~= region_map(before).insert(entry.0@, region));
                    assert(self.names() =~= old(self).names().push(entry.0@));
                }
            },
        }
    }

    /// The region called `name`, if there is one.
    pub fn get_sprite(&self, name: &str) -> (r: Option<&AtlasSprite>)
        requires
            self.wf(),
        ensures
            match r {
                Some(s) => self.regions().contains_key(name@) && *s == self.regions()[name@],
                None => !self.regions().contains_key(name@),
            },
    {
        match self.position_of(name) {
            Some(i) => {
                proof {
                    let s = self.sprites@;
                    let k = choose|k: int| 0 <= k < s.len() && s[k].0@ == name@;
                    assert(k == i);
                }
                Some(&self.sprites[i].1)
            },
            None => None,
        }
    }

    /// Every region name, in the order in which it was first added.
    pub fn sprite_names(&self) -> (r: Vec<String>)
        ensures
            r@.map_values(|s: String| s@) == self.names(),
    {
        let mut out: Vec<String> = Vec::new();
        let mut i: usize = 0;
        while i < self.sprites.len()
            invariant
                i <= self.sprites@.len(),
                out@.len() == i,
                forall|j: int| 0 <= j < i ==> #[trigger] out@[j]@ == self.sprites@[j].0@,
            decreases self.sprites@.len() - i,
        {
            let name = self.sprites[i].0.clone();
            out.push(name);
            i = i + 1;
        }
        assert(out@.map_values(|s: String| s@) =~= self.names());
        out
    }

    /// The number of regions.
    pub fn sprite_count(&self) -> (r: usize)
        requires
            self.wf(),
        ensures
            r == self.regions().len(),
    {
        proof {
            self.lemma_count();
        }
        self.sprites.len()
    }

    proof fn lemma_count(&self)
        requires
            names_unique(self.sprites@),
        ensures
            self.regions().len() == self.sprites@.len(),
            self.regions().dom() == self.names().to_set(),
    {
        let s = self.sprites@;
        let names = self.names();
        assert(self.regions().dom() =~= names.to_set()) by {
            assert forall|n: Seq<char>| #[trigger] names.to_set().contains(n) implies self.regions().contains_key(n) by {
                let k = choose|k: int| 0 <= k < names.len() && names[k] == n;
                assert(s[k].0@ == n);
            }
            assert forall|n: Seq<char>| self.regions().contains_key(n) implies #[trigger] names.to_set().contains(n) by {
                let k = choose|k: int| 0 <= k < s.len() && s[k].0@ == n;
                assert(names[k] == n);
            }
        }
        assert(names.no_duplicates()) by {
            assert forall|i: int, j: int| 0 <= i < names.len() && 0 <= j < names.len() && i != j implies names[i] != names[j] by {
                assert(s[i].0@ != s[j].0@);
            }
        }
        names.unique_seq_to_set();
    }
}

} // verus!
