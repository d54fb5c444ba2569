//! Regions of packed textures, and nine-patches cut from them.

use vstd::prelude::*;
use crate::assets::AssetHandle;
use crate::atlas::{TextureAtlas, TextureRegionInformation};
use crate::batch::{Position, Ratio, Renderable, TexCoords, Vertex};
use crate::colour::Colour;
use crate::multi_batch::{MultiRenderable, RenderTree};

verus! {

/// Where a region lies, and the size of the texture that holds it.
#[derive(Debug, Copy, Clone, PartialEq, Eq)]
pub struct InternalTextureRegionInformation {
    /// Where the region lies.
    pub info: TextureRegionInformation,
    /// The width and height of the whole texture, in texels.
    pub partitioned_texture_size: (u32, u32),
}

/// A named part of a packed texture. Where the part lies is known once the
/// texture has been loaded; until then `info` is `None`.
#[derive(Debug, Copy, Clone, PartialEq, Eq)]
pub struct TextureRegion {
    /// The texture that this region is contained within.
    pub partitioned_texture: AssetHandle,
    /// Where the region lies within the texture.
    pub info: Option<InternalTextureRegionInformation>,
}

impl TextureRegion {
    /// A region of `partitioned_texture` whose place is not known yet.
    pub fn new(partitioned_texture: AssetHandle) -> (region: TextureRegion)
        ensures
            region == (TextureRegion { partitioned_texture, info: None }),
    {
        TextureRegion { partitioned_texture, info: None }
    }

    /// Takes the place of the region `name` from the atlas of the loaded
    /// texture, whose size is `dimensions`. Where the atlas has no region of
    /// that name, the place stays as it was.
    pub fn on_load(&mut self, atlas: &TextureAtlas, name: &str, dimensions: (u32, u32)) -> (found:
        bool)
        ensures
            found == atlas.regions().contains_key(name@),
            final(self).partitioned_texture == old(self).partitioned_texture,
            found ==> final(self).info == Some(
                InternalTextureRegionInformation {
                    info: atlas.regions()[name@],
                    partitioned_texture_size: dimensions,
                },
            ),
            !found ==> final(self).info == old(self).info,
    {
        match atlas.get(name) {
            Some(info) => {
                self.info = Some(
                    InternalTextureRegionInformation { info, partitioned_texture_size: dimensions },
                );
                true
            },
            None => false,
        }
    }
}

/// Splits a region of a texture into a grid of three by three pieces, so
/// that its borders keep their size when the whole is stretched. The margins
/// are in pixels.
#[derive(Debug, Copy, Clone, PartialEq, Eq)]
pub struct NinePatch {
    pub texture_region: TextureRegion,
    pub left_margin: u32,
    pub right_margin: u32,
    pub top_margin: u32,
    pub bottom_margin: u32,
}

/// The four places at which a stretch of `extent` from `start` is cut: its
/// start, the end of the low margin, the start of the high margin, its end.
pub open spec fn breakpoints(start: int, extent: int, low: int, high: int) -> Seq<int> {
    seq![start, start + low, start + extent - high, start + extent]
}

/// The corner of the grid where column line `i` meets row line `j`.
pub open spec fn grid_vertex(
    xs: Seq<int>,
    ys: Seq<int>,
    us: Seq<int>,
    vs: Seq<int>,
    texture_size: (u32, u32),
    colour: Colour,
    i: int,
    j: int,
) -> Vertex {
    Vertex {
        position: Position { x: xs[i] as i64, y: ys[j] as i64, z: 0 },
        color: colour,
        tex_coords: TexCoords {
            u: Ratio { num: us[i] as i64, den: texture_size.0 },
            v: Ratio { num: vs[j] as i64, den: texture_size.1 },
        },
    }
}

/// The piece of the grid in column `i` and row `j`, its corners in the order
/// low-low, high-low, high-high, low-high.
pub open spec fn grid_cell(
    xs: Seq<int>,
    ys: Seq<int>,
    us: Seq<int>,
    vs: Seq<int>,
    texture_size: (u32, u32),
    colour: Colour,
    i: int,
    j: int,
) -> Renderable {
    Renderable::Quadrilateral(
        grid_vertex(xs, ys, us, vs, texture_size, colour, i, j),
        grid_vertex(xs, ys, us, vs, texture_size, colour, i + 1, j),
        grid_vertex(xs, ys, us, vs, texture_size, colour, i + 1, j + 1),
        grid_vertex(xs, ys, us, vs, texture_size, colour, i, j + 1),
    )
}

impl NinePatch {
    /// The horizontal cuts of a patch drawn from `x` over `width` pixels.
    pub open spec fn x_positions(self, x: i32, width: i32) -> Seq<int> {
        breakpoints(x as int, width as int, self.left_margin as int, self.right_margin as int)
    }

    /// The vertical cuts of a patch drawn from `y` over `height` pixels.
    pub open spec fn y_positions(self, y: i32, height: i32) -> Seq<int> {
        breakpoints(y as int, height as int, self.bottom_margin as int, self.top_margin as int)
    }

    /// The horizontal cuts in the texture, in texels of the whole texture.
    pub open spec fn u_positions(self) -> Seq<int> {
        let frame = self.texture_region.info.unwrap().info.frame;
        breakpoints(
            frame.x as int,
            frame.w as int,
            self.left_margin as int,
            self.right_margin as int,
        )
    }

    /// The vertical cuts in the texture, in texels of the whole texture.
    pub open spec fn v_positions(self) -> Seq<int> {
        let frame = self.texture_region.info.unwrap().info.frame;
        breakpoints(
            frame.y as int,
            frame.h as int,
            self.bottom_margin as int,
            self.top_margin as int,
        )
    }

    /// The nine pieces of the patch, column by column, each column from the
    /// bottom up.
    pub open spec fn cells(self, colour: Colour, x: i32, y: i32, width: i32, height: i32) -> Seq<
        Renderable,
    > {
        Seq::new(
            9,
            |k: int|
                grid_cell(
                    self.x_positions(x, width),
                    self.y_positions(y, height),
                    self.u_positions(),
                    self.v_positions(),
                    self.texture_region.info.unwrap().partitioned_texture_size,
                    colour,
                    k / 3,
                    k % 3,
                ),
        )
    }

    /// What drawing the patch comes to: nothing while the place of the region
    /// is unknown, else the nine pieces with the texture of the region.
    pub open spec fn render_info(self, colour: Colour, x: i32, y: i32, width: i32, height: i32) -> RenderTree {
        if self.texture_region.info.is_none() {
            RenderTree::Nothing
        } else {
            RenderTree::ImageRegion {
                texture: self.texture_region,
                renderables: self.cells(colour, x, y, width, height),
            }
        }
    }

    /// A patch that stretches the whole region.
    pub fn no_margins(texture_region: TextureRegion) -> (patch: NinePatch)
        ensures
            patch == (NinePatch {
                texture_region,
                left_margin: 0,
                right_margin: 0,
                top_margin: 0,
                bottom_margin: 0,
            }),
    {
        NinePatch {
            texture_region,
            left_margin: 0,
            right_margin: 0,
            top_margin: 0,
            bottom_margin: 0,
        }
    }

    /// Describes how to draw the patch with its bottom-left corner at
    /// (`x`, `y`), stretched to `width` by `height` pixels.
    pub fn generate_render_info(
        &self,
        colour: Colour,
        x: i32,
        y: i32,
        width: i32,
        height: i32,
    ) -> (info: MultiRenderable)
        ensures
            info@ == self.render_info(colour, x, y, width, height),
    {
        let region = match self.texture_region.info {
            Some(region) => region,
            None => {
                return MultiRenderable::Nothing;
            },
        };
        let frame = region.info.frame;
        let size = region.partitioned_texture_size;
        let us: [i64; 4] = [
            frame.x as i64,
            frame.x as i64 + self.left_margin as i64,
            frame.x as i64 + frame.w as i64 - self.right_margin as i64,
            frame.x as i64 + frame.w as i64,
        ];
        let vs: [i64; 4] = [
            frame.y as i64,
            frame.y as i64 + self.bottom_margin as i64,
            frame.y as i64 + frame.h as i64 - self.top_margin as i64,
            frame.y as i64 + frame.h as i64,
        ];
        let xs: [i64; 4] = [
            x as i64,
            x as i64 + self.left_margin as i64,
            x as i64 + width as i64 - self.right_margin as i64,
            x as i64 + width as i64,
        ];
        let ys: [i64; 4] = [
            y as i64,
            y as i64 + self.bottom_margin as i64,
            y as i64 + height as i64 - self.top_margin as i64,
            y as i64 + height as i64,
        ];
        let ghost sxs = self.x_positions(x, width);
        let ghost sys = self.y_positions(y, height);
        let ghost sus = self.u_positions();
        let ghost svs = self.v_positions();
        let mut renderables: Vec<Renderable> = Vec::new();
        let mut k: usize = 0;
        while k < 9
            invariant
                k <= 9,
                renderables@.len() == k,
                self.texture_region.info == Some(region),
                size == region.partitioned_texture_size,
                sxs == self.x_positions(x, width),
                sys == self.y_positions(y, height),
                sus == self.u_positions(),
                svs == self.v_positions(),
                forall|n: int| 0 <= n < 4 ==> xs@[n] == sxs[n] && ys@[n] == sys[n] && us@[n] == sus[n]
                    && vs@[n] == svs[n],
                forall|n: int|
                    0 <= n < k ==> renderables@[n] == grid_cell(
                        sxs,
                        sys,
                        sus,
                        svs,
                        size,
                        colour,
                        n / 3,
                        n % 3,
                    ),
            decreases 9 - k,
        {
            let i = k / 3;
            let j = k % 3;
            let low_low = Vertex {
                position: Position { x: xs[i], y: ys[j], z: 0 },
                color: colour,
                tex_coords: TexCoords {
                    u: Ratio { num: us[i], den: size.0 },
                    v: Ratio { num: vs[j], den: size.1 },
                },
            };
            let high_low = Vertex {
                position: Position { x: xs[i + 1], y: ys[j], z: 0 },
                color: colour,
                tex_coords: TexCoords {
                    u: Ratio { num: us[i + 1], den: size.0 },
                    v: Ratio { num: vs[j], den: size.1 },
                },
            };
            let high_high = Vertex {
                position: Position { x: xs[i + 1], y: ys[j + 1], z: 0 },
                color: colour,
                tex_coords: TexCoords {
                    u: Ratio { num: us[i + 1], den: size.0 },
                    v: Ratio { num: vs[j + 1], den: size.1 },
                },
            };
            let low_high = Vertex {
                position: Position { x: xs[i], y: ys[j + 1], z: 0 },
                color: colour,
                tex_coords: TexCoords {
                    u: Ratio { num: us[i], den: size.0 },
                    v: Ratio { num: vs[j + 1], den: size.1 },
                },
            };
            renderables.push(Renderable::Quadrilateral(low_low, high_low, high_high, low_high));
            k += 1;
        }
        assert(renderables@ =~= self.cells(colour, x, y, width, height));
        MultiRenderable::ImageRegion { texture: self.texture_region, renderables }
    }
}

/// The texture coordinates of a nine-patch are cut at the margins. For a
/// patch whose region is the whole texture, of `w` by `h` texels, the cuts lie
/// at 0, `left`, `w - right` and `w` across and at 0, `bottom`, `h - top` and
/// `h` upwards, each over the size of the texture; for a region inside a
/// larger texture they are moved by the place of the region. The piece in
/// column `i` and row `j` spans the cuts `i` to `i + 1` and `j` to `j + 1`, on
/// the screen and in the texture alike.
pub proof fn law_nine_patch_cuts_at_margins(
    patch: NinePatch,
    colour: Colour,
    x: i32,
    y: i32,
    width: i32,
    height: i32,
    i: int,
    j: int,
)
    requires
        patch.texture_region.info.is_some(),
        0 <= i < 3,
        0 <= j < 3,
    ensures
        ({
            let region = patch.texture_region.info.unwrap();
            let frame = region.info.frame;
            let size = region.partitioned_texture_size;
            let xs = patch.x_positions(x, width);
            let ys = patch.y_positions(y, height);
            let us = patch.u_positions();
            let vs = patch.v_positions();
            &&& patch.render_info(colour, x, y, width, height) matches RenderTree::ImageRegion {
                texture,
                renderables,
            }
            &&& texture == patch.texture_region
            &&& renderables.len() == 9
            &&& renderables[3 * i + j] == grid_cell(xs, ys, us, vs, size, colour, i, j)
            &&& us == seq![
                frame.x as int,
                frame.x + patch.left_margin,
                frame.x + frame.w - patch.right_margin,
                frame.x + frame.w,
            ]
            &&& vs == seq![
                frame.y as int,
                frame.y + patch.bottom_margin,
                frame.y + frame.h - patch.top_margin,
                frame.y + frame.h,
            ]
            &&& (frame.x == 0 && frame.w == size.0) ==> us == seq![
                0int,
                patch.left_margin as int,
                size.0 - patch.right_margin,
                size.0 as int,
            ]
            &&& (frame.y == 0 && frame.h == size.1) ==> vs == seq![
                0int,
                patch.bottom_margin as int,
                size.1 - patch.top_margin,
                size.1 as int,
            ]
        }),
{
    let k = 3 * i + j;
    assert(k / 3 == i && k % 3 == j);
}

/// The nine pieces tile the target without gap or overlap. Where the margins
/// fit into the target, every pixel of the target lies in exactly one piece.
pub proof fn law_nine_patch_tiles(
    patch: NinePatch,
    x: i32,
    y: i32,
    width: i32,
    height: i32,
    px: int,
    py: int,
)
    requires
        patch.left_margin + patch.right_margin <= width,
        patch.bottom_margin + patch.top_margin <= height,
        x <= px < x + width,
        y <= py < y + height,
    ensures
        ({
            let xs = patch.x_positions(x, width);
            let ys = patch.y_positions(y, height);
            &&& xs[0] == x && xs[3] == x + width
            &&& ys[0] == y && ys[3] == y + height
            &&& exists|i: int, j: int|
                0 <= i < 3 && 0 <= j < 3 && in_cell(xs, ys, i, j, px, py) && forall|
                    i2: int,
                    j2: int,
                |
                    0 <= i2 < 3 && 0 <= j2 < 3 && in_cell(xs, ys, i2, j2, px, py) ==> i2 == i
                        && j2 == j
        }),
{
    let xs = patch.x_positions(x, width);
    let ys = patch.y_positions(y, height);
    let i: int = if px < xs[1] {
        0
    } else if px < xs[2] {
        1
    } else {
        2
    };
    let j: int = if py < ys[1] {
        0
    } else if py < ys[2] {
        1
    } else {
        2
    };
    assert(in_cell(xs, ys, i, j, px, py));
    assert forall|i2: int, j2: int|
        0 <= i2 < 3 && 0 <= j2 < 3 && in_cell(xs, ys, i2, j2, px, py) implies i2 == i && j2
        == j by {}
}

/// Whether the pixel (`px`, `py`) lies in the piece in column `i` and row `j`.
pub open spec fn in_cell(xs: Seq<int>, ys: Seq<int>, i: int, j: int, px: int, py: int) -> bool {
    xs[i] <= px < xs[i + 1] && ys[j] <= py < ys[j + 1]
}

} // verus!
