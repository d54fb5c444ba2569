//! Turns typeset words into textured shapes, with the places that the glyph
//! cache gave to their glyphs.
//!
//! The glyph cache keeps drawn glyphs in a texture. To make room it may move
//! or drop glyphs that it held: every place taken from it before is then out
//! of date. The renderer counts these events as generations of the cache, and
//! draws only with places of the current generation.

use vstd::prelude::*;
use crate::batch::{Position, Ratio, Renderable, TexCoords, Vertex};
use crate::colour::Colour;
use crate::geometry::Point;
use crate::multi_batch::{PlacedWord, PlacedWordView};
use crate::text::RenderableGlyph;

verus! {

/// How the glyph cache made room for the glyphs that were queued.
#[derive(Debug, Copy, Clone, PartialEq, Eq, Structural)]
pub enum CachedBy {
    /// The glyphs were added beside those that the cache held, which stayed in place.
    Adding,
    /// Glyphs that the cache held were moved or dropped.
    Reordering,
}

/// A rectangle in the texture of the glyph cache, in texels.
#[derive(Debug, Copy, Clone, PartialEq, Eq, Structural)]
pub struct TexelRect {
    pub min_x: u32,
    pub min_y: u32,
    pub max_x: u32,
    pub max_y: u32,
}

/// A rectangle on the screen, in pixels relative to the origin of a word.
#[derive(Debug, Copy, Clone, PartialEq, Eq, Structural)]
pub struct PixelRect {
    pub min_x: i32,
    pub min_y: i32,
    pub max_x: i32,
    pub max_y: i32,
}

/// Where a glyph lies in the texture of the cache, and where it goes on the screen.
#[derive(Debug, Copy, Clone, PartialEq, Eq, Structural)]
pub struct GlyphRect {
    pub uv: TexelRect,
    pub pixel: PixelRect,
}

/// The places of the glyphs of a text, as the glyph cache gave them in one
/// generation: for each word, for each of its glyphs, the place of the
/// glyph, or `None` for a glyph that shows nothing.
pub struct GlyphRects {
    generation: u64,
    rects: Vec<Vec<Option<GlyphRect>>>,
}

/// The places of the glyphs of each word.
pub open spec fn rect_views(rects: Seq<Vec<Option<GlyphRect>>>) -> Seq<Seq<Option<GlyphRect>>> {
    rects.map_values(|r: Vec<Option<GlyphRect>>| r@)
}

impl GlyphRects {
    /// The generation of the cache in which the places were taken.
    pub closed spec fn generation(&self) -> u64 {
        self.generation
    }

    /// The place of every glyph, word by word.
    pub closed spec fn rects(&self) -> Seq<Seq<Option<GlyphRect>>> {
        rect_views(self.rects@)
    }
}

/// Follows the glyph cache and turns words into shapes.
#[derive(Debug, Copy, Clone, PartialEq, Eq)]
pub struct TextRenderer {
    /// The generation of the glyph cache. It goes up whenever the cache
    /// moved or dropped glyphs that it held.
    pub cache_generation: u64,
    /// Width and height of the texture of the cache, in texels.
    pub cache_size: (u32, u32),
}

/// The corner of a glyph at (`x`, `y`) that samples the texel (`u`, `v`).
pub open spec fn glyph_vertex(
    colour: Colour,
    cache_size: (u32, u32),
    x: int,
    y: int,
    u: u32,
    v: u32,
) -> Vertex {
    Vertex {
        position: Position { x: x as i64, y: y as i64, z: 0 },
        color: colour,
        tex_coords: TexCoords {
            u: Ratio { num: u as i64, den: cache_size.0 },
            v: Ratio { num: v as i64, den: cache_size.1 },
        },
    }
}

/// The shape that draws one glyph of a word placed at `offset`. The baseline
/// of the word lies `baseline` pixels below the place of the word; the
/// vertical axis of the screen points up, that of the layout and of the glyph
/// down.
pub open spec fn glyph_quad(
    glyph: RenderableGlyph,
    rect: GlyphRect,
    offset: Point,
    baseline: u32,
    cache_size: (u32, u32),
) -> Renderable {
    let x1 = rect.pixel.min_x + offset.x;
    let y1 = -(rect.pixel.min_y as int) - baseline - offset.y;
    let x2 = rect.pixel.max_x + offset.x;
    let y2 = -(rect.pixel.max_y as int) - baseline - offset.y;
    Renderable::Quadrilateral(
        glyph_vertex(glyph.colour, cache_size, x1, y1, rect.uv.min_x, rect.uv.min_y),
        glyph_vertex(glyph.colour, cache_size, x2, y1, rect.uv.max_x, rect.uv.min_y),
        glyph_vertex(glyph.colour, cache_size, x2, y2, rect.uv.max_x, rect.uv.max_y),
        glyph_vertex(glyph.colour, cache_size, x1, y2, rect.uv.min_x, rect.uv.max_y),
    )
}

/// The place of glyph `g` in `rects`, or `None` where `rects` has none for it.
pub open spec fn rect_of(rects: Seq<Option<GlyphRect>>, g: int) -> Option<GlyphRect> {
    if 0 <= g < rects.len() {
        rects[g]
    } else {
        None
    }
}

/// The shapes of the first `count` glyphs of a word: one for every glyph that has a place.
pub open spec fn word_quads(
    word: PlacedWordView,
    rects: Seq<Option<GlyphRect>>,
    cache_size: (u32, u32),
    count: nat,
) -> Seq<Renderable>
    decreases count,
{
    if count == 0 || count > word.word.glyphs.len() {
        seq![]
    } else {
        let before = word_quads(word, rects, cache_size, (count - 1) as nat);
        match rect_of(rects, count - 1) {
            Some(rect) => before.push(
                glyph_quad(
                    word.word.glyphs[count - 1],
                    rect,
                    word.offset,
                    word.word.baseline,
                    cache_size,
                ),
            ),
            None => before,
        }
    }
}

/// The shapes of the first `count` words of a text, word after word.
pub open spec fn text_quads(
    text: Seq<PlacedWordView>,
    rects: Seq<Seq<Option<GlyphRect>>>,
    cache_size: (u32, u32),
    count: nat,
) -> Seq<Renderable>
    decreases count,
{
    if count == 0 || count > text.len() {
        seq![]
    } else {
        let w = count - 1;
        let places = if w < rects.len() {
            rects[w]
        } else {
            seq![]
        };
        text_quads(text, rects, cache_size, w as nat) + word_quads(
            text[w],
            places,
            cache_size,
            text[w].word.glyphs.len(),
        )
    }
}

fn make_vertex(colour: Colour, cache_size: (u32, u32), x: i64, y: i64, u: u32, v: u32) -> (vertex:
    Vertex)
    ensures
        vertex == glyph_vertex(colour, cache_size, x as int, y as int, u, v),
{
    Vertex {
        position: Position { x, y, z: 0 },
        color: colour,
        tex_coords: TexCoords {
            u: Ratio { num: u as i64, den: cache_size.0 },
            v: Ratio { num: v as i64, den: cache_size.1 },
        },
    }
}

impl TextRenderer {
    /// A renderer for a glyph cache whose texture has the given size. The
    /// cache starts in generation zero.
    pub fn new(cache_width: u32, cache_height: u32) -> (renderer: TextRenderer)
        ensures
            renderer == (TextRenderer {
                cache_generation: 0,
                cache_size: (cache_width, cache_height),
            }),
    {
        TextRenderer { cache_generation: 0, cache_size: (cache_width, cache_height) }
    }

    /// The generation after the cache made room in the way `method`.
    pub open spec fn generation_after(&self, method: CachedBy) -> int {
        match method {
            CachedBy::Adding => self.cache_generation as int,
            CachedBy::Reordering => self.cache_generation + 1,
        }
    }

    /// Notes how the glyph cache made room for the glyphs of this frame.
    /// Where it moved or dropped glyphs, a new generation begins.
    pub fn cache_queued(&mut self, method: CachedBy)
        requires
            old(self).cache_generation < u64::MAX,
        ensures
            final(self).cache_generation == old(self).generation_after(method),
            final(self).cache_size == old(self).cache_size,
    {
        match method {
            CachedBy::Adding => {},
            CachedBy::Reordering => {
                self.cache_generation = self.cache_generation + 1;
            },
        }
    }

    /// Marks places that the cache gave just now with the current generation.
    pub fn capture(&self, rects: Vec<Vec<Option<GlyphRect>>>) -> (captured: GlyphRects)
        ensures
            captured.generation() == self.cache_generation,
            captured.rects() == rect_views(rects@),
    {
        GlyphRects { generation: self.cache_generation, rects }
    }

    /// Whether `rects` were taken in the current generation of the cache.
    pub fn is_current(&self, rects: &GlyphRects) -> (current: bool)
        ensures
            current == (rects.generation() == self.cache_generation),
    {
        rects.generation == self.cache_generation
    }

    /// The shapes that draw `text`, a list of words with the place of each:
    /// one shape for every glyph that has a place in `rects`. Places from an
    /// earlier generation of the cache are refused: then nothing is drawn.
    pub fn draw_text(&self, text: &Vec<PlacedWord>, rects: &GlyphRects) -> (items: Option<
        Vec<Renderable>,
    >)
        ensures
            items.is_some() == (rects.generation() == self.cache_generation),
            items.is_some() ==> items.unwrap()@ == text_quads(
                crate::multi_batch::word_views(text@),
                rects.rects(),
                self.cache_size,
                text@.len(),
            ),
    {
        if rects.generation != self.cache_generation {
            return None;
        }
        let ghost words = crate::multi_batch::word_views(text@);
        let ghost places = rect_views(rects.rects@);
        let mut items: Vec<Renderable> = Vec::new();
        let mut w: usize = 0;
        while w < text.len()
            invariant
                w <= text.len(),
                words == crate::multi_batch::word_views(text@),
                places == rect_views(rects.rects@),
                items@ == text_quads(words, places, self.cache_size, w as nat),
            decreases text.len() - w,
        {
            let placed = &text[w];
            let ghost word = words[w as int];
            let ghost so_far = items@;
            let ghost here = if w < places.len() {
                places[w as int]
            } else {
                seq![]
            };
            let mut g: usize = 0;
            while g < placed.word.glyphs.len()
                invariant
                    g <= placed.word.glyphs.len(),
                    w < text.len(),
                    placed == &text@[w as int],
                    word == placed@,
                    places == rect_views(rects.rects@),
                    here == (if w < places.len() {
                        places[w as int]
                    } else {
                        seq![]
                    }),
                    items@ == so_far + word_quads(word, here, self.cache_size, g as nat),
                decreases placed.word.glyphs.len() - g,
            {
                let found: Option<GlyphRect> = if w < rects.rects.len() && g
                    < rects.rects[w].len() {
                    rects.rects[w][g]
                } else {
                    None
                };
                assert(found == rect_of(here, g as int));
                match found {
                    Some(rect) => {
                        let glyph = placed.word.glyphs[g];
                        let baseline = placed.word.baseline as i64;
                        let x1: i64 = rect.pixel.min_x as i64 + placed.offset.x as i64;
                        let y1: i64 = -(rect.pixel.min_y as i64) - baseline - placed.offset.y as i64;
                        let x2: i64 = rect.pixel.max_x as i64 + placed.offset.x as i64;
                        let y2: i64 = -(rect.pixel.max_y as i64) - baseline - placed.offset.y as i64;
                        let size = self.cache_size;
                        let quad = Renderable::Quadrilateral(
                            make_vertex(glyph.colour, size, x1, y1, rect.uv.min_x, rect.uv.min_y),
                            make_vertex(glyph.colour, size, x2, y1, rect.uv.max_x, rect.uv.min_y),
                            make_vertex(glyph.colour, size, x2, y2, rect.uv.max_x, rect.uv.max_y),
                            make_vertex(glyph.colour, size, x1, y2, rect.uv.min_x, rect.uv.max_y),
                        );
                        items.push(quad);
                        proof {
                            let before = word_quads(word, here, self.cache_size, g as nat);
                            assert(quad == glyph_quad(
                                word.word.glyphs[g as int],
                                rect,
                                word.offset,
                                word.word.baseline,
                                self.cache_size,
                            ));
                            assert(so_far + before.push(quad) =~= (so_far + before).push(quad));
                        }
                    },
                    None => {},
                }
                g += 1;
            }
            w += 1;
        }
        Some(items)
    }
}

/// Places are good for one generation only. Places taken before the cache
/// moved its glyphs are refused afterwards: after a reordering, a text is
/// drawn only with places that were taken after it. Places taken before the
/// cache merely added glyphs stay good.
pub proof fn law_stale_places_are_refused(
    before: TextRenderer,
    after: TextRenderer,
    method: CachedBy,
    rects: GlyphRects,
)
    requires
        rects.generation() == before.cache_generation,
        after.cache_generation == before.generation_after(method),
    ensures
        method == CachedBy::Reordering ==> rects.generation() != after.cache_generation,
        method == CachedBy::Adding ==> rects.generation() == after.cache_generation,
{
}

} // verus!
