use qs_client::batch::{Position, Ratio, Renderable, TexCoords, Vertex};
use qs_client::colour::Colour;
use qs_client::geometry::Point;
use qs_client::multi_batch::PlacedWord;
use qs_client::text::{PositionedGlyph, RenderableGlyph, RenderableWord};
use qs_client::text_renderer::{CachedBy, GlyphRect, PixelRect, TexelRect, TextRenderer};

fn glyph(id: u16, colour: Colour) -> RenderableGlyph {
    RenderableGlyph { font: 1, colour, glyph: PositionedGlyph { id, scale: 24, x: 0 } }
}

fn rect(u: u32, x: i32) -> GlyphRect {
    GlyphRect {
        uv: TexelRect { min_x: u, min_y: 2 * u, max_x: u + 10, max_y: 2 * u + 20 },
        pixel: PixelRect { min_x: x, min_y: -15, max_x: x + 10, max_y: 5 },
    }
}

fn corner(colour: Colour, x: i64, y: i64, u: i64, v: i64) -> Vertex {
    Vertex {
        position: Position { x, y, z: 0 },
        color: colour,
        tex_coords: TexCoords { u: Ratio { num: u, den: 512 }, v: Ratio { num: v, den: 256 } },
    }
}

fn text() -> Vec<PlacedWord> {
    vec![
        PlacedWord {
            offset: Point { x: 100, y: 40 },
            word: RenderableWord {
                glyphs: vec![glyph(1, Colour::red()), glyph(2, Colour::blue())],
                size: (24, 26),
                baseline: 19,
            },
        },
        PlacedWord {
            offset: Point { x: -7, y: 0 },
            word: RenderableWord { glyphs: vec![glyph(3, Colour::white())], size: (12, 26), baseline: 19 },
        },
    ]
}

#[test]
fn new_renderer_starts_at_generation_zero() {
    let renderer = TextRenderer::new(512, 256);
    assert_eq!(renderer.cache_generation, 0);
    assert_eq!(renderer.cache_size, (512, 256));
}

#[test]
fn glyphs_are_drawn_where_the_cache_put_them() {
    let renderer = TextRenderer::new(512, 256);
    let rects = renderer.capture(vec![vec![Some(rect(30, 1)), None], vec![Some(rect(60, 0))]]);
    let items = renderer.draw_text(&text(), &rects).expect("the places are current");
    let red = Colour::red();
    let white = Colour::white();
    assert_eq!(
        items,
        vec![
            Renderable::Quadrilateral(
                corner(red, 101, 15 - 19 - 40, 30, 60),
                corner(red, 111, 15 - 19 - 40, 40, 60),
                corner(red, 111, -5 - 19 - 40, 40, 80),
                corner(red, 101, -5 - 19 - 40, 30, 80),
            ),
            Renderable::Quadrilateral(
                corner(white, -7, -4, 60, 120),
                corner(white, 3, -4, 70, 120),
                corner(white, 3, -24, 70, 140),
                corner(white, -7, -24, 60, 140),
            ),
        ]
    );
}

#[test]
fn glyphs_without_place_are_not_drawn() {
    let renderer = TextRenderer::new(512, 256);
    let none = renderer.capture(Vec::new());
    assert_eq!(renderer.draw_text(&text(), &none), Some(Vec::new()));
    let short = renderer.capture(vec![vec![None, Some(rect(0, 0)), Some(rect(5, 5))]]);
    assert_eq!(renderer.draw_text(&text(), &short).map(|items| items.len()), Some(1));
    assert_eq!(renderer.draw_text(&Vec::new(), &short), Some(Vec::new()));
}

#[test]
fn places_from_before_a_reordering_are_refused() {
    let mut renderer = TextRenderer::new(512, 256);
    let early = renderer.capture(vec![vec![Some(rect(30, 1)), None], vec![Some(rect(60, 0))]]);
    assert!(renderer.is_current(&early));
    renderer.cache_queued(CachedBy::Adding);
    assert_eq!(renderer.cache_generation, 0);
    assert!(renderer.is_current(&early));
    assert!(renderer.draw_text(&text(), &early).is_some());
    renderer.cache_queued(CachedBy::Reordering);
    assert_eq!(renderer.cache_generation, 1);
    assert!(!renderer.is_current(&early));
    assert_eq!(renderer.draw_text(&text(), &early), None);
    let late = renderer.capture(vec![vec![Some(rect(90, 1))]]);
    assert!(renderer.is_current(&late));
    assert_eq!(renderer.draw_text(&text(), &late).map(|items| items.len()), Some(1));
    renderer.cache_queued(CachedBy::Reordering);
    assert_eq!(renderer.cache_generation, 2);
    assert_eq!(renderer.draw_text(&text(), &late), None);
    assert_eq!(renderer.draw_text(&text(), &early), None);
}
