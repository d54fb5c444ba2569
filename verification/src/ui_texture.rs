//! An element that shows one texture.

use vstd::prelude::*;
use crate::assets::AssetHandle;
use crate::batch::{Position, Ratio, Renderable, TexCoords, Vertex};
use crate::colour::Colour;
use crate::geometry::{Layout, Point};
use crate::input::{ElementState, MouseButton, MouseInputProcessResult};
use crate::multi_batch::{MultiRenderable, RenderTree};
use crate::style::Dimensions;
use crate::widget::UiElement;

verus! {

/// Shows a whole texture, tinted, over the area that the layout gives.
#[derive(Debug, Copy, Clone, PartialEq, Eq, Structural)]
pub struct ImageWidget {
    pub size: Dimensions,
    pub colour: Colour,
    pub texture: AssetHandle,
}

/// The corner of an image at (`x`, `y`) that samples the texture at (`u`, `v`),
/// each of them 0 for the low and 1 for the high edge of the texture.
pub open spec fn spec_image_vertex(colour: Colour, x: int, y: int, u: int, v: int) -> Vertex {
    Vertex {
        position: Position { x: x as i64, y: y as i64, z: 0 },
        color: colour,
        tex_coords: TexCoords { u: Ratio { num: u as i64, den: 1 }, v: Ratio { num: v as i64, den: 1 } },
    }
}

/// The rectangle of `layout`, with the whole texture over it. The vertical
/// axis of the screen points up, that of the layout down.
pub open spec fn image_quad(colour: Colour, layout: Layout) -> Renderable {
    let x0 = layout.location.x as int;
    let y0 = -(layout.location.y as int);
    let x1 = layout.location.x + layout.size.width;
    let y1 = -(layout.location.y as int) - layout.size.height;
    Renderable::Quadrilateral(
        spec_image_vertex(colour, x0, y0, 0, 0),
        spec_image_vertex(colour, x1, y0, 1, 0),
        spec_image_vertex(colour, x1, y1, 1, 1),
        spec_image_vertex(colour, x0, y1, 0, 1),
    )
}

fn image_vertex(colour: Colour, x: i64, y: i64, u: i64, v: i64) -> (vertex: Vertex)
    ensures
        vertex == spec_image_vertex(colour, x as int, y as int, u as int, v as int),
{
    Vertex {
        position: Position { x, y, z: 0 },
        color: colour,
        tex_coords: TexCoords { u: Ratio { num: u, den: 1 }, v: Ratio { num: v, den: 1 } },
    }
}

impl UiElement for ImageWidget {
    open spec fn size(&self) -> Dimensions {
        self.size
    }

    fn get_size(&self) -> (size: Dimensions) {
        self.size
    }

    open spec fn render_info(&self, layout: Layout) -> RenderTree {
        RenderTree::Image { texture: self.texture, renderables: seq![image_quad(self.colour, layout)] }
    }

    fn generate_render_info(&self, layout: &Layout) -> (info: MultiRenderable) {
        let x0: i64 = layout.location.x as i64;
        let y0: i64 = -(layout.location.y as i64);
        let x1: i64 = layout.location.x as i64 + layout.size.width as i64;
        let y1: i64 = -(layout.location.y as i64) - layout.size.height as i64;
        let mut renderables: Vec<Renderable> = Vec::new();
        renderables.push(
            Renderable::Quadrilateral(
                image_vertex(self.colour, x0, y0, 0, 0),
                image_vertex(self.colour, x1, y0, 1, 0),
                image_vertex(self.colour, x1, y1, 1, 1),
                image_vertex(self.colour, x0, y1, 0, 1),
            ),
        );
        assert(renderables@ =~= seq![image_quad(self.colour, *layout)]);
        MultiRenderable::Image { texture: self.texture, renderables }
    }

    fn mouse_move(&mut self, pos: Point)
        ensures
            *final(self) == *old(self),
    {
    }

    fn process_mouse_input(&mut self, button: MouseButton, state: ElementState) -> (result:
        MouseInputProcessResult)
        ensures
            result == MouseInputProcessResult::NotProcessed,
            *final(self) == *old(self),
    {
        MouseInputProcessResult::NotProcessed
    }

    fn mouse_enter(&mut self)
        ensures
            *final(self) == *old(self),
    {
    }

    fn mouse_leave(&mut self)
        ensures
            *final(self) == *old(self),
    {
    }
}

} // verus!
