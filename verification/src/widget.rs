//! Widgets: a tree of elements that is laid out by flexbox rules and then
//! describes how to draw itself.

use vstd::prelude::*;
use crate::assets::AssetHandle;
use crate::batch::{Position, Ratio, Renderable, TexCoords, Vertex};
use crate::colour::Colour;
use crate::geometry::{clamp, Layout, Point};
use crate::input::{ElementState, MouseButton, MouseInputProcessResult};
use crate::multi_batch::{tree_of, MultiRenderable, RenderTree};
use crate::button::Button;
use crate::field::FieldElement;
use crate::style::{AvailableSize, Dimension, Dimensions, Style};
use crate::text::RenderableWord;
use crate::ui_texture::ImageWidget;

verus! {

/// Something in a user interface that has a size and can be drawn.
///
/// `size` and `render_info` say what `get_size` and `generate_render_info`
/// return: an element answers the same question the same way until it is
/// changed. An element that states nothing about itself leaves both as they
/// are: the widget then draws whatever the element hands out.
pub trait UiElement {
    /// The size that the element asks for.
    open spec fn size(&self) -> Dimensions {
        arbitrary()
    }

    /// When this element is laid out inside a widget, what should its size be?
    fn get_size(&self) -> (size: Dimensions)
        ensures
            size == self.size(),
    ;

    /// What drawing the element at `layout` comes to.
    open spec fn render_info(&self, layout: Layout) -> RenderTree {
        arbitrary()
    }

    /// Describes how to draw the element where the layout has put it.
    fn generate_render_info(&self, layout: &Layout) -> (info: MultiRenderable)
        ensures
            info@ == self.render_info(*layout),
    ;

    /// What a move of the cursor to `pos` may make of the element: whether
    /// the element may ask for `size` and draw `drawn` at `layout` once the
    /// cursor has moved. An element that states nothing about itself allows
    /// everything.
    open spec fn mouse_moved(&self, pos: Point, layout: Layout, size: Dimensions, drawn: RenderTree) -> bool {
        true
    }

    /// The cursor moved to `pos`, relative to the element.
    fn mouse_move(&mut self, pos: Point)
        ensures
            forall|layout: Layout| #[trigger]
                old(self).mouse_moved(
                    pos,
                    layout,
                    final(self).size(),
                    final(self).render_info(layout),
                ),
    ;

    /// A mouse button went down or came up over the element.
    fn process_mouse_input(&mut self, button: MouseButton, state: ElementState) -> MouseInputProcessResult;

    /// The cursor came onto the element.
    fn mouse_enter(&mut self);

    /// The cursor left the element.
    fn mouse_leave(&mut self);
}

/// The element that takes no room of its own and draws nothing.
impl UiElement for () {
    open spec fn size(&self) -> Dimensions {
        Dimensions::auto()
    }

    fn get_size(&self) -> (size: Dimensions) {
        Dimensions { width: Dimension::Auto, height: Dimension::Auto }
    }

    open spec fn render_info(&self, layout: Layout) -> RenderTree {
        RenderTree::Nothing
    }

    fn generate_render_info(&self, layout: &Layout) -> (info: MultiRenderable) {
        MultiRenderable::Nothing
    }

    fn mouse_move(&mut self, pos: Point) {
    }

    fn process_mouse_input(&mut self, button: MouseButton, state: ElementState) -> (result:
        MouseInputProcessResult)
        ensures
            result == MouseInputProcessResult::NotProcessed,
    {
        MouseInputProcessResult::NotProcessed
    }

    fn mouse_enter(&mut self) {
    }

    fn mouse_leave(&mut self) {
    }
}

/// The elements that a widget can hold: those of this library, and any other
/// behind `Custom`.
pub enum Element {
    /// Takes no room of its own and draws nothing.
    Empty,
    /// The box into which the words of a rich text are put.
    RichTextContainer,
    Word(RenderableWord),
    Image(ImageWidget),
    Button(Button),
    Field(FieldElement),
    Custom(Box<dyn UiElement>),
}

impl UiElement for Element {
    open spec fn size(&self) -> Dimensions {
        match self {
            Element::Empty => Dimensions::auto(),
            Element::RichTextContainer => Dimensions::auto(),
            Element::Word(word) => word.size(),
            Element::Image(image) => image.size(),
            Element::Button(button) => button.size(),
            Element::Field(field) => field.size(),
            Element::Custom(element) => element.size(),
        }
    }

    fn get_size(&self) -> (size: Dimensions) {
        match self {
            Element::Empty => Dimensions { width: Dimension::Auto, height: Dimension::Auto },
            Element::RichTextContainer => Dimensions {
                width: Dimension::Auto,
                height: Dimension::Auto,
            },
            Element::Word(word) => word.get_size(),
            Element::Image(image) => image.get_size(),
            Element::Button(button) => button.get_size(),
            Element::Field(field) => field.get_size(),
            Element::Custom(element) => element.get_size(),
        }
    }

    open spec fn render_info(&self, layout: Layout) -> RenderTree {
        match self {
            Element::Empty => RenderTree::Nothing,
            Element::RichTextContainer => RenderTree::Nothing,
            Element::Word(word) => word.render_info(layout),
            Element::Image(image) => image.render_info(layout),
            Element::Button(button) => button.render_info(layout),
            Element::Field(field) => field.render_info(layout),
            Element::Custom(element) => element.render_info(layout),
        }
    }

    fn generate_render_info(&self, layout: &Layout) -> (info: MultiRenderable) {
        match self {
            Element::Empty => MultiRenderable::Nothing,
            Element::RichTextContainer => MultiRenderable::Nothing,
            Element::Word(word) => word.generate_render_info(layout),
            Element::Image(image) => image.generate_render_info(layout),
            Element::Button(button) => button.generate_render_info(layout),
            Element::Field(field) => field.generate_render_info(layout),
            Element::Custom(element) => element.generate_render_info(layout),
        }
    }

    /// An element of the library asks for the same and draws the same
    /// after a move of the cursor as before it. A custom element says of
    /// itself what a move makes of it.
    open spec fn mouse_moved(&self, pos: Point, layout: Layout, size: Dimensions, drawn: RenderTree) -> bool {
        match self {
            Element::Custom(element) => element.mouse_moved(pos, layout, size, drawn),
            _ => size == self.size() && drawn == self.render_info(layout),
        }
    }

    /// Hands the event to what the element holds. Elements of the library
    /// do nothing with it; a custom element is told of the move, and is
    /// afterwards what it says a move makes of it.
    fn mouse_move(&mut self, pos: Point)
        ensures
            !(*old(self) is Custom) ==> *final(self) == *old(self),
            *old(self) is Custom ==> *final(self) is Custom,
    {
        match self {
            Element::Custom(element) => element.mouse_move(pos),
            _ => {},
        }
    }

    /// Hands the event to what the element holds. A button and a field
    /// answer as they say of themselves; words, images and containers leave
    /// the event to others.
    fn process_mouse_input(&mut self, button: MouseButton, state: ElementState) -> (result:
        MouseInputProcessResult)
        ensures
            old(self).answer_to(button, state).is_some() ==> result == old(self).answer_to(
                button,
                state,
            ).unwrap(),
            old(self).is_passive() || *old(self) is Field ==> *final(self) == *old(self),
            *old(self) matches Element::Button(before) ==> *final(self) matches Element::Button(
                after,
            ) && after.state == before.state_after_input(button, state) && after.style
                == before.style && after.disabled == before.disabled && after.clicks == (if before.clicks_on(
                button,
                state,
            ) && before.clicks < u64::MAX {
                (before.clicks + 1) as u64
            } else {
                before.clicks
            }),
    {
        match self {
            Element::Button(b) => b.process_mouse_input(button, state),
            Element::Field(field) => field.process_mouse_input(button, state),
            Element::Custom(element) => element.process_mouse_input(button, state),
            _ => MouseInputProcessResult::NotProcessed,
        }
    }

    /// Hands the event to what the element holds. Only a button reacts.
    fn mouse_enter(&mut self)
        ensures
            old(self).is_passive() || *old(self) is Field ==> *final(self) == *old(self),
            *old(self) matches Element::Button(before) ==> *final(self) == Element::Button(
                Button { state: before.state_after_enter(), ..before },
            ),
    {
        match self {
            Element::Button(button) => button.mouse_enter(),
            Element::Custom(element) => element.mouse_enter(),
            _ => {},
        }
    }

    /// Hands the event to what the element holds. Only a button reacts.
    fn mouse_leave(&mut self)
        ensures
            old(self).is_passive() || *old(self) is Field ==> *final(self) == *old(self),
            *old(self) matches Element::Button(before) ==> *final(self) == Element::Button(
                Button { state: before.state_after_leave(), ..before },
            ),
    {
        match self {
            Element::Button(button) => button.mouse_leave(),
            Element::Custom(element) => element.mouse_leave(),
            _ => {},
        }
    }
}

impl Element {
    /// Whether the element takes no part in input: it leaves every event
    /// to others and stays as it is.
    pub open spec fn is_passive(&self) -> bool {
        self is Empty || self is RichTextContainer || self is Word || self is Image
    }

    /// What the element answers to a mouse button event, where the element
    /// says so of itself.
    pub open spec fn answer_to(&self, button: MouseButton, state: ElementState) -> Option<
        MouseInputProcessResult,
    > {
        match self {
            Element::Button(b) => Some(b.answer_to(button, state)),
            Element::Field(_) => Some(FieldElement::answer_to(button, state)),
            Element::Custom(_) => None,
            _ => Some(MouseInputProcessResult::NotProcessed),
        }
    }
}

/// What a widget holds.
pub struct WidgetContents {
    pub element: Element,
    /// The widgets laid out inside this one, side by side by flexbox rules.
    pub children: Vec<Widget>,
    /// Elements drawn behind this one, in layers, with the same layout.
    pub backgrounds: Vec<Element>,
    /// Where the layout put the widget. `None` until the first layout.
    pub layout: Option<Layout>,
    pub style: Style,
    /// Set when the widget changed so that the layout is out of date.
    pub needs_layout: bool,
    /// Whether the cursor was over the widget when it moved last.
    pub hovered: bool,
}

/// An element together with the widgets laid out inside it.
pub struct Widget(pub WidgetContents);

/// The thickness of the lines that are drawn around a widget for debugging.
pub const DEBUG_LINE_SIZE: i64 = 1;

/// A white vertex of a debug line.
pub open spec fn spec_line_vertex(x: int, y: int) -> Vertex {
    Vertex {
        position: Position { x: x as i64, y: y as i64, z: 0 },
        color: Colour::spec_white(),
        tex_coords: TexCoords { u: Ratio { num: 0, den: 1 }, v: Ratio { num: 0, den: 1 } },
    }
}

/// A white quadrilateral with the given corners.
pub open spec fn spec_line_quad(
    ax: int,
    ay: int,
    bx: int,
    by: int,
    cx: int,
    cy: int,
    dx: int,
    dy: int,
) -> Renderable {
    Renderable::Quadrilateral(
        spec_line_vertex(ax, ay),
        spec_line_vertex(bx, by),
        spec_line_vertex(cx, cy),
        spec_line_vertex(dx, dy),
    )
}

/// Four lines around `layout`: at its left, its right, its top and its
/// bottom edge. The vertical axis of the screen points up, that of the layout
/// down, so vertical positions change sign.
pub open spec fn debug_lines(layout: Layout) -> Seq<Renderable> {
    let x0 = layout.location.x as int;
    let y0 = -(layout.location.y as int);
    let x1 = layout.location.x + layout.size.width;
    let y1 = -(layout.location.y as int) - layout.size.height;
    let t = DEBUG_LINE_SIZE as int;
    seq![
        spec_line_quad(x0, y0, x0 + t, y0, x0 + t, y1, x0, y1),
        spec_line_quad(x1, y0, x1 - t, y0, x1 - t, y1, x1, y1),
        spec_line_quad(x0, y0, x0, y0 + t, x1, y0 + t, x1, y0),
        spec_line_quad(x0, y1, x0, y1 - t, x1, y1 - t, x1, y1),
    ]
}

/// What drawing the widget `w` comes to, with `offset` added to its place.
///
/// A widget without a layout draws nothing. Else its own element, its
/// children and, if asked for, its debug lines stand side by side; where the
/// widget has backgrounds, they come first as layers of their own and the
/// rest is the last layer.
pub open spec fn render_tree(w: Widget, offset: Point, debug: Option<AssetHandle>) -> RenderTree
    decreases w,
{
    match w.0.layout {
        None => RenderTree::Nothing,
        Some(own_layout) => {
            let layout = own_layout.spec_translated(offset);
            let own = seq![w.0.element.render_info(layout)];
            let children = Seq::new(
                w.0.children.len() as nat,
                |i: int|
                    if 0 <= i < w.0.children.len() {
                        render_tree(w.0.children[i], layout.location, debug)
                    } else {
                        RenderTree::Nothing
                    },
            );
            let lines = match debug {
                Some(texture) => seq![
                    RenderTree::Image { texture, renderables: debug_lines(layout) },
                ],
                None => seq![],
            };
            let renderable = RenderTree::Adjacent(own + children + lines);
            if w.0.backgrounds.len() == 0 {
                renderable
            } else {
                RenderTree::Layered(
                    Seq::new(
                        w.0.backgrounds.len() as nat,
                        |i: int| w.0.backgrounds[i].render_info(layout),
                    ).push(renderable),
                )
            }
        },
    }
}

fn line_vertex(x: i64, y: i64) -> (v: Vertex)
    ensures
        v == spec_line_vertex(x as int, y as int),
{
    Vertex {
        position: Position { x, y, z: 0 },
        color: Colour::white(),
        tex_coords: TexCoords { u: Ratio { num: 0, den: 1 }, v: Ratio { num: 0, den: 1 } },
    }
}

fn line_quad(ax: i64, ay: i64, bx: i64, by: i64, cx: i64, cy: i64, dx: i64, dy: i64) -> (r:
    Renderable)
    ensures
        r == spec_line_quad(
            ax as int,
            ay as int,
            bx as int,
            by as int,
            cx as int,
            cy as int,
            dx as int,
            dy as int,
        ),
{
    Renderable::Quadrilateral(
        line_vertex(ax, ay),
        line_vertex(bx, by),
        line_vertex(cx, cy),
        line_vertex(dx, dy),
    )
}

/// The four debug lines around `layout`.
pub fn generate_debug_lines(layout: &Layout) -> (lines: Vec<Renderable>)
    ensures
        lines@ == debug_lines(*layout),
{
    let x0: i64 = layout.location.x as i64;
    let y0: i64 = -(layout.location.y as i64);
    let x1: i64 = layout.location.x as i64 + layout.size.width as i64;
    let y1: i64 = -(layout.location.y as i64) - layout.size.height as i64;
    let t: i64 = DEBUG_LINE_SIZE;
    let mut lines: Vec<Renderable> = Vec::new();
    lines.push(line_quad(x0, y0, x0 + t, y0, x0 + t, y1, x0, y1));
    lines.push(line_quad(x1, y0, x1 - t, y0, x1 - t, y1, x1, y1));
    lines.push(line_quad(x0, y0, x0, y0 + t, x1, y0 + t, x1, y0));
    lines.push(line_quad(x0, y1, x0, y1 - t, x1, y1 - t, x1, y1));
    assert(lines@ =~= debug_lines(*layout));
    lines
}

impl WidgetContents {
    /// The style that the layout works with: the style of the widget, with
    /// the size that its element asks for.
    pub open spec fn spec_style(&self) -> Style {
        self.style.spec_with_size(self.element.size())
    }

    /// The style of the widget with the size that its element asks for.
    pub fn get_style(&self) -> (style: Style)
        ensures
            style == self.spec_style(),
    {
        self.style.with_size(self.element.get_size())
    }

    /// Asks for a new layout before the user interface is drawn next.
    pub fn force_layout(&mut self)
        ensures
            final(self).needs_layout,
            final(self).element == old(self).element,
            final(self).children == old(self).children,
            final(self).backgrounds == old(self).backgrounds,
            final(self).layout == old(self).layout,
            final(self).style == old(self).style,
            final(self).hovered == old(self).hovered,
    {
        self.needs_layout = true;
    }

    /// Adds `widget` behind the other children and asks for a new layout.
    pub fn add_child(&mut self, widget: Widget)
        ensures
            final(self).children@ == old(self).children@.push(widget),
            final(self).needs_layout,
            final(self).element == old(self).element,
            final(self).backgrounds == old(self).backgrounds,
            final(self).layout == old(self).layout,
            final(self).style == old(self).style,
    {
        self.children.push(widget);
        self.force_layout();
    }

    /// Removes all children and asks for a new layout.
    pub fn clear_children(&mut self)
        ensures
            final(self).children@ == Seq::<Widget>::empty(),
            final(self).needs_layout,
            final(self).element == old(self).element,
            final(self).backgrounds == old(self).backgrounds,
            final(self).layout == old(self).layout,
            final(self).style == old(self).style,
    {
        self.children.clear();
        self.force_layout();
    }
}

impl Widget {
    /// A widget that has not been laid out yet.
    pub fn new(
        element: Element,
        children: Vec<Widget>,
        backgrounds: Vec<Element>,
        style: Style,
    ) -> (widget: Widget)
        ensures
            widget.0.element == element,
            widget.0.children == children,
            widget.0.backgrounds == backgrounds,
            widget.0.layout.is_none(),
            widget.0.style == style,
            widget.0.needs_layout,
            !widget.0.hovered,
    {
        Widget(
            WidgetContents {
                element,
                children,
                backgrounds,
                layout: None,
                style,
                needs_layout: true,
                hovered: false,
            },
        )
    }

    /// Describes how to draw this widget and all inside it, `offset` added
    /// to the place that the layout gave. With a `debug_line_texture`, lines
    /// are drawn around every widget with that texture.
    pub fn generate_render_info(&self, offset: Point, debug_line_texture: Option<AssetHandle>) -> (info:
        MultiRenderable)
        ensures
            info@ == render_tree(*self, offset, debug_line_texture),
        decreases self,
    {
        let own_layout = match self.0.layout {
            Some(layout) => layout,
            None => {
                return MultiRenderable::Nothing;
            },
        };
        let layout = own_layout.translated(offset);
        let ghost own = seq![self.0.element.render_info(layout)];
        let ghost children = Seq::new(
            self.0.children.len() as nat,
            |i: int|
                if 0 <= i < self.0.children.len() {
                    render_tree(self.0.children[i], layout.location, debug_line_texture)
                } else {
                    RenderTree::Nothing
                },
        );
        let ghost lines = match debug_line_texture {
            Some(texture) => seq![RenderTree::Image { texture, renderables: debug_lines(layout) }],
            None => seq![],
        };
        let ghost expected = own + children + lines;
        let mut items: Vec<MultiRenderable> = Vec::new();
        items.push(self.0.element.generate_render_info(&layout));
        let mut k: usize = 0;
        while k < self.0.children.len()
            invariant
                k <= self.0.children.len(),
                items@.len() == 1 + k,
                expected == own + children + lines,
                own.len() == 1,
                children.len() == self.0.children.len(),
                forall|i: int|
                    0 <= i < self.0.children.len() ==> children[i] == render_tree(
                        self.0.children[i],
                        layout.location,
                        debug_line_texture,
                    ),
                forall|i: int| 0 <= i < items@.len() ==> tree_of(#[trigger] items@[i]) == expected[i],
            decreases self.0.children.len() - k,
        {
            proof {
                vstd::std_specs::vec::axiom_vec_index_decreases(self.0.children, k as int);
            }
            let child = self.0.children[k].generate_render_info(layout.location, debug_line_texture);
            items.push(child);
            k += 1;
        }
        match debug_line_texture {
            Some(texture) => {
                items.push(
                    MultiRenderable::Image { texture, renderables: generate_debug_lines(&layout) },
                );
            },
            None => {},
        }
        assert(items@.len() == expected.len());
        assert forall|i: int| 0 <= i < items@.len() implies tree_of(#[trigger] items@[i])
            == expected[i] by {
            if i == 1 + self.0.children.len() {
                assert(expected[i] == lines[0]);
            }
        }
        let renderable = MultiRenderable::Adjacent(items);
        assert(renderable@ is Adjacent);
        assert(renderable@->Adjacent_0.len() == expected.len());
        assert forall|i: int| 0 <= i < expected.len() implies renderable@->Adjacent_0[i]
            == expected[i] by {
            assert(renderable@->Adjacent_0[i] == tree_of(items@[i]));
        }
        assert(renderable@->Adjacent_0 =~= expected);
        let ghost whole = render_tree(*self, offset, debug_line_texture);
        if self.0.backgrounds.len() == 0 {
            assert(whole is Adjacent);
            assert(whole->Adjacent_0 =~= expected);
            renderable
        } else {
            let ghost behind = Seq::new(
                self.0.backgrounds.len() as nat,
                |i: int| self.0.backgrounds[i].render_info(layout),
            );
            let mut layers: Vec<MultiRenderable> = Vec::new();
            let mut b: usize = 0;
            while b < self.0.backgrounds.len()
                invariant
                    b <= self.0.backgrounds.len(),
                    layers@.len() == b,
                    behind.len() == self.0.backgrounds.len(),
                    forall|i: int|
                        0 <= i < self.0.backgrounds.len() ==> behind[i]
                            == self.0.backgrounds[i].render_info(layout),
                    forall|i: int| 0 <= i < layers@.len() ==> tree_of(#[trigger] layers@[i]) == behind[i],
                decreases self.0.backgrounds.len() - b,
            {
                layers.push(self.0.backgrounds[b].generate_render_info(&layout));
                b += 1;
            }
            layers.push(renderable);
            let layered = MultiRenderable::Layered(layers);
            assert(layered@->Layered_0 =~= behind.push(renderable@));
            assert(whole is Layered);
            assert(whole->Layered_0.len() == behind.len() + 1);
            assert(whole->Layered_0.last() is Adjacent);
            assert(whole->Layered_0.last()->Adjacent_0 =~= expected);
            assert(whole->Layered_0 =~= behind.push(renderable@));
            layered
        }
    }
}

/// The style of a widget and of all widgets inside it, as the layout needs them.
#[derive(Debug, PartialEq, Eq)]
pub struct WidgetStyle {
    pub style: Style,
    pub children: Vec<WidgetStyle>,
}

/// A [`WidgetStyle`] as a mathematical value.
pub struct StyleTree {
    pub style: Style,
    pub children: Seq<StyleTree>,
}

/// The mathematical value of a tree of styles.
pub open spec fn style_tree_of(styles: WidgetStyle) -> StyleTree
    decreases styles,
{
    StyleTree {
        style: styles.style,
        children: Seq::new(
            styles.children.len() as nat,
            |i: int|
                if 0 <= i < styles.children.len() {
                    style_tree_of(styles.children[i])
                } else {
                    StyleTree { style: Style::spec_default(), children: seq![] }
                },
        ),
    }
}

impl View for WidgetStyle {
    type V = StyleTree;

    open spec fn view(&self) -> StyleTree {
        style_tree_of(*self)
    }
}

/// The styles of `w` and of all widgets inside it.
pub open spec fn styles_of(w: Widget) -> StyleTree
    decreases w,
{
    StyleTree {
        style: w.0.spec_style(),
        children: Seq::new(
            w.0.children.len() as nat,
            |i: int|
                if 0 <= i < w.0.children.len() {
                    styles_of(w.0.children[i])
                } else {
                    StyleTree { style: Style::spec_default(), children: seq![] }
                },
        ),
    }
}

/// How many widgets `w` is made of, itself included.
pub open spec fn node_count(w: Widget) -> nat
    decreases w, 0nat,
{
    node_count_first(w.0.children, w.0.children.len() as nat) + 1
}

/// How many widgets the first `count` of `widgets` are made of.
pub open spec fn node_count_first(widgets: Vec<Widget>, count: nat) -> nat
    decreases widgets, count,
{
    if count == 0 || count > widgets.len() {
        0
    } else {
        node_count_first(widgets, (count - 1) as nat) + node_count(widgets[count - 1])
    }
}

/// Whether `after` is `before` laid out with `layouts`: nothing changed but
/// the layouts, and every widget took its own. The widgets are numbered from
/// `start` on, the children of a widget first and in order, the widget itself
/// after them.
pub open spec fn laid_out(before: Widget, after: Widget, layouts: Seq<Layout>, start: int) -> bool
    decreases before,
{
    &&& after.0.element == before.0.element
    &&& after.0.backgrounds == before.0.backgrounds
    &&& after.0.style == before.0.style
    &&& after.0.hovered == before.0.hovered
    &&& !after.0.needs_layout
    &&& after.0.layout == Some(layouts[start + node_count(before) - 1])
    &&& after.0.children.len() == before.0.children.len()
    &&& forall|k: int|
        0 <= k < before.0.children.len() && #[trigger] is_child(k) ==> laid_out(
            before.0.children[k],
            after.0.children[k],
            layouts,
            start + node_count_first(before.0.children, k as nat),
        )
}

/// Marks `k` as the number of a child. It holds of every number.
pub open spec fn is_child(k: int) -> bool {
    true
}

proof fn lemma_node_count_first_grows(widgets: Vec<Widget>, low: nat, high: nat)
    requires
        low <= high <= widgets.len(),
    ensures
        node_count_first(widgets, low) <= node_count_first(widgets, high),
    decreases high,
{
    if low < high {
        lemma_node_count_first_grows(widgets, low, (high - 1) as nat);
    }
}

impl Widget {
    /// Gathers the style of this widget and of all widgets inside it.
    pub fn generate_styles(&self) -> (styles: WidgetStyle)
        ensures
            styles@ == styles_of(*self),
        decreases self,
    {
        let style = self.0.get_style();
        let mut children: Vec<WidgetStyle> = Vec::new();
        let mut k: usize = 0;
        while k < self.0.children.len()
            invariant
                k <= self.0.children.len(),
                children@.len() == k,
                forall|i: int|
                    0 <= i < k ==> style_tree_of(#[trigger] children@[i]) == styles_of(
                        self.0.children[i],
                    ),
            decreases self.0.children.len() - k,
        {
            proof {
                vstd::std_specs::vec::axiom_vec_index_decreases(self.0.children, k as int);
            }
            children.push(self.0.children[k].generate_styles());
            k += 1;
        }
        let styles = WidgetStyle { style, children };
        assert(styles@.children =~= styles_of(*self).children);
        styles
    }

    /// Takes the layouts of this widget and of all widgets inside it from
    /// `layouts`, where they stand from `start` on.
    pub fn apply_layouts(&mut self, layouts: &Vec<Layout>, start: usize) -> (next: usize)
        requires
            start + node_count(*old(self)) <= layouts.len(),
        ensures
            laid_out(*old(self), *final(self), layouts@, start as int),
            next == start + node_count(*old(self)),
        decreases *old(self),
    {
        let mut next = start;
        let mut k: usize = 0;
        while k < self.0.children.len()
            invariant
                k <= self.0.children.len(),
                start + node_count(*old(self)) <= layouts.len(),
                self.0.element == old(self).0.element,
                self.0.backgrounds == old(self).0.backgrounds,
                self.0.style == old(self).0.style,
                self.0.hovered == old(self).0.hovered,
                self.0.children.len() == old(self).0.children.len(),
                next == start + node_count_first(old(self).0.children, k as nat),
                forall|i: int|
                    0 <= i < k && #[trigger] is_child(i) ==> laid_out(
                        old(self).0.children[i],
                        self.0.children[i],
                        layouts@,
                        start + node_count_first(old(self).0.children, i as nat),
                    ),
                forall|i: int|
                    k <= i < self.0.children.len() ==> self.0.children[i] == old(self).0.children[i],
            decreases self.0.children.len() - k,
        {
            proof {
                vstd::std_specs::vec::axiom_vec_index_decreases(old(self).0.children, k as int);
                lemma_node_count_first_grows(
                    old(self).0.children,
                    (k + 1) as nat,
                    old(self).0.children.len() as nat,
                );
            }
            let child = &mut self.0.children[k];
            next = child.apply_layouts(layouts, next);
            k += 1;
        }
        let ghost children = self.0.children;
        self.0.layout = Some(layouts[next]);
        self.0.needs_layout = false;
        proof {
            assert(self.0.children == children);
            assert(next == start + node_count(*old(self)) - 1);
            assert(self.0.layout == Some(layouts@[start + node_count(*old(self)) - 1]));
            assert(laid_out(*old(self), *self, layouts@, start as int));
        }
        next + 1
    }
}

/// One node for the flexbox solver: its style, and which nodes are its children.
#[derive(Debug, PartialEq, Eq)]
pub struct StyleNode {
    pub style: Style,
    /// The places of the children in the list of nodes, in order.
    pub children: Vec<usize>,
}

/// A [`StyleNode`] as a mathematical value.
pub struct StyleNodeView {
    pub style: Style,
    pub children: Seq<int>,
}

impl View for StyleNode {
    type V = StyleNodeView;

    open spec fn view(&self) -> StyleNodeView {
        StyleNodeView { style: self.style, children: self.children@.map_values(|c: usize| c as int) }
    }
}

/// The views of a list of nodes.
pub open spec fn node_views(nodes: Seq<StyleNode>) -> Seq<StyleNodeView> {
    nodes.map_values(|n: StyleNode| n@)
}

/// The list of nodes after the nodes of `tree` were put behind `nodes`: the
/// nodes of each child in order, then the node of `tree` itself, which names
/// the last node of each child as its children.
pub open spec fn nodes_after(nodes: Seq<StyleNodeView>, tree: StyleTree) -> Seq<StyleNodeView>
    decreases tree, 0nat,
{
    nodes_after_first(nodes, tree.children, tree.children.len()).push(
        StyleNodeView {
            style: tree.style,
            children: Seq::new(
                tree.children.len(),
                |k: int| nodes_after_first(nodes, tree.children, (k + 1) as nat).len() - 1,
            ),
        },
    )
}

/// The list of nodes after the nodes of the first `count` of `trees` were put
/// behind `nodes`.
pub open spec fn nodes_after_first(nodes: Seq<StyleNodeView>, trees: Seq<StyleTree>, count: nat) -> Seq<
    StyleNodeView,
>
    decreases trees, count,
{
    if count == 0 || count > trees.len() {
        nodes
    } else {
        nodes_after(nodes_after_first(nodes, trees, (count - 1) as nat), trees[count - 1])
    }
}

/// The nodes of `tree` for the flexbox solver, children before parents; the
/// last node is the root.
pub open spec fn nodes_of(tree: StyleTree) -> Seq<StyleNodeView> {
    nodes_after(seq![], tree)
}

/// Puts the nodes of `styles` behind `nodes` and returns the place of the
/// node of `styles` itself, which is the last.
pub fn generate_nodes(styles: &WidgetStyle, nodes: &mut Vec<StyleNode>) -> (root: usize)
    ensures
        node_views(final(nodes)@) == nodes_after(node_views(old(nodes)@), styles@),
        root == final(nodes)@.len() - 1,
    decreases styles,
{
    let ghost start = node_views(nodes@);
    let ghost tree = styles@;
    let mut children: Vec<usize> = Vec::new();
    let mut k: usize = 0;
    while k < styles.children.len()
        invariant
            k <= styles.children.len(),
            tree == styles@,
            tree.children.len() == styles.children.len(),
            children@.len() == k,
            node_views(nodes@) == nodes_after_first(start, tree.children, k as nat),
            forall|i: int|
                0 <= i < k ==> children@[i] == nodes_after_first(
                    start,
                    tree.children,
                    (i + 1) as nat,
                ).len() - 1,
        decreases styles.children.len() - k,
    {
        proof {
            vstd::std_specs::vec::axiom_vec_index_decreases(styles.children, k as int);
            assert(tree.children[k as int] == styles.children[k as int]@);
        }
        let child = generate_nodes(&styles.children[k], nodes);
        proof {
            assert(node_views(nodes@).len() == nodes@.len());
        }
        children.push(child);
        k += 1;
    }
    let ghost before = nodes@;
    let node = StyleNode { style: styles.style, children };
    nodes.push(node);
    proof {
        assert(node_views(nodes@) =~= node_views(before).push(node@));
        assert(node@.children =~= Seq::new(
            tree.children.len(),
            |k: int| nodes_after_first(start, tree.children, (k + 1) as nat).len() - 1,
        ));
        assert(node@.style == tree.style);
        let expected = nodes_after(start, tree);
        assert(expected.last().children =~= node@.children);
        assert(expected.last() == node@);
        assert(expected =~= node_views(nodes@));
    }
    nodes.len() - 1
}

proof fn lemma_nodes_count(nodes: Seq<StyleNodeView>, w: Widget)
    ensures
        nodes_after(nodes, styles_of(w)).len() == nodes.len() + node_count(w),
    decreases w, w.0.children.len() + 1,
{
    lemma_nodes_count_first(nodes, w, w.0.children.len() as nat);
}

proof fn lemma_nodes_count_first(nodes: Seq<StyleNodeView>, w: Widget, count: nat)
    requires
        count <= w.0.children.len(),
    ensures
        nodes_after_first(nodes, styles_of(w).children, count).len() == nodes.len()
            + node_count_first(w.0.children, count),
    decreases w, count,
{
    if count > 0 {
        lemma_nodes_count_first(nodes, w, (count - 1) as nat);
        let before = nodes_after_first(nodes, styles_of(w).children, (count - 1) as nat);
        assert(styles_of(w).children[count - 1] == styles_of(w.0.children[count - 1]));
        lemma_nodes_count(before, w.0.children[count - 1]);
    }
}

proof fn lemma_nodes_stay(nodes: Seq<StyleNodeView>, tree: StyleTree, i: int)
    requires
        0 <= i < nodes.len(),
    ensures
        nodes_after(nodes, tree).len() > nodes.len(),
        nodes_after(nodes, tree)[i] == nodes[i],
    decreases tree, tree.children.len() + 1,
{
    lemma_nodes_stay_first(nodes, tree.children, tree.children.len(), i);
}

proof fn lemma_nodes_stay_first(nodes: Seq<StyleNodeView>, trees: Seq<StyleTree>, count: nat, i: int)
    requires
        0 <= i < nodes.len(),
    ensures
        nodes_after_first(nodes, trees, count).len() >= nodes.len(),
        nodes_after_first(nodes, trees, count)[i] == nodes[i],
    decreases trees, count,
{
    if count == 0 || count > trees.len() {
    } else {
        lemma_nodes_stay_first(nodes, trees, (count - 1) as nat, i);
        lemma_nodes_stay(nodes_after_first(nodes, trees, (count - 1) as nat), trees[count - 1], i);
    }
}

/// Whether every widget of `w` finds its style in `nodes` at the place at
/// which it takes its layout: the widgets numbered from `start` on, the
/// children of a widget first and in order, the widget itself after them.
pub open spec fn styled_as(w: Widget, nodes: Seq<StyleNodeView>, start: int) -> bool
    decreases w,
{
    &&& 0 <= start + node_count(w) - 1 < nodes.len()
    &&& nodes[start + node_count(w) - 1].style == w.0.spec_style()
    &&& forall|k: int|
        0 <= k < w.0.children.len() && #[trigger] is_child(k) ==> styled_as(
            w.0.children[k],
            nodes,
            start + node_count_first(w.0.children, k as nat),
        )
}

proof fn lemma_styled_stays(w: Widget, nodes: Seq<StyleNodeView>, more: Seq<StyleNodeView>, start: int)
    requires
        styled_as(w, nodes, start),
        start >= 0,
        more.len() >= nodes.len(),
        forall|i: int| 0 <= i < nodes.len() ==> more[i] == nodes[i],
    ensures
        styled_as(w, more, start),
    decreases w,
{
    assert forall|k: int| 0 <= k < w.0.children.len() && #[trigger] is_child(k) implies styled_as(
        w.0.children[k],
        more,
        start + node_count_first(w.0.children, k as nat),
    ) by {
        lemma_styled_stays(
            w.0.children[k],
            nodes,
            more,
            start + node_count_first(w.0.children, k as nat),
        );
    }
}

proof fn lemma_nodes_are_styled(nodes: Seq<StyleNodeView>, w: Widget)
    ensures
        styled_as(w, nodes_after(nodes, styles_of(w)), nodes.len() as int),
    decreases w, w.0.children.len() + 1,
{
    let tree = styles_of(w);
    let n = w.0.children.len() as nat;
    lemma_nodes_are_styled_first(nodes, w, n);
    lemma_nodes_count_first(nodes, w, n);
    let inner = nodes_after_first(nodes, tree.children, n);
    let all = nodes_after(nodes, tree);
    assert forall|k: int| 0 <= k < w.0.children.len() && #[trigger] is_child(k) implies styled_as(
        w.0.children[k],
        all,
        (nodes.len() + node_count_first(w.0.children, k as nat)) as int,
    ) by {
        lemma_styled_stays(
            w.0.children[k],
            inner,
            all,
            (nodes.len() + node_count_first(w.0.children, k as nat)) as int,
        );
    }
}

proof fn lemma_nodes_are_styled_first(nodes: Seq<StyleNodeView>, w: Widget, count: nat)
    requires
        count <= w.0.children.len(),
    ensures
        forall|k: int|
            0 <= k < count && #[trigger] is_child(k) ==> styled_as(
                w.0.children[k],
                nodes_after_first(nodes, styles_of(w).children, count),
                (nodes.len() + node_count_first(w.0.children, k as nat)) as int,
            ),
    decreases w, count,
{
    if count > 0 {
        let trees = styles_of(w).children;
        let before = nodes_after_first(nodes, trees, (count - 1) as nat);
        let all = nodes_after_first(nodes, trees, count);
        lemma_nodes_are_styled_first(nodes, w, (count - 1) as nat);
        lemma_nodes_count_first(nodes, w, (count - 1) as nat);
        assert(trees[count - 1] == styles_of(w.0.children[count - 1]));
        lemma_nodes_are_styled(before, w.0.children[count - 1]);
        assert forall|k: int| 0 <= k < count && #[trigger] is_child(k) implies styled_as(
            w.0.children[k],
            all,
            (nodes.len() + node_count_first(w.0.children, k as nat)) as int,
        ) by {
            if k < count - 1 {
                assert forall|i: int| 0 <= i < before.len() implies all[i] == before[i] by {
                    lemma_nodes_stay(before, trees[count - 1], i);
                }
                lemma_nodes_grow(before, trees[count - 1]);
                lemma_styled_stays(
                    w.0.children[k],
                    before,
                    all,
                    (nodes.len() + node_count_first(w.0.children, k as nat)) as int,
                );
            }
        }
    }
}

proof fn lemma_nodes_grow(nodes: Seq<StyleNodeView>, tree: StyleTree)
    ensures
        nodes_after(nodes, tree).len() > nodes.len(),
    decreases tree, tree.children.len() + 1,
{
    lemma_nodes_grow_first(nodes, tree.children, tree.children.len());
}

proof fn lemma_nodes_grow_first(nodes: Seq<StyleNodeView>, trees: Seq<StyleTree>, count: nat)
    ensures
        nodes_after_first(nodes, trees, count).len() >= nodes.len(),
    decreases trees, count,
{
    if count == 0 || count > trees.len() {
    } else {
        lemma_nodes_grow_first(nodes, trees, (count - 1) as nat);
        lemma_nodes_grow(nodes_after_first(nodes, trees, (count - 1) as nat), trees[count - 1]);
    }
}

/// Nodes and layouts pair up. The node that the solver gets at a place holds
/// the style of the very widget that takes the layout at that place: a
/// layout that answers a node goes to the widget that the node stands for.
pub proof fn law_layouts_answer_nodes(w: Widget, after: Widget, layouts: Seq<Layout>)
    requires
        laid_out(w, after, layouts, 0),
    ensures
        styled_as(w, nodes_of(styles_of(w)), 0),
        nodes_of(styles_of(w)).len() == node_count(w),
        nodes_of(styles_of(w))[node_count(w) - 1].style == w.0.spec_style(),
        after.0.layout == Some(layouts[node_count(w) - 1]),
{
    lemma_nodes_are_styled(seq![], w);
    lemma_nodes_count(seq![], w);
}

/// The flexbox solver gets one node for every widget, in the order in which
/// the widgets take their layouts back: the list of nodes of a widget is as
/// long as the widget has widgets.
pub proof fn law_one_node_for_every_widget(w: Widget)
    ensures
        nodes_of(styles_of(w)).len() == node_count(w),
{
    lemma_nodes_count(seq![], w);
}

impl Widget {
    /// How many widgets this widget is made of, itself included; `None`
    /// where they are more than can be counted.
    pub fn count_nodes(&self) -> (count: Option<usize>)
        ensures
            count.is_some() == (node_count(*self) <= usize::MAX),
            count.is_some() ==> count.unwrap() == node_count(*self),
        decreases self,
    {
        let mut total: usize = 0;
        let mut k: usize = 0;
        while k < self.0.children.len()
            invariant
                k <= self.0.children.len(),
                total == node_count_first(self.0.children, k as nat),
            decreases self.0.children.len() - k,
        {
            proof {
                vstd::std_specs::vec::axiom_vec_index_decreases(self.0.children, k as int);
                lemma_node_count_first_grows(
                    self.0.children,
                    (k + 1) as nat,
                    self.0.children.len() as nat,
                );
            }
            let inner = match self.0.children[k].count_nodes() {
                Some(inner) => inner,
                None => {
                    return None;
                },
            };
            total = match total.checked_add(inner) {
                Some(sum) => sum,
                None => {
                    return None;
                },
            };
            k += 1;
        }
        total.checked_add(1)
    }

    /// Whether this widget or a widget inside it asks for a new layout.
    pub fn needs_layout(&self) -> (needed: bool)
        ensures
            needed == tree_needs_layout(*self),
        decreases self,
    {
        if self.0.needs_layout {
            return true;
        }
        let mut k: usize = 0;
        while k < self.0.children.len()
            invariant
                k <= self.0.children.len(),
                !self.0.needs_layout,
                forall|i: int| 0 <= i < k ==> !tree_needs_layout(#[trigger] self.0.children[i]),
            decreases self.0.children.len() - k,
        {
            proof {
                vstd::std_specs::vec::axiom_vec_index_decreases(self.0.children, k as int);
            }
            if self.0.children[k].needs_layout() {
                return true;
            }
            k += 1;
        }
        false
    }
}

/// Whether `w` or a widget inside it asks for a new layout.
pub open spec fn tree_needs_layout(w: Widget) -> bool
    decreases w,
{
    w.0.needs_layout || exists|k: int|
        0 <= k < w.0.children.len() && tree_needs_layout(#[trigger] w.0.children[k])
}

/// Represents an entire user interface. Holds a root widget.
pub struct UI {
    pub root: Widget,
    /// The space that the layout may fill.
    pub size: AvailableSize,
    /// Set when the size changed, so that the layout is out of date.
    pub force_layout: bool,
    /// Where the cursor was when it moved last.
    pub mouse_position: Point,
}

impl UI {
    /// A user interface that has not been laid out yet.
    pub fn new(root: Widget, size: AvailableSize) -> (ui: UI)
        ensures
            ui.root == root,
            ui.size == size,
            ui.force_layout,
            ui.mouse_position == (Point { x: 0, y: 0 }),
    {
        UI { root, size, force_layout: true, mouse_position: Point { x: 0, y: 0 } }
    }

    /// Sets the space that the layout may fill and asks for a new layout.
    pub fn update_size(&mut self, size: AvailableSize)
        ensures
            final(self).root == old(self).root,
            final(self).size == size,
            final(self).force_layout,
            final(self).mouse_position == old(self).mouse_position,
    {
        self.size = size;
        self.force_layout = true;
    }

    /// Whether the layout is out of date: the size changed, or a widget
    /// asked for a new layout.
    pub fn needs_layout(&self) -> (needed: bool)
        ensures
            needed == (self.force_layout || tree_needs_layout(self.root)),
    {
        self.force_layout || self.root.needs_layout()
    }

    /// The nodes to hand to the flexbox solver, children before parents, the
    /// root last. The solver answers with one layout for each node, in the
    /// same order.
    pub fn generate_nodes(&self) -> (nodes: Vec<StyleNode>)
        ensures
            node_views(nodes@) == nodes_of(styles_of(self.root)),
            nodes@.len() == node_count(self.root),
    {
        let styles = self.root.generate_styles();
        let mut nodes: Vec<StyleNode> = Vec::new();
        assert(node_views(nodes@) =~= Seq::<StyleNodeView>::empty());
        generate_nodes(&styles, &mut nodes);
        proof {
            law_one_node_for_every_widget(self.root);
        }
        nodes
    }

    /// Takes the layouts that the flexbox solver found, one for each widget
    /// in the order of the nodes. A list of another length is refused and
    /// changes nothing.
    pub fn layout(&mut self, layouts: &Vec<Layout>) -> (done: bool)
        ensures
            done == (layouts@.len() == node_count(old(self).root)),
            done ==> laid_out(old(self).root, final(self).root, layouts@, 0),
            done ==> !final(self).force_layout,
            done ==> final(self).size == old(self).size,
            done ==> final(self).mouse_position == old(self).mouse_position,
            !done ==> *final(self) == *old(self),
    {
        let given = layouts.len();
        match self.root.count_nodes() {
            Some(count) => {
                if count == given {
                    self.root.apply_layouts(layouts, 0);
                    self.force_layout = false;
                    true
                } else {
                    false
                }
            },
            None => false,
        }
    }

    /// Describes how to draw the user interface, `offset` added to every
    /// place. With a `debug_line_texture`, lines are drawn around every
    /// widget with that texture. Widgets that were never laid out draw
    /// nothing.
    pub fn generate_render_info(&self, offset: Point, debug_line_texture: Option<AssetHandle>) -> (info:
        MultiRenderable)
        ensures
            info@ == render_tree(self.root, offset, debug_line_texture),
    {
        self.root.generate_render_info(offset, debug_line_texture)
    }
}

/// Whether the cursor at `pos` is over `w`, with `offset` added to its place.
/// A widget without a layout is under no cursor.
pub open spec fn is_under(w: Widget, offset: Point, pos: Point) -> bool {
    w.0.layout.is_some() && w.0.layout.unwrap().spec_translated(offset).spec_contains(pos)
}

/// The offset of the children of `w`: the place of `w`, or `offset` itself
/// for a widget without a layout.
pub open spec fn inner_offset(w: Widget, offset: Point) -> Point {
    match w.0.layout {
        Some(layout) => layout.spec_translated(offset).location,
        None => offset,
    }
}

/// What a mouse button event can make of an element: `after` and `result`
/// are what the element `before` comes to and answers.
pub open spec fn element_input(
    before: Element,
    after: Element,
    button: MouseButton,
    state: ElementState,
    result: MouseInputProcessResult,
) -> bool {
    &&& before.answer_to(button, state).is_some() ==> result == before.answer_to(
        button,
        state,
    ).unwrap()
    &&& before.is_passive() || before is Field ==> after == before
    &&& before matches Element::Button(b) ==> after matches Element::Button(a) && a.state
        == b.state_after_input(button, state) && a.style == b.style && a.disabled == b.disabled
        && a.clicks == (if b.clicks_on(button, state) && b.clicks < u64::MAX {
        (b.clicks + 1) as u64
    } else {
        b.clicks
    })
}

/// Whether nothing of `after` differs from `before` but elements and children.
pub open spec fn same_frame(before: Widget, after: Widget) -> bool {
    &&& after.0.layout == before.0.layout
    &&& after.0.style == before.0.style
    &&& after.0.backgrounds == before.0.backgrounds
    &&& after.0.needs_layout == before.0.needs_layout
    &&& after.0.children.len() == before.0.children.len()
}

/// What a mouse button event at `pos` can make of a widget: `after` and
/// `result` are what `before` comes to and answers.
///
/// The event seeks its way from the root towards the leaves, by the bounds
/// of the layout, and the first element that uses it wins. A widget that is
/// not under the cursor is passed over with all inside it. A widget under the
/// cursor gets the event first; if it leaves the event to others, its
/// children get it in order, until one of them uses it.
pub open spec fn input_delivered(
    before: Widget,
    after: Widget,
    offset: Point,
    pos: Point,
    button: MouseButton,
    state: ElementState,
    result: MouseInputProcessResult,
) -> bool
    decreases before,
{
    &&& same_frame(before, after)
    &&& after.0.hovered == before.0.hovered
    &&& if !is_under(before, offset, pos) {
        &&& after.0.element == before.0.element
        &&& after.0.children == before.0.children
        &&& result == MouseInputProcessResult::NotProcessed
    } else {
        exists|own: MouseInputProcessResult, reached: int|
            {
                &&& element_input(before.0.element, after.0.element, button, state, own)
                &&& #[trigger] input_reach(own, reached)
                &&& if own != MouseInputProcessResult::NotProcessed {
                    &&& result == own
                    &&& after.0.children == before.0.children
                } else {
                    &&& 0 <= reached <= before.0.children.len()
                    &&& forall|j: int|
                        0 <= j < reached && #[trigger] is_child(j) ==> input_delivered(
                            before.0.children[j],
                            after.0.children[j],
                            inner_offset(before, offset),
                            pos,
                            button,
                            state,
                            if j == reached - 1 {
                                result
                            } else {
                                MouseInputProcessResult::NotProcessed
                            },
                        )
                    &&& forall|j: int|
                        reached <= j < before.0.children.len() ==> #[trigger] after.0.children[j]
                            == before.0.children[j]
                    &&& reached < before.0.children.len() ==> reached > 0 && result
                        != MouseInputProcessResult::NotProcessed
                    &&& reached == 0 ==> result == MouseInputProcessResult::NotProcessed
                }
            }
    }
}

/// Marks the answer of the element and the number of children that the
/// event reached. It holds of every pair.
pub open spec fn input_reach(own: MouseInputProcessResult, reached: int) -> bool {
    true
}

impl Widget {
    /// Hands a mouse button event at `pos` to this widget and the widgets
    /// inside it, `offset` added to the place that the layout gave.
    pub fn mouse_input(
        &mut self,
        offset: Point,
        pos: Point,
        button: MouseButton,
        state: ElementState,
    ) -> (result: MouseInputProcessResult)
        ensures
            input_delivered(*old(self), *final(self), offset, pos, button, state, result),
        decreases *old(self),
    {
        let layout = match self.0.layout {
            Some(layout) => layout.translated(offset),
            None => {
                return MouseInputProcessResult::NotProcessed;
            },
        };
        if !layout.contains(pos) {
            return MouseInputProcessResult::NotProcessed;
        }
        let own = self.0.element.process_mouse_input(button, state);
        if own != MouseInputProcessResult::NotProcessed {
            proof {
                assert(input_reach(own, 0));
            }
            return own;
        }
        let mut k: usize = 0;
        while k < self.0.children.len()
            invariant
                k <= self.0.children.len(),
                same_frame(*old(self), *self),
                self.0.hovered == old(self).0.hovered,
                is_under(*old(self), offset, pos),
                layout.location == inner_offset(*old(self), offset),
                own == MouseInputProcessResult::NotProcessed,
                element_input(old(self).0.element, self.0.element, button, state, own),
                forall|j: int|
                    0 <= j < k && #[trigger] is_child(j) ==> input_delivered(
                        old(self).0.children[j],
                        self.0.children[j],
                        layout.location,
                        pos,
                        button,
                        state,
                        MouseInputProcessResult::NotProcessed,
                    ),
                forall|j: int|
                    k <= j < self.0.children.len() ==> #[trigger] self.0.children[j] == old(
                        self,
                    ).0.children[j],
            decreases self.0.children.len() - k,
        {
            proof {
                vstd::std_specs::vec::axiom_vec_index_decreases(old(self).0.children, k as int);
            }
            let child = &mut self.0.children[k];
            let result = child.mouse_input(layout.location, pos, button, state);
            if result != MouseInputProcessResult::NotProcessed {
                proof {
                    assert(input_reach(own, k as int + 1));
                }
                return result;
            }
            k += 1;
        }
        proof {
            assert(input_reach(own, k as int));
        }
        MouseInputProcessResult::NotProcessed
    }
}

/// What a move of the cursor can make of an element that the cursor came
/// onto (`entered`), left (`left`) or neither.
pub open spec fn element_moved(before: Element, after: Element, entered: bool, left: bool) -> bool {
    &&& before.is_passive() || before is Field ==> after == before
    &&& before matches Element::Button(b) ==> after == Element::Button(
        Button {
            state: if entered {
                b.state_after_enter()
            } else if left {
                b.state_after_leave()
            } else {
                b.state
            },
            ..b
        },
    )
}

/// What a move of the cursor to `pos` can make of a widget. Every widget
/// notes whether the cursor is over it. Its element is told when the cursor
/// comes onto it and when the cursor leaves it, and where the cursor is while
/// it is over it.
pub open spec fn move_delivered(before: Widget, after: Widget, offset: Point, pos: Point) -> bool
    decreases before,
{
    &&& same_frame(before, after)
    &&& after.0.hovered == is_under(before, offset, pos)
    &&& element_moved(
        before.0.element,
        after.0.element,
        is_under(before, offset, pos) && !before.0.hovered,
        !is_under(before, offset, pos) && before.0.hovered,
    )
    &&& forall|j: int|
        0 <= j < before.0.children.len() && #[trigger] is_child(j) ==> move_delivered(
            before.0.children[j],
            after.0.children[j],
            inner_offset(before, offset),
            pos,
        )
}

impl Widget {
    /// Tells this widget and the widgets inside it that the cursor moved to
    /// `pos`, `offset` added to the place that the layout gave. An element
    /// under the cursor learns where the cursor is, relative to its own place.
    pub fn mouse_move(&mut self, offset: Point, pos: Point)
        ensures
            move_delivered(*old(self), *final(self), offset, pos),
        decreases *old(self),
    {
        let (inside, inner) = match self.0.layout {
            Some(layout) => {
                let placed = layout.translated(offset);
                (placed.contains(pos), placed.location)
            },
            None => (false, offset),
        };
        if inside && !self.0.hovered {
            self.0.element.mouse_enter();
        } else if !inside && self.0.hovered {
            self.0.element.mouse_leave();
        }
        self.0.hovered = inside;
        if inside {
            self.0.element.mouse_move(
                Point {
                    x: clamp(pos.x as i64 - inner.x as i64),
                    y: clamp(pos.y as i64 - inner.y as i64),
                },
            );
        }
        let mut k: usize = 0;
        while k < self.0.children.len()
            invariant
                k <= self.0.children.len(),
                same_frame(*old(self), *self),
                self.0.hovered == is_under(*old(self), offset, pos),
                inner == inner_offset(*old(self), offset),
                element_moved(
                    old(self).0.element,
                    self.0.element,
                    is_under(*old(self), offset, pos) && !old(self).0.hovered,
                    !is_under(*old(self), offset, pos) && old(self).0.hovered,
                ),
                forall|j: int|
                    0 <= j < k && #[trigger] is_child(j) ==> move_delivered(
                        old(self).0.children[j],
                        self.0.children[j],
                        inner,
                        pos,
                    ),
                forall|j: int|
                    k <= j < self.0.children.len() ==> #[trigger] self.0.children[j] == old(
                        self,
                    ).0.children[j],
            decreases self.0.children.len() - k,
        {
            proof {
                vstd::std_specs::vec::axiom_vec_index_decreases(old(self).0.children, k as int);
            }
            let child = &mut self.0.children[k];
            child.mouse_move(inner, pos);
            k += 1;
        }
    }
}

impl UI {
    /// Notes that the cursor moved to `pos` and tells the widgets.
    pub fn mouse_move(&mut self, pos: Point)
        ensures
            final(self).mouse_position == pos,
            move_delivered(old(self).root, final(self).root, Point { x: 0, y: 0 }, pos),
            final(self).size == old(self).size,
            final(self).force_layout == old(self).force_layout,
    {
        self.mouse_position = pos;
        self.root.mouse_move(Point { x: 0, y: 0 }, pos);
    }

    /// Hands a mouse button event to the widgets under the cursor.
    pub fn mouse_input(&mut self, button: MouseButton, state: ElementState) -> (result:
        MouseInputProcessResult)
        ensures
            input_delivered(
                old(self).root,
                final(self).root,
                Point { x: 0, y: 0 },
                old(self).mouse_position,
                button,
                state,
                result,
            ),
            final(self).mouse_position == old(self).mouse_position,
            final(self).size == old(self).size,
            final(self).force_layout == old(self).force_layout,
    {
        self.root.mouse_input(Point { x: 0, y: 0 }, self.mouse_position, button, state)
    }
}

} // verus!
