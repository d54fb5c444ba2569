//! A text field: an element that shows a caret, and the place of the caret.

use std::sync::Arc;
use vstd::prelude::*;
use crate::colour::Colour;
use crate::geometry::{clamp, spec_clamp, Layout, Point};
use crate::input::{ElementState, MouseButton, MouseInputProcessResult};
use crate::multi_batch::{MultiRenderable, RenderTree};
use crate::style::{Dimension, Dimensions};
use crate::texture::NinePatch;
use crate::font::FontFamily;
use crate::rich_text::{shows, RichText};
use crate::style::{FlexDirection, Style};
use crate::text::{
    paragraph_views, BuilderView, FinishedText, RichTextSegment, RichTextStyle, TypesetText,
};
use crate::widget::{Element, UiElement, Widget};

verus! {

/// Where the caret of a field is.
#[derive(Debug, Copy, Clone, PartialEq, Eq)]
pub struct Caret {
    /// The index in the text of the field that the caret is at.
    pub edit_index: usize,
    /// The position to render the caret, relative to the field.
    pub pos: Point,
    /// The height in pixels to render the caret.
    pub height: i32,
}

/// The element of a text field. It draws the caret while the field has the
/// keyboard focus.
#[derive(Debug, Copy, Clone, PartialEq, Eq)]
pub struct FieldElement {
    /// The texture to draw the caret with.
    pub caret_texture: NinePatch,
    /// The place of the caret, if this field has the keyboard focus.
    pub caret_position: Option<Caret>,
}

impl FieldElement {
    /// What a field answers to a mouse button event: the left button takes
    /// the keyboard focus when it goes down and is used up when it comes up;
    /// other buttons are left to others.
    pub open spec fn answer_to(button: MouseButton, state: ElementState) -> MouseInputProcessResult {
        if button == MouseButton::Left {
            match state {
                ElementState::Pressed => MouseInputProcessResult::TakeKeyboardFocus,
                ElementState::Released => MouseInputProcessResult::Processed,
            }
        } else {
            MouseInputProcessResult::NotProcessed
        }
    }
}

impl UiElement for FieldElement {
    open spec fn size(&self) -> Dimensions {
        Dimensions::auto()
    }

    fn get_size(&self) -> (size: Dimensions) {
        Dimensions { width: Dimension::Auto, height: Dimension::Auto }
    }

    /// The caret is five pixels wide, centred on its place, and one pixel
    /// shorter than its line at either end.
    open spec fn render_info(&self, layout: Layout) -> RenderTree {
        match self.caret_position {
            Some(caret) => self.caret_texture.render_info(
                Colour::spec_white(),
                spec_clamp(layout.location.x + caret.pos.x - 2),
                spec_clamp(-(layout.location.y as int) - caret.pos.y - caret.height + 1),
                5,
                spec_clamp(caret.height - 2),
            ),
            None => RenderTree::Nothing,
        }
    }

    fn generate_render_info(&self, layout: &Layout) -> (info: MultiRenderable) {
        match self.caret_position {
            Some(caret) => self.caret_texture.generate_render_info(
                Colour::white(),
                clamp(layout.location.x as i64 + caret.pos.x as i64 - 2),
                clamp(-(layout.location.y as i64) - caret.pos.y as i64 - caret.height as i64 + 1),
                5,
                clamp(caret.height as i64 - 2),
            ),
            None => MultiRenderable::Nothing,
        }
    }

    fn mouse_move(&mut self, pos: Point)
        ensures
            *final(self) == *old(self),
    {
    }

    fn process_mouse_input(&mut self, button: MouseButton, state: ElementState) -> (result:
        MouseInputProcessResult)
        ensures
            result == FieldElement::answer_to(button, state),
            *final(self) == *old(self),
    {
        match button {
            MouseButton::Left => match state {
                ElementState::Pressed => MouseInputProcessResult::TakeKeyboardFocus,
                ElementState::Released => MouseInputProcessResult::Processed,
            },
            _ => MouseInputProcessResult::NotProcessed,
        }
    }

    fn mouse_enter(&mut self)
        ensures
            *final(self) == *old(self),
    {
    }

    fn mouse_leave(&mut self)
        ensures
            *final(self) == *old(self),
    {
    }
}

/// Where one glyph of a word lies, for the placing of the caret.
#[derive(Debug, Copy, Clone, PartialEq, Eq)]
pub struct GlyphBox {
    /// The place in the text of the character that the glyph shows.
    pub character_index: usize,
    /// The left and the right edge of what the glyph draws, relative to the
    /// start of the word. `None` for a glyph that draws nothing.
    pub bounding_box: Option<(i32, i32)>,
}

/// The edge of a glyph that is nearest to the cursor so far, as the search for it goes on.
pub struct Anchor {
    /// The place in the text before which the caret goes.
    pub index: usize,
    /// Where the caret is drawn, relative to the start of the word.
    pub x: i32,
    /// How far the edge is from the cursor. `None` while no edge was seen.
    pub distance: Option<int>,
}

/// The distance between two places on a line.
pub open spec fn distance(a: int, b: int) -> int {
    if a >= b {
        a - b
    } else {
        b - a
    }
}

/// The place in the text after the character at `index`.
pub open spec fn after_index(index: usize) -> usize {
    if index == usize::MAX {
        index
    } else {
        (index + 1) as usize
    }
}

impl Anchor {
    /// The anchor before any glyph was looked at: the start of the word.
    pub open spec fn start() -> Anchor {
        Anchor { index: 0, x: 0, distance: None }
    }

    /// The anchor after the edge at `x` was looked at, before which the
    /// caret would stand at `index`: the edge is taken if it is nearer to the
    /// cursor than every edge before it.
    pub open spec fn with_edge(self, index: usize, x: i32, local_x: i32) -> Anchor {
        let d = distance(x as int, local_x as int);
        if self.distance.is_none() || d < self.distance.unwrap() {
            Anchor { index, x, distance: Some(d) }
        } else {
            self
        }
    }

    /// The anchor after `glyph` was looked at. The right edge of every glyph
    /// counts, and the left edge of the first glyph that draws anything.
    pub open spec fn with_glyph(self, glyph: GlyphBox, local_x: i32) -> Anchor {
        match glyph.bounding_box {
            None => self,
            Some((min_x, max_x)) => {
                let left = if self.distance.is_none() {
                    self.with_edge(glyph.character_index, min_x, local_x)
                } else {
                    self
                };
                left.with_edge(after_index(glyph.character_index), max_x, local_x)
            },
        }
    }

    /// The anchor after the first `count` of `glyphs` were looked at.
    pub open spec fn with_glyphs(self, glyphs: Seq<GlyphBox>, local_x: i32, count: nat) -> Anchor
        decreases count,
    {
        if count == 0 || count > glyphs.len() {
            self
        } else {
            self.with_glyphs(glyphs, local_x, (count - 1) as nat).with_glyph(
                glyphs[count - 1],
                local_x,
            )
        }
    }
}

/// The first of `widgets`, from place `from` on, that was laid out and holds `pos`.
pub open spec fn first_containing(widgets: Seq<Widget>, pos: Point, from: int) -> Option<int>
    decreases widgets.len() - from,
{
    if from < 0 || from >= widgets.len() {
        None
    } else if widgets[from].0.layout.is_some() && widgets[from].0.layout.unwrap().spec_contains(pos) {
        Some(from)
    } else {
        first_containing(widgets, pos, from + 1)
    }
}

/// The first of `widgets`, from place `from` on, that was laid out and
/// spans the height of `pos`.
pub open spec fn first_spanning(widgets: Seq<Widget>, pos: Point, from: int) -> Option<int>
    decreases widgets.len() - from,
{
    if from < 0 || from >= widgets.len() {
        None
    } else if widgets[from].0.layout.is_some() && widgets[from].0.layout.unwrap().spec_spans(pos) {
        Some(from)
    } else {
        first_spanning(widgets, pos, from + 1)
    }
}

/// The word of a text that the cursor is over: the paragraph is the first
/// one whose height the cursor is in, the word the first one of that
/// paragraph whose box holds the cursor.
pub open spec fn hovered(text: Widget, pos: Point) -> Option<(int, int)> {
    match first_spanning(text.0.children@, pos, 0) {
        None => None,
        Some(p) => match first_containing(text.0.children@[p].0.children@, pos, 0) {
            None => None,
            Some(w) => Some((p, w)),
        },
    }
}

impl FieldElement {
    /// A field that shows no caret yet.
    pub fn new(caret_texture: NinePatch) -> (field: FieldElement)
        ensures
            field == (FieldElement { caret_texture, caret_position: None }),
    {
        FieldElement { caret_texture, caret_position: None }
    }

    /// Finds the word of `text` that the cursor at `pos` is over: the place
    /// of its paragraph in the text and its place in the paragraph. `text`
    /// is the widget of a rich text, `pos` relative to that widget.
    pub fn hovered_word(text: &Widget, pos: Point) -> (found: Option<(usize, usize)>)
        ensures
            found.is_some() == hovered(*text, pos).is_some(),
            found.is_some() ==> hovered(*text, pos) == Some(
                (found.unwrap().0 as int, found.unwrap().1 as int),
            ),
    {
        let mut p: usize = 0;
        while p < text.0.children.len()
            invariant
                p <= text.0.children.len(),
                first_spanning(text.0.children@, pos, 0) == first_spanning(
                    text.0.children@,
                    pos,
                    p as int,
                ),
            decreases text.0.children.len() - p,
        {
            let paragraph = &text.0.children[p];
            let in_paragraph = match &paragraph.0.layout {
                Some(layout) => layout.spans(pos),
                None => false,
            };
            if in_paragraph {
                let mut w: usize = 0;
                while w < paragraph.0.children.len()
                    invariant
                        w <= paragraph.0.children.len(),
                        p < text.0.children.len(),
                        paragraph == &text.0.children@[p as int],
                        first_spanning(text.0.children@, pos, 0) == Some(p as int),
                        first_containing(paragraph.0.children@, pos, 0) == first_containing(
                            paragraph.0.children@,
                            pos,
                            w as int,
                        ),
                    decreases paragraph.0.children.len() - w,
                {
                    let over = match &paragraph.0.children[w].0.layout {
                        Some(layout) => layout.contains(pos),
                        None => false,
                    };
                    if over {
                        return Some((p, w));
                    }
                    w += 1;
                }
                return None;
            }
            p += 1;
        }
        None
    }

    /// The edge among `glyphs` that is nearest to `local_x`, a place
    /// relative to the start of the word: the place in the text before which
    /// the caret goes, and where the caret is drawn. A word without edges
    /// puts the caret at its start.
    pub fn closest_anchor(glyphs: &Vec<GlyphBox>, local_x: i32) -> (anchor: (usize, i32))
        ensures
            anchor.0 == Anchor::start().with_glyphs(glyphs@, local_x, glyphs@.len()).index,
            anchor.1 == Anchor::start().with_glyphs(glyphs@, local_x, glyphs@.len()).x,
    {
        let mut index: usize = 0;
        let mut x: i32 = 0;
        let mut nearest: Option<i64> = None;
        let mut k: usize = 0;
        while k < glyphs.len()
            invariant
                k <= glyphs.len(),
                ({
                    let so_far = Anchor::start().with_glyphs(glyphs@, local_x, k as nat);
                    &&& so_far.index == index
                    &&& so_far.x == x
                    &&& so_far.distance.is_some() == nearest.is_some()
                    &&& nearest.is_some() ==> so_far.distance.unwrap() == nearest.unwrap()
                }),
            decreases glyphs.len() - k,
        {
            match glyphs[k].bounding_box {
                None => {},
                Some((min_x, max_x)) => {
                    if nearest.is_none() {
                        let d: i64 = if min_x >= local_x {
                            min_x as i64 - local_x as i64
                        } else {
                            local_x as i64 - min_x as i64
                        };
                        index = glyphs[k].character_index;
                        x = min_x;
                        nearest = Some(d);
                    }
                    let d: i64 = if max_x >= local_x {
                        max_x as i64 - local_x as i64
                    } else {
                        local_x as i64 - max_x as i64
                    };
                    let closer = match nearest {
                        Some(best) => d < best,
                        None => true,
                    };
                    if closer {
                        index = if glyphs[k].character_index == usize::MAX {
                            usize::MAX
                        } else {
                            glyphs[k].character_index + 1
                        };
                        x = max_x;
                        nearest = Some(d);
                    }
                },
            }
            k += 1;
        }
        (index, x)
    }

    /// The caret for a cursor at `pos` over a word that was laid out at
    /// `word_layout` and whose glyphs lie at `glyphs`: the caret stands at
    /// the edge of a glyph that is nearest to the cursor, and is as high as
    /// the word.
    pub fn get_caret_position(word_layout: &Layout, glyphs: &Vec<GlyphBox>, pos: Point) -> (caret:
        Caret)
        ensures
            ({
                let local_x = spec_clamp(pos.x - word_layout.location.x);
                let anchor = Anchor::start().with_glyphs(glyphs@, local_x, glyphs@.len());
                caret == (Caret {
                    edit_index: anchor.index,
                    pos: Point {
                        x: spec_clamp(anchor.x + word_layout.location.x),
                        y: word_layout.location.y,
                    },
                    height: word_layout.size.height,
                })
            }),
    {
        let local_x = clamp(pos.x as i64 - word_layout.location.x as i64);
        let (index, x) = FieldElement::closest_anchor(glyphs, local_x);
        Caret {
            edit_index: index,
            pos: Point {
                x: clamp(x as i64 + word_layout.location.x as i64),
                y: word_layout.location.y,
            },
            height: word_layout.size.height,
        }
    }
}

/// A text box the user can type into: a field element that draws the caret,
/// around a widget that shows the text.
pub struct Field {
    pub rich_text: RichText,
    pub contents: String,
    /// The widget of the field. Its first child shows the words of the text.
    pub widget: Widget,
}

/// The characters that a new field shows.
pub open spec fn initial_text() -> Seq<char> {
    "Hello, world! This is a field."@
}

impl Field {
    /// A field that shows its first text once that text is typeset. The
    /// text is handed out beside the field, to be typeset and written back.
    pub fn new(
        caret_texture: NinePatch,
        font_family: Arc<FontFamily>,
        style: Style,
        text_style: Style,
    ) -> (made: (Field, FinishedText))
        ensures
            made.0.widget.0.element == Element::Field(
                FieldElement { caret_texture, caret_position: None },
            ),
            made.0.widget.0.style == style,
            made.0.widget.0.layout.is_none(),
            made.0.widget.0.backgrounds@.len() == 0,
            made.0.widget.0.children@.len() == 1,
            made.0.widget.0.children@[0].0.element is RichTextContainer,
            made.0.widget.0.children@[0].0.children@.len() == 0,
            made.0.widget.0.children@[0].0.style == (Style {
                flex_direction: FlexDirection::Column,
                ..text_style
            }),
            made.0.contents@.len() == 0,
            made.0.rich_text.0.current_text_id == 1,
            made.1.text_id == 1,
            paragraph_views(made.1.paragraphs@) == (BuilderView {
                style: RichTextStyle::spec_default(font_family),
                paragraphs: seq![],
                current_paragraph: seq![],
                is_internal: false,
                text_id: 1,
            }).wrote(initial_text(), false).finished(),
    {
        let mut rich_text = RichText::new(text_style);
        let mut column = text_style;
        column.flex_direction = FlexDirection::Column;
        let shown = Widget::new(Element::RichTextContainer, Vec::new(), Vec::new(), column);
        let mut children: Vec<Widget> = Vec::new();
        children.push(shown);
        let widget = Widget::new(
            Element::Field(FieldElement::new(caret_texture)),
            children,
            Vec::new(),
            style,
        );
        let text = rich_text.set_text(font_family).write("Hello, world! This is a field.").finish();
        (Field { rich_text, contents: String::new(), widget }, text)
    }

    /// The widget of the field.
    pub fn get_widget(&self) -> (widget: &Widget)
        ensures
            *widget == self.widget,
    {
        &self.widget
    }

    /// Takes in the version `text_id` of the text of the field, with its
    /// source and what it was typeset into. A version that is out of date is
    /// dropped and changes nothing; the current version replaces the words
    /// that the field shows.
    pub fn write(&mut self, text_id: u64, paragraphs: Vec<Vec<RichTextSegment>>, typeset: &TypesetText) -> (taken:
        bool)
        ensures
            taken == (old(self).rich_text.0.current_text_id == text_id),
            final(self).rich_text.0.current_text_id == old(self).rich_text.0.current_text_id,
            taken ==> {
                &&& final(self).rich_text.0.paragraphs == paragraphs
                &&& final(self).widget.0.children@.len() >= 1
                &&& shows(final(self).widget.0.children@[0].0.children@, typeset@)
                &&& final(self).widget.0.children@[0].0.needs_layout
                &&& final(self).widget.0.element == old(self).widget.0.element
                &&& final(self).widget.0.style == old(self).widget.0.style
                &&& final(self).widget.0.layout == old(self).widget.0.layout
                &&& final(self).contents == old(self).contents
            },
            !taken ==> *final(self) == *old(self),
    {
        if self.rich_text.0.current_text_id != text_id {
            return false;
        }
        let taken = self.rich_text.0.write(text_id, paragraphs, typeset);
        let mut words: Vec<Widget> = Vec::new();
        std::mem::swap(&mut self.rich_text.0.widget.0.children, &mut words);
        if self.widget.0.children.len() == 0 {
            let shown = Widget::new(
                Element::RichTextContainer,
                Vec::new(),
                Vec::new(),
                self.rich_text.0.widget.0.style,
            );
            self.widget.0.children.push(shown);
        }
        let shown = &mut self.widget.0.children[0];
        shown.0.children = words;
        shown.0.force_layout();
        taken
    }
}

} // verus!
