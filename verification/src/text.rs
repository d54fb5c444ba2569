//! Rich text: styled source text, and the words it is typeset into.

use std::sync::Arc;
use vstd::prelude::*;
use crate::colour::Colour;
use crate::font::{
    family_resolution, fonts_after_resolution, get_font_for_character, resolved_glyph, FontEmphasis,
    FontFace, FontFamily, FontIdSpecifier, FontRegistry, FontSize, ResolvedGlyph, SUBPIXELS,
};
use crate::geometry::{Layout, Point};
use crate::input::{ElementState, MouseButton, MouseInputProcessResult};
use crate::multi_batch::{MultiRenderable, RenderTree};
use crate::style::{Dimension, Dimensions};
use crate::widget::UiElement;

verus! {

/// A glyph of a font at a size and a place on the baseline of its word.
#[derive(Debug, Copy, Clone, PartialEq, Eq, Structural)]
pub struct PositionedGlyph {
    /// The number of the glyph in its font. Zero is the glyph that a font
    /// shows for a character it does not have.
    pub id: u16,
    /// The height of the font in pixels.
    pub scale: u32,
    /// Distance from the start of the word, in parts of a pixel.
    pub x: i64,
}

/// A glyph with what is needed to draw it.
#[derive(Debug, Copy, Clone, PartialEq, Eq, Structural)]
pub struct RenderableGlyph {
    /// The number that the font registry gave to the font, style and size.
    pub font: usize,
    pub colour: Colour,
    pub glyph: PositionedGlyph,
}

/// An indivisible unit of text: glyphs placed relative to the origin of the word.
#[derive(Debug, PartialEq, Eq)]
pub struct RenderableWord {
    pub glyphs: Vec<RenderableGlyph>,
    /// Width and height in whole pixels.
    pub size: (u32, u32),
    /// How far the baseline lies below the upper edge of the word, in whole
    /// pixels: the largest ascent of its glyphs.
    pub baseline: u32,
}

/// A word as a mathematical value.
pub struct RenderableWordView {
    pub glyphs: Seq<RenderableGlyph>,
    pub size: (u32, u32),
    pub baseline: u32,
}

impl View for RenderableWord {
    type V = RenderableWordView;

    open spec fn view(&self) -> RenderableWordView {
        RenderableWordView { glyphs: self.glyphs@, size: self.size, baseline: self.baseline }
    }
}

/// A copy of a list of plain values.
pub fn copy_of<T: Copy>(items: &Vec<T>) -> (out: Vec<T>)
    ensures
        out@ == items@,
{
    let mut out: Vec<T> = Vec::new();
    let mut i: usize = 0;
    while i < items.len()
        invariant
            i <= items.len(),
            out@ == items@.take(i as int),
        decreases items.len() - i,
    {
        out.push(items[i]);
        assert(items@.take(i as int + 1) =~= items@.take(i as int).push(items@[i as int]));
        i += 1;
    }
    assert(items@.take(i as int) =~= items@);
    out
}

impl Clone for RenderableWord {
    fn clone(&self) -> (copy: RenderableWord)
        ensures
            copy@ == self@,
    {
        RenderableWord { glyphs: copy_of(&self.glyphs), size: self.size, baseline: self.baseline }
    }
}

/// A length in pixels as a layout dimension, held at the largest dimension
/// where it is larger.
pub open spec fn spec_points(length: u32) -> Dimension {
    if length > i32::MAX {
        Dimension::Points(i32::MAX)
    } else {
        Dimension::Points(length as i32)
    }
}

fn points(length: u32) -> (d: Dimension)
    ensures
        d == spec_points(length),
{
    if length > i32::MAX as u32 {
        Dimension::Points(i32::MAX)
    } else {
        Dimension::Points(length as i32)
    }
}

/// A word is laid out as a box of its size and drawn as text at the place of
/// that box.
impl UiElement for RenderableWord {
    open spec fn size(&self) -> Dimensions {
        Dimensions { width: spec_points(self.size.0), height: spec_points(self.size.1) }
    }

    fn get_size(&self) -> (size: Dimensions) {
        Dimensions { width: points(self.size.0), height: points(self.size.1) }
    }

    open spec fn render_info(&self, layout: Layout) -> RenderTree {
        RenderTree::Text { word: self@, offset: layout.location }
    }

    fn generate_render_info(&self, layout: &Layout) -> (info: MultiRenderable) {
        MultiRenderable::Text { word: self.clone(), offset: layout.location }
    }

    fn mouse_move(&mut self, pos: Point)
        ensures
            *final(self) == *old(self),
    {
    }

    fn process_mouse_input(&mut self, button: MouseButton, state: ElementState) -> (result:
        MouseInputProcessResult)
        ensures
            result == MouseInputProcessResult::NotProcessed,
            *final(self) == *old(self),
    {
        MouseInputProcessResult::NotProcessed
    }

    fn mouse_enter(&mut self)
        ensures
            *final(self) == *old(self),
    {
    }

    fn mouse_leave(&mut self)
        ensures
            *final(self) == *old(self),
    {
    }
}

/// The styling information (font, size, bold, italic, colour) of a span of rich text.
#[derive(Debug, PartialEq, Eq)]
pub struct RichTextStyle {
    pub font_family: Arc<FontFamily>,
    pub size: FontSize,
    pub emphasis: FontEmphasis,
    pub colour: Colour,
}

/// Calls `Arc::clone`, which hands out one more handle to the same family:
/// the result is the family that the argument holds.
#[verifier::external_body]
fn share_family(family: &Arc<FontFamily>) -> (shared: Arc<FontFamily>)
    ensures
        shared == *family,
{
    Arc::clone(family)
}

impl RichTextStyle {
    /// The style of plain text in `font_family`: text size, regular, white.
    pub open spec fn spec_default(font_family: Arc<FontFamily>) -> RichTextStyle {
        RichTextStyle {
            font_family,
            size: FontSize::Text,
            emphasis: FontEmphasis::Regular,
            colour: Colour::spec_white(),
        }
    }

    /// The style of plain text in `font_family`.
    pub fn default(font_family: Arc<FontFamily>) -> (style: RichTextStyle)
        ensures
            style == RichTextStyle::spec_default(font_family),
    {
        RichTextStyle {
            font_family,
            size: FontSize::Text,
            emphasis: FontEmphasis::Regular,
            colour: Colour::white(),
        }
    }
}

impl Clone for RichTextStyle {
    fn clone(&self) -> (copy: RichTextStyle)
        ensures
            copy == *self,
    {
        RichTextStyle {
            font_family: share_family(&self.font_family),
            size: self.size,
            emphasis: self.emphasis,
            colour: self.colour,
        }
    }
}

/// A single segment of rich text that has the same formatting throughout.
/// A segment is never divided.
#[derive(Debug, PartialEq, Eq)]
pub struct RichTextSegment {
    pub text: String,
    pub style: RichTextStyle,
    /// If true, this segment belongs to the same word as the segment before it.
    pub glue_to_previous: bool,
}

/// A segment as a mathematical value.
pub struct RichTextSegmentView {
    pub text: Seq<char>,
    pub style: RichTextStyle,
    pub glue_to_previous: bool,
}

impl View for RichTextSegment {
    type V = RichTextSegmentView;

    open spec fn view(&self) -> RichTextSegmentView {
        RichTextSegmentView {
            text: self.text@,
            style: self.style,
            glue_to_previous: self.glue_to_previous,
        }
    }
}

/// The views of the segments of a paragraph.
pub open spec fn segment_views(segments: Seq<RichTextSegment>) -> Seq<RichTextSegmentView> {
    segments.map_values(|s: RichTextSegment| s@)
}

/// The views of the paragraphs of a text.
pub open spec fn paragraph_views(paragraphs: Seq<Vec<RichTextSegment>>) -> Seq<
    Seq<RichTextSegmentView>,
> {
    paragraphs.map_values(|p: Vec<RichTextSegment>| segment_views(p@))
}

/// What `char::is_whitespace` returns for `c`: whether `c` has the Unicode
/// property White_Space.
pub uninterp spec fn char_is_whitespace(c: char) -> bool;

/// Calls `char::is_whitespace`. The answer depends on the character alone.
#[verifier::external_body]
fn is_whitespace(c: char) -> (white: bool)
    ensures
        white == char_is_whitespace(c),
{
    c.is_whitespace()
}

/// Whether a word ends between `left` and `right`: after white space, before
/// anything else.
pub open spec fn splits_between(left: char, right: char) -> bool {
    char_is_whitespace(left) && !char_is_whitespace(right)
}

/// The last place up to `upto` at which `chars` split, or zero if there is none.
pub open spec fn last_split(chars: Seq<char>, upto: int) -> int
    decreases upto,
{
    if upto <= 0 || upto >= chars.len() {
        0
    } else if splits_between(chars[upto - 1], chars[upto]) {
        upto
    } else {
        last_split(chars, upto - 1)
    }
}

/// The pieces into which `chars` are cut, each with its glue. A cut is made
/// wherever white space is followed by something else, so every piece but the
/// first starts with a visible character and every piece but the last ends
/// in white space. The first piece is glued as `glue_to_previous` says, the
/// others are not glued.
pub open spec fn split_text(chars: Seq<char>, glue_to_previous: bool) -> Seq<(Seq<char>, bool)>
    decreases chars.len(),
{
    let cut = last_split(chars, chars.len() - 1);
    if cut <= 0 || cut >= chars.len() {
        seq![(chars, glue_to_previous)]
    } else {
        split_text(chars.take(cut), glue_to_previous).push((chars.skip(cut), false))
    }
}

/// The characters of `pieces`, one piece after the other.
pub open spec fn pieces_joined(pieces: Seq<(Seq<char>, bool)>) -> Seq<char>
    decreases pieces.len(),
{
    if pieces.len() == 0 {
        seq![]
    } else {
        pieces_joined(pieces.drop_last()) + pieces.last().0
    }
}

/// Cutting a text loses nothing: the pieces, put together again, are the
/// text. There is always at least one piece, the first piece carries the
/// glue that was asked for, and no other piece is glued.
pub proof fn law_split_keeps_text(chars: Seq<char>, glue_to_previous: bool)
    ensures
        pieces_joined(split_text(chars, glue_to_previous)) == chars,
        split_text(chars, glue_to_previous).len() >= 1,
        split_text(chars, glue_to_previous)[0].1 == glue_to_previous,
        forall|k: int|
            1 <= k < split_text(chars, glue_to_previous).len() ==> !(#[trigger] split_text(
                chars,
                glue_to_previous,
            )[k]).1,
    decreases chars.len(),
{
    let cut = last_split(chars, chars.len() - 1);
    lemma_last_split_bounds(chars, chars.len() - 1);
    if cut <= 0 || cut >= chars.len() {
        let pieces = seq![(chars, glue_to_previous)];
        assert(pieces.drop_last() =~= Seq::<(Seq<char>, bool)>::empty());
        assert(pieces_joined(pieces.drop_last()) =~= Seq::<char>::empty());
        assert(Seq::<char>::empty() + chars =~= chars);
    } else {
        law_split_keeps_text(chars.take(cut), glue_to_previous);
        let earlier = split_text(chars.take(cut), glue_to_previous);
        let pieces = earlier.push((chars.skip(cut), false));
        assert(pieces.drop_last() =~= earlier);
        assert(chars.take(cut) + chars.skip(cut) =~= chars);
    }
}

/// The segments that `pieces` make in the style `style`.
pub open spec fn styled_segments(pieces: Seq<(Seq<char>, bool)>, style: RichTextStyle) -> Seq<
    RichTextSegmentView,
> {
    pieces.map_values(
        |piece: (Seq<char>, bool)|
            RichTextSegmentView { text: piece.0, style, glue_to_previous: piece.1 },
    )
}

/// A rich text under construction, as a mathematical value.
pub struct BuilderView {
    pub style: RichTextStyle,
    pub paragraphs: Seq<Seq<RichTextSegmentView>>,
    pub current_paragraph: Seq<RichTextSegmentView>,
    pub is_internal: bool,
    pub text_id: u64,
}

impl BuilderView {
    /// The builder after `text` was written.
    pub open spec fn wrote(self, text: Seq<char>, glue_to_previous: bool) -> BuilderView {
        BuilderView {
            current_paragraph: self.current_paragraph + styled_segments(
                split_text(text, glue_to_previous),
                self.style,
            ),
            ..self
        }
    }

    /// The builder after the paragraph was ended.
    pub open spec fn ended_paragraph(self) -> BuilderView {
        BuilderView {
            paragraphs: self.paragraphs.push(self.current_paragraph),
            current_paragraph: seq![],
            ..self
        }
    }

    /// The builder that writes a span of this one in the style `style`.
    pub open spec fn child(self, style: RichTextStyle) -> BuilderView {
        BuilderView {
            style,
            paragraphs: seq![],
            current_paragraph: seq![],
            is_internal: true,
            text_id: self.text_id,
        }
    }

    /// The builder after the span that `child` wrote was taken in: the first
    /// paragraph of the span continues the current paragraph, and the last
    /// one stays open.
    pub open spec fn merged(self, child: BuilderView) -> BuilderView {
        if child.paragraphs.len() == 0 {
            BuilderView {
                current_paragraph: self.current_paragraph + child.current_paragraph,
                ..self
            }
        } else {
            BuilderView {
                paragraphs: self.paragraphs.push(self.current_paragraph + child.paragraphs[0])
                    + child.paragraphs.skip(1),
                current_paragraph: child.current_paragraph,
                ..self
            }
        }
    }

    /// The paragraphs of the finished text: an open paragraph counts if it
    /// holds anything.
    pub open spec fn finished(self) -> Seq<Seq<RichTextSegmentView>> {
        if self.current_paragraph.len() > 0 {
            self.paragraphs.push(self.current_paragraph)
        } else {
            self.paragraphs
        }
    }

    /// The style of this builder with the size `size`.
    pub open spec fn sized(self, size: FontSize) -> RichTextStyle {
        RichTextStyle {
            font_family: self.style.font_family,
            size,
            emphasis: self.style.emphasis,
            colour: self.style.colour,
        }
    }

    /// The style of this builder with the emphasis `emphasis`.
    pub open spec fn emphasised(self, emphasis: FontEmphasis) -> RichTextStyle {
        RichTextStyle {
            font_family: self.style.font_family,
            size: self.style.size,
            emphasis,
            colour: self.style.colour,
        }
    }

    /// The style of this builder with the colour `colour`.
    pub open spec fn tinted(self, colour: Colour) -> RichTextStyle {
        RichTextStyle {
            font_family: self.style.font_family,
            size: self.style.size,
            emphasis: self.style.emphasis,
            colour,
        }
    }
}

/// The emphasis of bold text inside text of the emphasis `outer`.
pub open spec fn emboldened(outer: FontEmphasis) -> FontEmphasis {
    match outer {
        FontEmphasis::Regular | FontEmphasis::Bold => FontEmphasis::Bold,
        FontEmphasis::Italic | FontEmphasis::BoldItalic => FontEmphasis::BoldItalic,
    }
}

/// The emphasis of italic text inside text of the emphasis `outer`.
pub open spec fn italicised(outer: FontEmphasis) -> FontEmphasis {
    match outer {
        FontEmphasis::Regular | FontEmphasis::Italic => FontEmphasis::Italic,
        FontEmphasis::Bold | FontEmphasis::BoldItalic => FontEmphasis::BoldItalic,
    }
}

/// Builds up the contents of a rich text, span by span.
#[derive(Debug, PartialEq, Eq)]
pub struct RichTextContentsBuilder {
    pub style: RichTextStyle,
    pub paragraphs: Vec<Vec<RichTextSegment>>,
    pub current_paragraph: Vec<RichTextSegment>,
    /// True if this builder writes a span inside another builder. Such a
    /// builder is never finished by itself.
    pub is_internal: bool,
    /// The number of the text that is being written.
    pub text_id: u64,
}

impl View for RichTextContentsBuilder {
    type V = BuilderView;

    open spec fn view(&self) -> BuilderView {
        BuilderView {
            style: self.style,
            paragraphs: paragraph_views(self.paragraphs@),
            current_paragraph: segment_views(self.current_paragraph@),
            is_internal: self.is_internal,
            text_id: self.text_id,
        }
    }
}

/// A text that was written to its end: its number and its paragraphs.
#[derive(Debug, PartialEq, Eq)]
pub struct FinishedText {
    pub text_id: u64,
    pub paragraphs: Vec<Vec<RichTextSegment>>,
}

proof fn lemma_last_split_of_prefix(chars: Seq<char>, n: int, upto: int)
    requires
        0 <= upto < n <= chars.len(),
    ensures
        last_split(chars.take(n), upto) == last_split(chars, upto),
    decreases upto,
{
    if upto > 0 {
        lemma_last_split_of_prefix(chars, n, upto - 1);
    }
}

proof fn lemma_last_split_bounds(chars: Seq<char>, upto: int)
    ensures
        0 <= last_split(chars, upto),
        last_split(chars, upto) <= upto || last_split(chars, upto) == 0,
        last_split(chars, upto) < chars.len() || last_split(chars, upto) == 0,
        last_split(chars, upto) > 0 ==> splits_between(
            chars[last_split(chars, upto) - 1],
            chars[last_split(chars, upto)],
        ),
    decreases upto,
{
    if upto <= 0 || upto >= chars.len() {
    } else if splits_between(chars[upto - 1], chars[upto]) {
    } else {
        lemma_last_split_bounds(chars, upto - 1);
    }
}

impl RichTextContentsBuilder {
    /// Whether a word ends between `left` and `right`.
    pub fn should_split_between(&self, left: char, right: char) -> (split: bool)
        ensures
            split == splits_between(left, right),
    {
        is_whitespace(left) && !is_whitespace(right)
    }

    /// Writes some text. The text is cut into words after its white space.
    pub fn write(self, text: &str) -> (builder: RichTextContentsBuilder)
        ensures
            builder@ == self@.wrote(text@, false),
    {
        self.write_maybe_glued(text, false)
    }

    /// Writes some text whose first word continues the word written last.
    pub fn write_glued(self, text: &str) -> (builder: RichTextContentsBuilder)
        ensures
            builder@ == self@.wrote(text@, true),
    {
        self.write_maybe_glued(text, true)
    }

    /// Writes some text whose first word continues the word written last if
    /// `glue_to_previous` says so.
    pub fn write_maybe_glued(self, text: &str, glue_to_previous: bool) -> (builder:
        RichTextContentsBuilder)
        ensures
            builder@ == self@.wrote(text@, glue_to_previous),
    {
        let mut builder = self;
        let ghost chars = text@;
        let ghost before = segment_views(builder.current_paragraph@);
        let ghost style = builder.style;
        let ghost is_internal = builder.is_internal;
        let ghost text_id = builder.text_id;
        let ghost paragraphs = builder.paragraphs;
        let len = text.unicode_len();
        let mut glue = glue_to_previous;
        let mut word_start_index: usize = 0;
        let mut i: usize = 1;
        while i < len
            invariant
                1 <= i,
                len >= 1 ==> i <= len,
                len == chars.len(),
                chars == text@,
                word_start_index < i,
                word_start_index == last_split(chars, i - 1),
                glue == (if word_start_index == 0 {
                    glue_to_previous
                } else {
                    false
                }),
                builder.style == style,
                builder.is_internal == is_internal,
                builder.text_id == text_id,
                builder.paragraphs == paragraphs,
                segment_views(builder.current_paragraph@) == (if word_start_index == 0 {
                    before
                } else {
                    before + styled_segments(
                        split_text(chars.take(word_start_index as int), glue_to_previous),
                        style,
                    )
                }),
            decreases len - i,
        {
            if builder.should_split_between(text.get_char(i - 1), text.get_char(i)) {
                let piece = text.substring_char(word_start_index, i);
                let segment = RichTextSegment {
                    text: piece.to_owned(),
                    style: builder.style.clone(),
                    glue_to_previous: glue,
                };
                let ghost held = builder.current_paragraph@;
                builder.current_paragraph.push(segment);
                proof {
                    let prefix = chars.take(i as int);
                    lemma_last_split_of_prefix(chars, i as int, i as int - 1);
                    assert(last_split(prefix, prefix.len() - 1) == word_start_index);
                    assert(segment_views(builder.current_paragraph@) =~= segment_views(held).push(
                        segment@,
                    ));
                    assert(segment@.text =~= chars.subrange(word_start_index as int, i as int));
                    if word_start_index == 0 {
                        assert(prefix =~= chars.subrange(0, i as int));
                        assert(split_text(prefix, glue_to_previous) =~= seq![
                            (prefix, glue_to_previous),
                        ]);
                        assert(styled_segments(split_text(prefix, glue_to_previous), style)
                            =~= seq![segment@]);
                        assert(before + seq![segment@] =~= before.push(segment@));
                    } else {
                        let w = word_start_index as int;
                        assert(prefix.take(w) =~= chars.take(w));
                        assert(prefix.skip(w) =~= chars.subrange(w, i as int));
                        let earlier = split_text(chars.take(w), glue_to_previous);
                        assert(split_text(prefix, glue_to_previous) == earlier.push(
                            (prefix.skip(w), false),
                        ));
                        assert(styled_segments(earlier.push((prefix.skip(w), false)), style)
                            =~= styled_segments(earlier, style).push(segment@));
                        assert(before + styled_segments(earlier, style).push(segment@) =~= (before
                            + styled_segments(earlier, style)).push(segment@));
                    }
                }
                word_start_index = i;
                glue = false;
            }
            i += 1;
        }
        let piece = text.substring_char(word_start_index, len);
        let segment = RichTextSegment {
            text: piece.to_owned(),
            style: builder.style.clone(),
            glue_to_previous: glue,
        };
        let ghost held = builder.current_paragraph@;
        builder.current_paragraph.push(segment);
        proof {
            assert(segment_views(builder.current_paragraph@) =~= segment_views(held).push(segment@));
            assert(segment@.text =~= chars.subrange(word_start_index as int, len as int));
            if len <= 1 {
                assert(word_start_index == 0);
            } else {
                assert(i == len);
            }
            assert(last_split(chars, chars.len() - 1) == word_start_index) by {
                if len <= 1 {
                } else {
                }
            }
            if word_start_index == 0 {
                assert(chars.subrange(0, len as int) =~= chars);
                assert(split_text(chars, glue_to_previous) =~= seq![(chars, glue_to_previous)]);
                assert(styled_segments(split_text(chars, glue_to_previous), style) =~= seq![
                    segment@,
                ]);
                assert(before + seq![segment@] =~= before.push(segment@));
            } else {
                let w = word_start_index as int;
                assert(chars.skip(w) =~= chars.subrange(w, len as int));
                let earlier = split_text(chars.take(w), glue_to_previous);
                assert(split_text(chars, glue_to_previous) == earlier.push((chars.skip(w), false)));
                assert(styled_segments(earlier.push((chars.skip(w), false)), style)
                    =~= styled_segments(earlier, style).push(segment@));
                assert(before + styled_segments(earlier, style).push(segment@) =~= (before
                    + styled_segments(earlier, style)).push(segment@));
            }
        }
        builder
    }

    /// Ends the paragraph. What is written next begins a new one.
    pub fn end_paragraph(self) -> (builder: RichTextContentsBuilder)
        ensures
            builder@ == self@.ended_paragraph(),
    {
        let mut builder = self;
        let ghost before = builder.paragraphs@;
        let mut paragraph: Vec<RichTextSegment> = Vec::new();
        std::mem::swap(&mut builder.current_paragraph, &mut paragraph);
        builder.paragraphs.push(paragraph);
        proof {
            assert(paragraph_views(builder.paragraphs@) =~= paragraph_views(before).push(
                segment_views(paragraph@),
            ));
            assert(segment_views(builder.current_paragraph@) =~= Seq::<RichTextSegmentView>::empty());
        }
        builder
    }
}

impl RichTextContentsBuilder {
    /// Lets `styled` write a span in the style `style` and takes in what it
    /// wrote: the first paragraph of the span continues the current
    /// paragraph, and its last paragraph stays open.
    fn internal<F: FnOnce(RichTextContentsBuilder) -> RichTextContentsBuilder>(
        self,
        style: RichTextStyle,
        styled: F,
    ) -> (builder: RichTextContentsBuilder)
        requires
            forall|child: RichTextContentsBuilder|
                child@ == self@.child(style) ==> call_requires(styled, (child,)),
        ensures
            exists|child: RichTextContentsBuilder, written: RichTextContentsBuilder|
                child@ == self@.child(style) && call_ensures(styled, (child,), written)
                    && builder@ == self@.merged(written@),
    {
        let child = RichTextContentsBuilder {
            style,
            paragraphs: Vec::new(),
            current_paragraph: Vec::new(),
            is_internal: true,
            text_id: self.text_id,
        };
        proof {
            assert(child@.paragraphs =~= self@.child(style).paragraphs);
            assert(child@.current_paragraph =~= self@.child(style).current_paragraph);
        }
        let written = styled(child);
        let ghost span = written@;
        let mut builder = self;
        let RichTextContentsBuilder { paragraphs, current_paragraph, .. } = written;
        let mut paragraphs = paragraphs;
        let mut last = current_paragraph;
        let mut k: usize = 0;
        while k < paragraphs.len()
            invariant
                k <= paragraphs.len(),
                paragraphs.len() == span.paragraphs.len(),
                forall|j: int|
                    k <= j < paragraphs.len() ==> segment_views(#[trigger] paragraphs@[j]@)
                        == span.paragraphs[j],
                builder.style == self.style,
                builder.is_internal == self.is_internal,
                builder.text_id == self.text_id,
                builder@.paragraphs == (if k == 0 {
                    self@.paragraphs
                } else {
                    self@.paragraphs.push(self@.current_paragraph + span.paragraphs[0])
                        + span.paragraphs.subrange(1, k as int)
                }),
                builder@.current_paragraph == (if k == 0 {
                    self@.current_paragraph
                } else {
                    Seq::<RichTextSegmentView>::empty()
                }),
            decreases paragraphs.len() - k,
        {
            let mut paragraph: Vec<RichTextSegment> = Vec::new();
            let slot = &mut paragraphs[k];
            std::mem::swap(slot, &mut paragraph);
            let ghost held = builder.current_paragraph@;
            let ghost moved = paragraph@;
            builder.current_paragraph.append(&mut paragraph);
            proof {
                assert(segment_views(builder.current_paragraph@) =~= segment_views(held)
                    + segment_views(moved));
            }
            let ghost before = builder@;
            builder = builder.end_paragraph();
            proof {
                let shown = if k == 0 {
                    self@.current_paragraph + span.paragraphs[0]
                } else {
                    span.paragraphs[k as int]
                };
                assert(before.current_paragraph =~= shown);
                if k == 0 {
                    assert(span.paragraphs.subrange(1, 1) =~= Seq::<
                        Seq<RichTextSegmentView>,
                    >::empty());
                    assert(builder@.paragraphs =~= self@.paragraphs.push(shown)
                        + span.paragraphs.subrange(1, 1));
                } else {
                    assert(span.paragraphs.subrange(1, k as int + 1) =~= span.paragraphs.subrange(
                        1,
                        k as int,
                    ).push(shown));
                    assert(builder@.paragraphs =~= self@.paragraphs.push(
                        self@.current_paragraph + span.paragraphs[0],
                    ) + span.paragraphs.subrange(1, k as int + 1));
                }
            }
            k += 1;
        }
        let ghost held = builder.current_paragraph@;
        let ghost moved = last@;
        builder.current_paragraph.append(&mut last);
        proof {
            assert(segment_views(builder.current_paragraph@) =~= segment_views(held)
                + segment_views(moved));
            assert(segment_views(moved) == span.current_paragraph);
            if span.paragraphs.len() == 0 {
            } else {
                assert(span.paragraphs.subrange(1, span.paragraphs.len() as int)
                    =~= span.paragraphs.skip(1));
                assert(Seq::<RichTextSegmentView>::empty() + span.current_paragraph
                    =~= span.current_paragraph);
            }
            assert(builder@ == self@.merged(span));
        }
        builder
    }

    /// Writes the span that `styled` writes at the size of a top-level heading.
    pub fn h1<F: FnOnce(RichTextContentsBuilder) -> RichTextContentsBuilder>(self, styled: F) -> (builder:
        RichTextContentsBuilder)
        requires
            forall|child: RichTextContentsBuilder|
                child@ == self@.child(self@.sized(FontSize::H1)) ==> call_requires(
                    styled,
                    (child,),
                ),
        ensures
            exists|child: RichTextContentsBuilder, written: RichTextContentsBuilder|
                child@ == self@.child(self@.sized(FontSize::H1)) && call_ensures(
                    styled,
                    (child,),
                    written,
                ) && builder@ == self@.merged(written@),
    {
        let mut style = self.style.clone();
        style.size = FontSize::H1;
        self.internal(style, styled)
    }

    /// Writes the span that `styled` writes at the size of a secondary heading.
    pub fn h2<F: FnOnce(RichTextContentsBuilder) -> RichTextContentsBuilder>(self, styled: F) -> (builder:
        RichTextContentsBuilder)
        requires
            forall|child: RichTextContentsBuilder|
                child@ == self@.child(self@.sized(FontSize::H2)) ==> call_requires(
                    styled,
                    (child,),
                ),
        ensures
            exists|child: RichTextContentsBuilder, written: RichTextContentsBuilder|
                child@ == self@.child(self@.sized(FontSize::H2)) && call_ensures(
                    styled,
                    (child,),
                    written,
                ) && builder@ == self@.merged(written@),
    {
        let mut style = self.style.clone();
        style.size = FontSize::H2;
        self.internal(style, styled)
    }

    /// Writes the span that `styled` writes at the size of a tertiary heading.
    pub fn h3<F: FnOnce(RichTextContentsBuilder) -> RichTextContentsBuilder>(self, styled: F) -> (builder:
        RichTextContentsBuilder)
        requires
            forall|child: RichTextContentsBuilder|
                child@ == self@.child(self@.sized(FontSize::H3)) ==> call_requires(
                    styled,
                    (child,),
                ),
        ensures
            exists|child: RichTextContentsBuilder, written: RichTextContentsBuilder|
                child@ == self@.child(self@.sized(FontSize::H3)) && call_ensures(
                    styled,
                    (child,),
                    written,
                ) && builder@ == self@.merged(written@),
    {
        let mut style = self.style.clone();
        style.size = FontSize::H3;
        self.internal(style, styled)
    }

    /// Writes the span that `styled` writes in bold: regular text becomes
    /// bold, italic text bold italic.
    pub fn bold<F: FnOnce(RichTextContentsBuilder) -> RichTextContentsBuilder>(self, styled: F) -> (builder:
        RichTextContentsBuilder)
        requires
            forall|child: RichTextContentsBuilder|
                child@ == self@.child(self@.emphasised(emboldened(self.style.emphasis)))
                    ==> call_requires(styled, (child,)),
        ensures
            exists|child: RichTextContentsBuilder, written: RichTextContentsBuilder|
                child@ == self@.child(self@.emphasised(emboldened(self.style.emphasis)))
                    && call_ensures(styled, (child,), written) && builder@ == self@.merged(
                    written@,
                ),
    {
        let mut style = self.style.clone();
        style.emphasis = match style.emphasis {
            FontEmphasis::Regular | FontEmphasis::Bold => FontEmphasis::Bold,
            FontEmphasis::Italic | FontEmphasis::BoldItalic => FontEmphasis::BoldItalic,
        };
        self.internal(style, styled)
    }

    /// Writes the span that `styled` writes in italics: regular text becomes
    /// italic, bold text bold italic.
    pub fn italic<F: FnOnce(RichTextContentsBuilder) -> RichTextContentsBuilder>(self, styled: F) -> (builder:
        RichTextContentsBuilder)
        requires
            forall|child: RichTextContentsBuilder|
                child@ == self@.child(self@.emphasised(italicised(self.style.emphasis)))
                    ==> call_requires(styled, (child,)),
        ensures
            exists|child: RichTextContentsBuilder, written: RichTextContentsBuilder|
                child@ == self@.child(self@.emphasised(italicised(self.style.emphasis)))
                    && call_ensures(styled, (child,), written) && builder@ == self@.merged(
                    written@,
                ),
    {
        let mut style = self.style.clone();
        style.emphasis = match style.emphasis {
            FontEmphasis::Regular | FontEmphasis::Italic => FontEmphasis::Italic,
            FontEmphasis::Bold | FontEmphasis::BoldItalic => FontEmphasis::BoldItalic,
        };
        self.internal(style, styled)
    }

    /// Writes the span that `styled` writes in the colour `colour`.
    pub fn coloured<F: FnOnce(RichTextContentsBuilder) -> RichTextContentsBuilder>(
        self,
        colour: Colour,
        styled: F,
    ) -> (builder: RichTextContentsBuilder)
        requires
            forall|child: RichTextContentsBuilder|
                child@ == self@.child(self@.tinted(colour)) ==> call_requires(styled, (child,)),
        ensures
            exists|child: RichTextContentsBuilder, written: RichTextContentsBuilder|
                child@ == self@.child(self@.tinted(colour)) && call_ensures(
                    styled,
                    (child,),
                    written,
                ) && builder@ == self@.merged(written@),
    {
        let mut style = self.style.clone();
        style.colour = colour;
        self.internal(style, styled)
    }

    /// Ends the text and hands out its paragraphs with the number of the
    /// text. A paragraph that is still open counts if anything was written
    /// into it. A builder that writes a span inside another is not finished
    /// this way.
    pub fn finish(self) -> (text: FinishedText)
        requires
            !self.is_internal,
        ensures
            text.text_id == self.text_id,
            paragraph_views(text.paragraphs@) == self@.finished(),
    {
        let ghost before = self.paragraphs@;
        let mut paragraphs = self.paragraphs;
        if self.current_paragraph.len() > 0 {
            paragraphs.push(self.current_paragraph);
            proof {
                assert(paragraph_views(paragraphs@) =~= paragraph_views(before).push(
                    segment_views(self.current_paragraph@),
                ));
            }
        }
        FinishedText { text_id: self.text_id, paragraphs }
    }
}

/// The words that one paragraph was typeset into.
#[derive(Debug, PartialEq, Eq)]
pub struct RenderableParagraph(pub Vec<RenderableWord>);

/// The words that a text was typeset into, paragraph by paragraph. Every
/// word starts at its own origin: where the words go is left to the layout.
#[derive(Debug, PartialEq, Eq)]
pub struct TypesetText {
    pub paragraphs: Vec<RenderableParagraph>,
}

/// The views of a list of words.
pub open spec fn renderable_word_views(words: Seq<RenderableWord>) -> Seq<RenderableWordView> {
    words.map_values(|w: RenderableWord| w@)
}

/// The views of the paragraphs of a typeset text.
pub open spec fn typeset_views(paragraphs: Seq<RenderableParagraph>) -> Seq<Seq<RenderableWordView>> {
    paragraphs.map_values(|p: RenderableParagraph| renderable_word_views(p.0@))
}

impl View for TypesetText {
    type V = Seq<Seq<RenderableWordView>>;

    open spec fn view(&self) -> Seq<Seq<RenderableWordView>> {
        typeset_views(self.paragraphs@)
    }
}

/// The measure nearest to `v` that a caret can hold.
pub open spec fn spec_saturated(v: int) -> i64 {
    if v > i64::MAX {
        i64::MAX
    } else if v < i64::MIN {
        i64::MIN
    } else {
        v as i64
    }
}

/// Adds two measures. A sum past either end of the range stays at that end.
pub fn saturating_sum(a: i64, b: i64) -> (sum: i64)
    ensures
        sum == spec_saturated(a + b),
{
    let wide: i128 = a as i128 + b as i128;
    if wide > i64::MAX as i128 {
        i64::MAX
    } else if wide < i64::MIN as i128 {
        i64::MIN
    } else {
        wide as i64
    }
}

/// A measure in parts of a pixel as whole pixels: the parts of a pixel are
/// cut off, a measure below zero counts as zero, and one too large for the
/// result as the largest.
pub open spec fn spec_whole_pixels(measure: i64) -> u32 {
    if measure <= 0 {
        0
    } else if measure / SUBPIXELS > u32::MAX {
        u32::MAX
    } else {
        (measure / SUBPIXELS) as u32
    }
}

/// Cuts a measure in parts of a pixel down to whole pixels.
pub fn whole_pixels(measure: i64) -> (pixels: u32)
    ensures
        pixels == spec_whole_pixels(measure),
{
    if measure <= 0 {
        0
    } else {
        let whole: u64 = measure as u64 / 64;
        if whole > u32::MAX as u64 {
            u32::MAX
        } else {
            whole as u32
        }
    }
}

/// The character shown in place of one that no font has a glyph for.
pub const REPLACEMENT_CHARACTER: char = '\u{FFFD}';

/// The state of typesetting a paragraph.
pub struct Shaping {
    /// What the font numbers stand for.
    pub fonts: Seq<FontIdSpecifier>,
    /// The words that are complete.
    pub words: Seq<RenderableWordView>,
    /// Whether a word has begun.
    pub begun: bool,
    /// The glyphs of the word that is being set.
    pub glyphs: Seq<RenderableGlyph>,
    /// Where the next glyph goes, in parts of a pixel from the start of the word.
    pub caret_x: i64,
    /// The largest line height of the glyphs of the word, in parts of a pixel.
    pub line_height: i64,
    /// The largest ascent of the glyphs of the word, in parts of a pixel.
    pub ascent: i64,
    /// The font and the glyph set last in this word.
    pub last_glyph: Option<(usize, u16)>,
}

impl Shaping {
    /// The state before anything was set, with the font numbers of `fonts`.
    pub open spec fn start(fonts: Seq<FontIdSpecifier>) -> Shaping {
        Shaping {
            fonts,
            words: seq![],
            begun: false,
            glyphs: seq![],
            caret_x: 0,
            line_height: 0,
            ascent: 0,
            last_glyph: None,
        }
    }

    /// The word that is being set, as it would be complete now.
    pub open spec fn current_word(self) -> RenderableWordView {
        RenderableWordView {
            glyphs: self.glyphs,
            size: (spec_whole_pixels(self.caret_x), spec_whole_pixels(self.line_height)),
            baseline: spec_whole_pixels(self.ascent),
        }
    }

    /// The state after a segment began. A segment that is not glued to the
    /// one before it completes the word that is being set and begins a new one.
    pub open spec fn began_segment(self, glue_to_previous: bool) -> Shaping {
        if !glue_to_previous && self.begun {
            Shaping {
                fonts: self.fonts,
                words: self.words.push(self.current_word()),
                begun: true,
                glyphs: seq![],
                caret_x: 0,
                line_height: 0,
                ascent: 0,
                last_glyph: None,
            }
        } else {
            Shaping { begun: true, ..self }
        }
    }

    /// The state after the glyph for `c` was set in the style `style`. The
    /// glyph stands at the caret, moved by the kerning between the glyph
    /// before it and itself if both are of one font; then the caret moves on
    /// by the advance of the glyph. A character that cannot be shown is left out.
    pub open spec fn shaped(self, style: RichTextStyle, c: char) -> Shaping {
        let found = glyph_or_replacement(*style.font_family, style.emphasis, c);
        match resolved_glyph(self.fonts, *style.font_family, found, style.size) {
            None => self,
            Some(resolved) => {
                let font = style.font_family.0@[resolved.face as int].spec_variant(
                    resolved.emphasis,
                ).unwrap();
                let kerning = match self.last_glyph {
                    Some((last_font, last_id)) => if last_font == resolved.font {
                        font.spec_pair_kerning(style.size, last_id, resolved.glyph)
                    } else {
                        0
                    },
                    None => 0,
                };
                let x = spec_saturated(self.caret_x + kerning);
                let line_height = spec_saturated(font.spec_line_height(style.size));
                let ascent = spec_saturated(font.spec_ascent(style.size));
                Shaping {
                    fonts: fonts_after_resolution(self.fonts, *style.font_family, found, style.size),
                    words: self.words,
                    begun: self.begun,
                    glyphs: self.glyphs.push(
                        RenderableGlyph {
                            font: resolved.font,
                            colour: style.colour,
                            glyph: PositionedGlyph {
                                id: resolved.glyph,
                                scale: style.size.spec_pixels() as u32,
                                x,
                            },
                        },
                    ),
                    caret_x: spec_saturated(
                        x + font.spec_advance_width(resolved.glyph, style.size),
                    ),
                    line_height: if line_height > self.line_height {
                        line_height
                    } else {
                        self.line_height
                    },
                    ascent: if ascent > self.ascent {
                        ascent
                    } else {
                        self.ascent
                    },
                    last_glyph: Some((resolved.font, resolved.glyph)),
                }
            },
        }
    }

    /// The state after all of `chars` were set in the style `style`.
    pub open spec fn shaped_all(self, style: RichTextStyle, chars: Seq<char>) -> Shaping
        decreases chars.len(),
    {
        if chars.len() == 0 {
            self
        } else {
            self.shaped_all(style, chars.drop_last()).shaped(style, chars.last())
        }
    }

    /// The state after all of `segments` were set.
    pub open spec fn set(self, segments: Seq<RichTextSegmentView>) -> Shaping
        decreases segments.len(),
    {
        if segments.len() == 0 {
            self
        } else {
            let segment = segments.last();
            self.set(segments.drop_last()).began_segment(segment.glue_to_previous).shaped_all(
                segment.style,
                segment.text,
            )
        }
    }

    /// All words, the one that is being set included.
    pub open spec fn finished_words(self) -> Seq<RenderableWordView> {
        if self.begun {
            self.words.push(self.current_word())
        } else {
            self.words
        }
    }
}

/// The glyph that shows `c`: the glyph of `c` itself, else that of the
/// replacement character, else that of a question mark, each from the first
/// face that has it.
pub open spec fn glyph_or_replacement(family: FontFamily, emphasis: FontEmphasis, c: char) -> Option<
    (int, FontEmphasis, u16),
> {
    if family.resolution(emphasis, c).is_some() {
        family.resolution(emphasis, c)
    } else if family.resolution(emphasis, REPLACEMENT_CHARACTER).is_some() {
        family.resolution(emphasis, REPLACEMENT_CHARACTER)
    } else {
        family.resolution(emphasis, '?')
    }
}

/// The words of one paragraph: a new word begins with every segment that is
/// not glued to the segment before it.
pub open spec fn typeset_paragraph(fonts: Seq<FontIdSpecifier>, paragraph: Seq<RichTextSegmentView>) -> Seq<
    RenderableWordView,
> {
    Shaping::start(fonts).set(paragraph).finished_words()
}

/// The font numbers after the first `count` of `paragraphs` were typeset.
pub open spec fn fonts_after_paragraphs(
    fonts: Seq<FontIdSpecifier>,
    paragraphs: Seq<Seq<RichTextSegmentView>>,
    count: nat,
) -> Seq<FontIdSpecifier>
    decreases count,
{
    if count == 0 || count > paragraphs.len() {
        fonts
    } else {
        Shaping::start(fonts_after_paragraphs(fonts, paragraphs, (count - 1) as nat)).set(
            paragraphs[count - 1],
        ).fonts
    }
}

/// The words of a text, paragraph by paragraph. Fonts get their numbers in
/// the order in which the text needs them.
pub open spec fn typeset_text(fonts: Seq<FontIdSpecifier>, paragraphs: Seq<Seq<RichTextSegmentView>>) -> Seq<
    Seq<RenderableWordView>,
> {
    Seq::new(
        paragraphs.len(),
        |k: int|
            typeset_paragraph(fonts_after_paragraphs(fonts, paragraphs, k as nat), paragraphs[k]),
    )
}

/// Finds the glyph that shows `c`: its own, else that of the replacement
/// character, else that of a question mark.
pub fn get_glyph_or_replacement(
    registry: &mut FontRegistry,
    font_family: &FontFamily,
    emphasis: FontEmphasis,
    font_size: FontSize,
    c: char,
) -> (found: Option<ResolvedGlyph>)
    ensures
        found == resolved_glyph(
            old(registry).fonts@,
            *font_family,
            glyph_or_replacement(*font_family, emphasis, c),
            font_size,
        ),
        final(registry).fonts@ == fonts_after_resolution(
            old(registry).fonts@,
            *font_family,
            glyph_or_replacement(*font_family, emphasis, c),
            font_size,
        ),
        final(registry).next_font_face_id == old(registry).next_font_face_id,
{
    let own = get_font_for_character(registry, font_family, emphasis, font_size, c);
    if own.is_some() {
        return own;
    }
    let replacement = get_font_for_character(
        registry,
        font_family,
        emphasis,
        font_size,
        REPLACEMENT_CHARACTER,
    );
    if replacement.is_some() {
        return replacement;
    }
    get_font_for_character(registry, font_family, emphasis, font_size, '?')
}

/// The word under construction while a paragraph is typeset.
struct WordInProgress {
    words: Vec<RenderableWord>,
    begun: bool,
    glyphs: Vec<RenderableGlyph>,
    caret_x: i64,
    line_height: i64,
    ascent: i64,
    last_glyph: Option<(usize, u16)>,
}

impl WordInProgress {
    spec fn shaping(&self, fonts: Seq<FontIdSpecifier>) -> Shaping {
        Shaping {
            fonts,
            words: renderable_word_views(self.words@),
            begun: self.begun,
            glyphs: self.glyphs@,
            caret_x: self.caret_x,
            line_height: self.line_height,
            ascent: self.ascent,
            last_glyph: self.last_glyph,
        }
    }

    fn complete_word(&mut self)
        ensures
            final(self).shaping(seq![]) == (Shaping {
                words: old(self).shaping(seq![]).words.push(old(self).shaping(seq![]).current_word()),
                begun: true,
                glyphs: seq![],
                caret_x: 0,
                line_height: 0,
                ascent: 0,
                last_glyph: None,
                fonts: seq![],
            }),
    {
        let mut glyphs: Vec<RenderableGlyph> = Vec::new();
        std::mem::swap(&mut self.glyphs, &mut glyphs);
        let word = RenderableWord {
            glyphs,
            size: (whole_pixels(self.caret_x), whole_pixels(self.line_height)),
            baseline: whole_pixels(self.ascent),
        };
        let ghost before = self.words@;
        self.words.push(word);
        self.begun = true;
        self.caret_x = 0;
        self.line_height = 0;
        self.ascent = 0;
        self.last_glyph = None;
        proof {
            assert(renderable_word_views(self.words@) =~= renderable_word_views(before).push(word@));
        }
    }

    fn shape(&mut self, registry: &mut FontRegistry, style: &RichTextStyle, c: char)
        ensures
            final(self).shaping(final(registry).fonts@) == old(self).shaping(
                old(registry).fonts@,
            ).shaped(*style, c),
            final(registry).next_font_face_id == old(registry).next_font_face_id,
    {
        let family: &FontFamily = &style.font_family;
        let faces = family.0.len();
        let ghost found = glyph_or_replacement(*family, style.emphasis, c);
        let resolved = match get_glyph_or_replacement(
            registry,
            family,
            style.emphasis,
            style.size,
            c,
        ) {
            Some(resolved) => resolved,
            None => {
                return ;
            },
        };
        proof {
            lemma_resolution_is_sound(family.0@, style.emphasis, c, 0);
            lemma_resolution_is_sound(family.0@, style.emphasis, REPLACEMENT_CHARACTER, 0);
            lemma_resolution_is_sound(family.0@, style.emphasis, '?', 0);
            assert(faces == family.0@.len());
        }
        let font = match family.0[resolved.face].variant(resolved.emphasis) {
            Some(font) => font,
            None => {
                return ;
            },
        };
        let kerning: i64 = match self.last_glyph {
            Some((last_font, last_id)) => if last_font == resolved.font {
                font.pair_kerning(style.size, last_id, resolved.glyph)
            } else {
                0
            },
            None => 0,
        };
        let x = saturating_sum(self.caret_x, kerning);
        let height = font.line_height(style.size);
        self.glyphs.push(
            RenderableGlyph {
                font: resolved.font,
                colour: style.colour,
                glyph: PositionedGlyph { id: resolved.glyph, scale: style.size.pixels(), x },
            },
        );
        self.caret_x = saturating_sum(x, font.advance_width(resolved.glyph, style.size));
        if height > self.line_height {
            self.line_height = height;
        }
        let ascent = font.ascent(style.size);
        if ascent > self.ascent {
            self.ascent = ascent;
        }
        self.last_glyph = Some((resolved.font, resolved.glyph));
    }
}

proof fn lemma_resolution_is_sound(faces: Seq<FontFace>, emphasis: FontEmphasis, c: char, from: int)
    requires
        0 <= from,
    ensures
        family_resolution(faces, emphasis, c, from) matches Some((face, variant, glyph)) ==> {
            &&& from <= face < faces.len()
            &&& glyph != 0
            &&& faces[face].variant_glyph(variant, c) == glyph
            &&& faces[face].spec_variant(variant).is_some()
        },
    decreases faces.len() - from,
{
    if from < faces.len() {
        if faces[from].resolution(emphasis, c).is_none() {
            lemma_resolution_is_sound(faces, emphasis, c, from + 1);
        }
    }
}

/// Typesets one paragraph: shapes the characters of its segments into
/// glyphs and gathers the glyphs into words. Fonts that are used for the
/// first time get their number from `registry`.
pub fn typeset_rich_text_paragraph(registry: &mut FontRegistry, paragraph: &Vec<RichTextSegment>) -> (typeset:
    RenderableParagraph)
    ensures
        renderable_word_views(typeset.0@) == typeset_paragraph(
            old(registry).fonts@,
            segment_views(paragraph@),
        ),
        final(registry).fonts@ == Shaping::start(old(registry).fonts@).set(
            segment_views(paragraph@),
        ).fonts,
        final(registry).next_font_face_id == old(registry).next_font_face_id,
{
    let ghost fonts = registry.fonts@;
    let ghost segments = segment_views(paragraph@);
    let mut state = WordInProgress {
        words: Vec::new(),
        begun: false,
        glyphs: Vec::new(),
        caret_x: 0,
        line_height: 0,
        ascent: 0,
        last_glyph: None,
    };
    proof {
        assert(state.shaping(fonts).words =~= Shaping::start(fonts).words);
        assert(state.shaping(fonts).glyphs =~= Shaping::start(fonts).glyphs);
        assert(segments.take(0) =~= Seq::<RichTextSegmentView>::empty());
    }
    let mut k: usize = 0;
    while k < paragraph.len()
        invariant
            k <= paragraph.len(),
            segments == segment_views(paragraph@),
            registry.next_font_face_id == old(registry).next_font_face_id,
            state.shaping(registry.fonts@) == Shaping::start(fonts).set(segments.take(k as int)),
        decreases paragraph.len() - k,
    {
        let segment = &paragraph[k];
        let ghost before = state.shaping(registry.fonts@);
        if !segment.glue_to_previous && state.begun {
            let ghost held = state.shaping(seq![]);
            state.complete_word();
            proof {
                assert(state.shaping(registry.fonts@) == before.began_segment(
                    segment.glue_to_previous,
                ));
            }
        } else {
            state.begun = true;
        }
        let ghost begun = state.shaping(registry.fonts@);
        let text = segment.text.as_str();
        let len = text.unicode_len();
        let mut i: usize = 0;
        proof {
            assert(text@.take(0) =~= Seq::<char>::empty());
        }
        while i < len
            invariant
                i <= len,
                len == text@.len(),
                text@ == segment.text@,
                registry.next_font_face_id == old(registry).next_font_face_id,
                state.shaping(registry.fonts@) == begun.shaped_all(
                    segment.style,
                    text@.take(i as int),
                ),
            decreases len - i,
        {
            proof {
                assert(text@.take(i as int + 1).drop_last() =~= text@.take(i as int));
            }
            state.shape(registry, &segment.style, text.get_char(i));
            i += 1;
        }
        proof {
            assert(text@.take(len as int) =~= text@);
            assert(segments.take(k as int + 1).drop_last() =~= segments.take(k as int));
            assert(segments.take(k as int + 1).last() == paragraph@[k as int]@);
        }
        k += 1;
    }
    proof {
        assert(segments.take(k as int) =~= segments);
    }
    if state.begun {
        state.complete_word();
    }
    RenderableParagraph(state.words)
}

/// Typesets a text, one paragraph after the other.
pub fn typeset_rich_text(registry: &mut FontRegistry, paragraphs: &Vec<Vec<RichTextSegment>>) -> (typeset:
    TypesetText)
    ensures
        typeset@ == typeset_text(old(registry).fonts@, paragraph_views(paragraphs@)),
        final(registry).fonts@ == fonts_after_paragraphs(
            old(registry).fonts@,
            paragraph_views(paragraphs@),
            paragraphs@.len(),
        ),
        final(registry).next_font_face_id == old(registry).next_font_face_id,
{
    let ghost fonts = registry.fonts@;
    let ghost views = paragraph_views(paragraphs@);
    let mut renderable_paragraphs: Vec<RenderableParagraph> = Vec::new();
    let mut k: usize = 0;
    while k < paragraphs.len()
        invariant
            k <= paragraphs.len(),
            views == paragraph_views(paragraphs@),
            registry.next_font_face_id == old(registry).next_font_face_id,
            registry.fonts@ == fonts_after_paragraphs(fonts, views, k as nat),
            renderable_paragraphs@.len() == k,
            forall|j: int|
                0 <= j < k ==> renderable_word_views((#[trigger] renderable_paragraphs@[j]).0@)
                    == typeset_paragraph(fonts_after_paragraphs(fonts, views, j as nat), views[j]),
        decreases paragraphs.len() - k,
    {
        let paragraph = typeset_rich_text_paragraph(registry, &paragraphs[k]);
        renderable_paragraphs.push(paragraph);
        k += 1;
    }
    let typeset = TypesetText { paragraphs: renderable_paragraphs };
    proof {
        assert(typeset@ =~= typeset_text(fonts, views));
    }
    typeset
}

/// How many words `segments` make: one for the first segment, and one more
/// for every later segment that is not glued to the segment before it.
pub open spec fn word_starts(segments: Seq<RichTextSegmentView>) -> nat
    decreases segments.len(),
{
    if segments.len() == 0 {
        0
    } else {
        word_starts(segments.drop_last()) + if segments.len() == 1
            || !segments.last().glue_to_previous {
            1nat
        } else {
            0nat
        }
    }
}

proof fn lemma_shaping_keeps_words(state: Shaping, style: RichTextStyle, chars: Seq<char>)
    ensures
        state.shaped_all(style, chars).words == state.words,
        state.shaped_all(style, chars).begun == state.begun,
    decreases chars.len(),
{
    if chars.len() > 0 {
        lemma_shaping_keeps_words(state, style, chars.drop_last());
    }
}

proof fn lemma_words_set(fonts: Seq<FontIdSpecifier>, segments: Seq<RichTextSegmentView>)
    ensures
        Shaping::start(fonts).set(segments).begun == (segments.len() > 0),
        Shaping::start(fonts).set(segments).finished_words().len() == word_starts(segments),
    decreases segments.len(),
{
    if segments.len() > 0 {
        let head = segments.drop_last();
        lemma_words_set(fonts, head);
        let before = Shaping::start(fonts).set(head);
        let begun = before.began_segment(segments.last().glue_to_previous);
        lemma_shaping_keeps_words(begun, segments.last().style, segments.last().text);
    }
}

/// Glue keeps segments in one word. A paragraph is typeset into one word for
/// its first segment and one more for every later segment that is not glued
/// to the one before it: glued segments never add a word, and segments that
/// are not glued always do.
pub proof fn law_words_follow_glue(fonts: Seq<FontIdSpecifier>, segments: Seq<RichTextSegmentView>)
    ensures
        typeset_paragraph(fonts, segments).len() == word_starts(segments),
{
    lemma_words_set(fonts, segments);
}

} // verus!
