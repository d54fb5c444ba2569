//! A rich text that can be set again while an earlier version is still
//! being typeset: of the versions under way, only the latest is shown.

use std::sync::Arc;
use vstd::prelude::*;
use crate::font::FontFamily;
use crate::style::{AlignItems, FlexDirection, FlexWrap, Style};
use crate::text::{
    paragraph_views, renderable_word_views, BuilderView, RenderableParagraph, RenderableWordView,
    RichTextContentsBuilder, RichTextSegment, RichTextSegmentView, RichTextStyle, TypesetText,
};
use crate::widget::{Element, Widget};

verus! {

/// What a rich text holds.
pub struct RichTextContents {
    /// The source of the text that is shown: paragraphs of segments.
    pub paragraphs: Vec<Vec<RichTextSegment>>,
    /// The widget that shows the text: a container that holds one container
    /// for each paragraph, which holds one widget for each word.
    pub widget: Widget,
    /// How often the text was set. A version that was typeset is shown only
    /// if it carries this number.
    pub current_text_id: u64,
}

/// Text that may be styled with colours and other formatting, such as bold
/// and italic letters.
pub struct RichText(pub RichTextContents);

/// The style of the widget of a paragraph: its words wrap, and stand on a
/// common line at their lower edge.
pub open spec fn spec_paragraph_style() -> Style {
    Style { flex_wrap: FlexWrap::Wrap, align_items: AlignItems::FlexEnd, ..Style::spec_default() }
}

/// Whether `w` is the widget of the word `word`.
pub open spec fn is_word_widget(w: Widget, word: RenderableWordView) -> bool {
    &&& w.0.element matches Element::Word(shown)
    &&& shown@ == word
    &&& w.0.children@.len() == 0
    &&& w.0.backgrounds@.len() == 0
    &&& w.0.layout.is_none()
    &&& w.0.style == Style::spec_default()
}

/// Whether `w` is the widget of a paragraph of the words `words`.
pub open spec fn is_paragraph_widget(w: Widget, words: Seq<RenderableWordView>) -> bool {
    &&& w.0.element is RichTextContainer
    &&& w.0.backgrounds@.len() == 0
    &&& w.0.layout.is_none()
    &&& w.0.style == spec_paragraph_style()
    &&& w.0.children@.len() == words.len()
    &&& forall|k: int| 0 <= k < words.len() ==> is_word_widget(#[trigger] w.0.children@[k], words[k])
}

/// Whether the widgets `children` show the typeset text `typeset`, one
/// widget for each paragraph.
pub open spec fn shows(children: Seq<Widget>, typeset: Seq<Seq<RenderableWordView>>) -> bool {
    &&& children.len() == typeset.len()
    &&& forall|p: int|
        0 <= p < typeset.len() ==> is_paragraph_widget(#[trigger] children[p], typeset[p])
}

/// What matters of a rich text when versions of it race: which version is
/// current, and what is shown.
pub struct RichTextModel {
    pub current_text_id: u64,
    /// The source of the text that is shown.
    pub source: Seq<Seq<RichTextSegmentView>>,
    /// The widgets that show the text.
    pub children: Seq<Widget>,
}

impl RichTextModel {
    /// The text after a new version was begun.
    pub open spec fn began_text(self) -> RichTextModel {
        RichTextModel { current_text_id: (self.current_text_id + 1) as u64, ..self }
    }

    /// The text after the version `text_id` arrived, typeset into `children`:
    /// it is taken if it is the current version, and dropped if it is not.
    pub open spec fn wrote(
        self,
        text_id: u64,
        source: Seq<Seq<RichTextSegmentView>>,
        children: Seq<Widget>,
    ) -> RichTextModel {
        if self.current_text_id == text_id {
            RichTextModel { current_text_id: self.current_text_id, source, children }
        } else {
            self
        }
    }
}

impl View for RichTextContents {
    type V = RichTextModel;

    open spec fn view(&self) -> RichTextModel {
        RichTextModel {
            current_text_id: self.current_text_id,
            source: paragraph_views(self.paragraphs@),
            children: self.widget.0.children@,
        }
    }
}

/// The last version wins. When a text is set twice, the version set second is
/// the one that is shown, in whichever order the two arrive from typesetting:
/// the version set first is dropped, whether it arrives early or late.
pub proof fn law_last_text_wins(
    text: RichTextModel,
    first_source: Seq<Seq<RichTextSegmentView>>,
    first_children: Seq<Widget>,
    second_source: Seq<Seq<RichTextSegmentView>>,
    second_children: Seq<Widget>,
)
    requires
        text.current_text_id + 2 <= u64::MAX,
    ensures
        ({
            let first = text.began_text();
            let second = first.began_text();
            let late = second.wrote(second.current_text_id, second_source, second_children).wrote(
                first.current_text_id,
                first_source,
                first_children,
            );
            let early = second.wrote(first.current_text_id, first_source, first_children).wrote(
                second.current_text_id,
                second_source,
                second_children,
            );
            &&& late.children == second_children
            &&& late.source == second_source
            &&& early.children == second_children
            &&& early.source == second_source
            &&& second.wrote(first.current_text_id, first_source, first_children) == second
        }),
{
}

/// The style of the widget of a paragraph.
pub fn paragraph_style() -> (style: Style)
    ensures
        style == spec_paragraph_style(),
{
    let mut style = Style::default();
    style.flex_wrap = FlexWrap::Wrap;
    style.align_items = AlignItems::FlexEnd;
    style
}

/// The widget that shows one paragraph: a container of one widget for each word.
pub fn paragraph_widget(paragraph: &RenderableParagraph) -> (widget: Widget)
    ensures
        is_paragraph_widget(widget, renderable_word_views(paragraph.0@)),
        widget.0.needs_layout,
{
    let mut words: Vec<Widget> = Vec::new();
    let mut k: usize = 0;
    while k < paragraph.0.len()
        invariant
            k <= paragraph.0.len(),
            words@.len() == k,
            forall|j: int| 0 <= j < k ==> is_word_widget(#[trigger] words@[j], paragraph.0@[j]@),
        decreases paragraph.0.len() - k,
    {
        let word = Widget::new(
            Element::Word(paragraph.0[k].clone()),
            Vec::new(),
            Vec::new(),
            Style::default(),
        );
        words.push(word);
        k += 1;
    }
    Widget::new(Element::RichTextContainer, words, Vec::new(), paragraph_style())
}

impl RichTextContents {
    /// Takes in the version `text_id` of the text, with its source and what
    /// it was typeset into. If the text was set again since this version
    /// was begun, the version is out of date: it is dropped, and nothing
    /// changes. Else its words replace what the widget showed, and the
    /// widget asks for a new layout.
    pub fn write(&mut self, text_id: u64, paragraphs: Vec<Vec<RichTextSegment>>, typeset: &TypesetText) -> (taken:
        bool)
        ensures
            taken == (old(self).current_text_id == text_id),
            taken ==> {
                &&& final(self).paragraphs == paragraphs
                &&& shows(final(self).widget.0.children@, typeset@)
                &&& final(self).widget.0.needs_layout
                &&& final(self).widget.0.element == old(self).widget.0.element
                &&& final(self).widget.0.backgrounds == old(self).widget.0.backgrounds
                &&& final(self).widget.0.style == old(self).widget.0.style
                &&& final(self).widget.0.layout == old(self).widget.0.layout
                &&& final(self)@ == old(self)@.wrote(
                    text_id,
                    paragraph_views(paragraphs@),
                    final(self).widget.0.children@,
                )
            },
            !taken ==> *final(self) == *old(self),
            final(self).current_text_id == old(self).current_text_id,
    {
        if self.current_text_id != text_id {
            return false;
        }
        self.paragraphs = paragraphs;
        let mut children: Vec<Widget> = Vec::new();
        let mut p: usize = 0;
        while p < typeset.paragraphs.len()
            invariant
                p <= typeset.paragraphs.len(),
                children@.len() == p,
                forall|j: int|
                    0 <= j < p ==> is_paragraph_widget(
                        #[trigger] children@[j],
                        renderable_word_views(typeset.paragraphs@[j].0@),
                    ),
            decreases typeset.paragraphs.len() - p,
        {
            children.push(paragraph_widget(&typeset.paragraphs[p]));
            p += 1;
        }
        self.widget.0.children = children;
        self.widget.0.force_layout();
        true
    }
}

impl RichText {
    /// An empty rich text whose paragraphs are laid out one below the other
    /// in a widget of the style `style`.
    pub fn new(style: Style) -> (text: RichText)
        ensures
            text.0.current_text_id == 0,
            text.0.paragraphs@.len() == 0,
            text.0.widget.0.element is RichTextContainer,
            text.0.widget.0.children@.len() == 0,
            text.0.widget.0.backgrounds@.len() == 0,
            text.0.widget.0.layout.is_none(),
            text.0.widget.0.style == (Style { flex_direction: FlexDirection::Column, ..style }),
    {
        let mut column = style;
        column.flex_direction = FlexDirection::Column;
        let widget = Widget::new(Element::RichTextContainer, Vec::new(), Vec::new(), column);
        RichText(RichTextContents { paragraphs: Vec::new(), current_text_id: 0, widget })
    }

    /// Begins a new version of the text, to be written in `font_family`.
    /// Every version begun before is out of date from now on.
    pub fn set_text(&mut self, font_family: Arc<FontFamily>) -> (builder: RichTextContentsBuilder)
        requires
            old(self).0.current_text_id < u64::MAX,
        ensures
            final(self).0@ == old(self).0@.began_text(),
            final(self).0.paragraphs == old(self).0.paragraphs,
            final(self).0.widget == old(self).0.widget,
            builder@ == (BuilderView {
                style: RichTextStyle::spec_default(font_family),
                paragraphs: seq![],
                current_paragraph: seq![],
                is_internal: false,
                text_id: final(self).0.current_text_id,
            }),
    {
        self.0.current_text_id = self.0.current_text_id + 1;
        let builder = RichTextContentsBuilder {
            style: RichTextStyle::default(font_family),
            paragraphs: Vec::new(),
            current_paragraph: Vec::new(),
            is_internal: false,
            text_id: self.0.current_text_id,
        };
        proof {
            assert(builder@.paragraphs =~= Seq::<Seq<RichTextSegmentView>>::empty());
            assert(builder@.current_paragraph =~= Seq::<RichTextSegmentView>::empty());
        }
        builder
    }
}

} // verus!
