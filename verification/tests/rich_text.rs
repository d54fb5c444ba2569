use qs_client::font::{FontFace, FontFamily, FontRegistry, GlyphEntry, Typeface};
use qs_client::rich_text::{paragraph_style, paragraph_widget, RichText};
use qs_client::style::{AlignItems, FlexDirection, FlexWrap, Style};
use qs_client::text::{typeset_rich_text, RenderableParagraph, RenderableWord, TypesetText};
use qs_client::widget::{Element, Widget};
use std::sync::Arc;

fn family(registry: &mut FontRegistry) -> Arc<FontFamily> {
    let font = Typeface {
        glyphs: "abc "
            .chars()
            .enumerate()
            .map(|(i, character)| GlyphEntry { character, id: 1 + i as u16, advance: 1000 })
            .collect(),
        kerning: Vec::new(),
        ascent: 750,
        descent: -250,
        line_gap: 0,
    };
    let face = FontFace::new(registry, "Plain".to_string(), font, None, None, None);
    Arc::new(FontFamily::new(vec![face]))
}

fn shown_words(widget: &Widget) -> Vec<Vec<RenderableWord>> {
    widget
        .0
        .children
        .iter()
        .map(|paragraph| {
            assert!(matches!(paragraph.0.element, Element::RichTextContainer));
            paragraph
                .0
                .children
                .iter()
                .map(|word| match &word.0.element {
                    Element::Word(word) => word.clone(),
                    _ => panic!("a paragraph holds words only"),
                })
                .collect()
        })
        .collect()
}

fn words_of(typeset: &TypesetText) -> Vec<Vec<RenderableWord>> {
    typeset.paragraphs.iter().map(|p| p.0.clone()).collect()
}

#[test]
fn new_rich_text_is_an_empty_column() {
    let style = Style { flex_wrap: FlexWrap::Wrap, ..Style::default() };
    let text = RichText::new(style);
    assert_eq!(text.0.current_text_id, 0);
    assert!(text.0.paragraphs.is_empty());
    assert!(matches!(text.0.widget.0.element, Element::RichTextContainer));
    assert!(text.0.widget.0.children.is_empty());
    assert!(text.0.widget.0.backgrounds.is_empty());
    assert_eq!(text.0.widget.0.layout, None);
    assert_eq!(
        text.0.widget.0.style,
        Style { flex_direction: FlexDirection::Column, flex_wrap: FlexWrap::Wrap, ..Style::default() }
    );
}

#[test]
fn a_text_that_is_current_is_taken() {
    let mut registry = FontRegistry::new();
    let family = family(&mut registry);
    let mut text = RichText::new(Style::default());
    let finished = text.set_text(Arc::clone(&family)).write("ab c").end_paragraph().write("a").finish();
    assert_eq!(finished.text_id, 1);
    assert_eq!(text.0.current_text_id, 1);
    let typeset = typeset_rich_text(&mut registry, &finished.paragraphs);
    text.0.widget.0.needs_layout = false;
    assert!(text.0.write(finished.text_id, finished.paragraphs, &typeset));
    assert_eq!(text.0.paragraphs.len(), 2);
    assert_eq!(text.0.paragraphs[0][0].text, "ab ");
    assert_eq!(shown_words(&text.0.widget), words_of(&typeset));
    assert_eq!(shown_words(&text.0.widget)[0].len(), 2);
    assert!(text.0.widget.0.needs_layout);
    for paragraph in &text.0.widget.0.children {
        assert_eq!(paragraph.0.style, paragraph_style());
        assert_eq!(paragraph.0.layout, None);
        for word in &paragraph.0.children {
            assert_eq!(word.0.style, Style::default());
            assert!(word.0.children.is_empty());
        }
    }
}

#[test]
fn the_text_set_last_wins_when_it_arrives_first() {
    let mut registry = FontRegistry::new();
    let family = family(&mut registry);
    let mut text = RichText::new(Style::default());
    let first = text.set_text(Arc::clone(&family)).write("a a a").finish();
    let second = text.set_text(Arc::clone(&family)).write("b").finish();
    assert_eq!((first.text_id, second.text_id), (1, 2));
    let first_typeset = typeset_rich_text(&mut registry, &first.paragraphs);
    let second_typeset = typeset_rich_text(&mut registry, &second.paragraphs);
    assert!(text.0.write(second.text_id, second.paragraphs, &second_typeset));
    assert!(!text.0.write(first.text_id, first.paragraphs, &first_typeset));
    assert_eq!(shown_words(&text.0.widget), words_of(&second_typeset));
    assert_eq!(text.0.paragraphs.len(), 1);
    assert_eq!(text.0.paragraphs[0][0].text, "b");
    assert_eq!(text.0.current_text_id, 2);
}

#[test]
fn the_text_set_last_wins_when_it_arrives_last() {
    let mut registry = FontRegistry::new();
    let family = family(&mut registry);
    let mut text = RichText::new(Style::default());
    let first = text.set_text(Arc::clone(&family)).write("a a a").finish();
    let second = text.set_text(Arc::clone(&family)).write("b").finish();
    let first_typeset = typeset_rich_text(&mut registry, &first.paragraphs);
    let second_typeset = typeset_rich_text(&mut registry, &second.paragraphs);
    assert!(!text.0.write(first.text_id, first.paragraphs, &first_typeset));
    assert!(text.0.widget.0.children.is_empty());
    assert!(text.0.write(second.text_id, second.paragraphs, &second_typeset));
    assert_eq!(shown_words(&text.0.widget), words_of(&second_typeset));
    assert_eq!(shown_words(&text.0.widget).len(), 1);
    assert_eq!(shown_words(&text.0.widget)[0].len(), 1);
}

#[test]
fn paragraph_widgets_wrap_their_words() {
    let style = paragraph_style();
    assert_eq!(style.flex_wrap, FlexWrap::Wrap);
    assert_eq!(style.align_items, AlignItems::FlexEnd);
    assert_eq!(
        Style { flex_wrap: FlexWrap::NoWrap, align_items: AlignItems::Stretch, ..style },
        Style::default()
    );
    let word = |width: u32| RenderableWord { glyphs: Vec::new(), size: (width, 3), baseline: 2 };
    let widget = paragraph_widget(&RenderableParagraph(vec![word(1), word(2)]));
    assert!(matches!(widget.0.element, Element::RichTextContainer));
    assert_eq!(widget.0.children.len(), 2);
    assert!(matches!(&widget.0.children[1].0.element, Element::Word(w) if *w == word(2)));
}
