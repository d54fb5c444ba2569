use qs_client::assets::AssetHandle;
use qs_client::field::{Field, FieldElement};
use qs_client::font::{FontFace, FontFamily, FontRegistry, GlyphEntry, Typeface};
use qs_client::style::{FlexDirection, FlexWrap, Style};
use qs_client::text::typeset_rich_text;
use qs_client::texture::{NinePatch, TextureRegion};
use qs_client::widget::Element;
use std::sync::Arc;

fn family(registry: &mut FontRegistry) -> Arc<FontFamily> {
    let font = Typeface {
        glyphs: "Helo,wrd!Tisaf. "
            .chars()
            .enumerate()
            .map(|(i, character)| GlyphEntry { character, id: 1 + i as u16, advance: 600 })
            .collect(),
        kerning: Vec::new(),
        ascent: 900,
        descent: -300,
        line_gap: 0,
    };
    let face = FontFace::new(registry, "Plain".to_string(), font, None, None, None);
    Arc::new(FontFamily::new(vec![face]))
}

fn caret() -> NinePatch {
    NinePatch::no_margins(TextureRegion::new(AssetHandle { id: 3 }))
}

#[test]
fn a_new_field_hands_out_its_first_text() {
    let mut registry = FontRegistry::new();
    let family = family(&mut registry);
    let style = Style { flex_wrap: FlexWrap::Wrap, ..Style::default() };
    let text_style = Style { flex_shrink: 3, ..Style::default() };
    let (field, text) = Field::new(caret(), family, style, text_style);
    assert_eq!(field.contents, "");
    assert_eq!(field.rich_text.0.current_text_id, 1);
    let widget = field.get_widget();
    assert_eq!(widget.0.style, style);
    assert_eq!(widget.0.layout, None);
    assert!(matches!(&widget.0.element, Element::Field(element) if *element == FieldElement::new(caret())));
    assert_eq!(widget.0.children.len(), 1);
    assert!(matches!(widget.0.children[0].0.element, Element::RichTextContainer));
    assert!(widget.0.children[0].0.children.is_empty());
    assert_eq!(
        widget.0.children[0].0.style,
        Style { flex_direction: FlexDirection::Column, ..text_style }
    );
    assert_eq!(text.text_id, 1);
    let written: Vec<&str> = text.paragraphs[0].iter().map(|s| s.text.as_str()).collect();
    assert_eq!(written, vec!["Hello, ", "world! ", "This ", "is ", "a ", "field."]);
    assert_eq!(text.paragraphs.len(), 1);
}

#[test]
fn a_field_shows_the_text_that_is_current() {
    let mut registry = FontRegistry::new();
    let family = family(&mut registry);
    let (mut field, first) = Field::new(caret(), Arc::clone(&family), Style::default(), Style::default());
    let second = field.rich_text.set_text(family).write("Hi all").finish();
    let first_typeset = typeset_rich_text(&mut registry, &first.paragraphs);
    let second_typeset = typeset_rich_text(&mut registry, &second.paragraphs);
    assert!(!field.write(first.text_id, first.paragraphs, &first_typeset));
    assert!(field.get_widget().0.children[0].0.children.is_empty());
    field.widget.0.children[0].0.needs_layout = false;
    assert!(field.write(second.text_id, second.paragraphs, &second_typeset));
    let shown = &field.get_widget().0.children[0];
    assert!(shown.0.needs_layout);
    assert_eq!(shown.0.children.len(), 1);
    let words: Vec<_> = shown.0.children[0]
        .0
        .children
        .iter()
        .map(|word| match &word.0.element {
            Element::Word(word) => word.clone(),
            _ => panic!("a paragraph holds words only"),
        })
        .collect();
    assert_eq!(words, second_typeset.paragraphs[0].0);
    assert_eq!(words.len(), 2);
    // Three glyphs of 600 units each, in a font of 1200 units set 24 pixels high.
    assert_eq!(words[0].size, (36, 24));
    assert_eq!(field.rich_text.0.paragraphs[0][1].text, "all");
    field.widget.0.children.clear();
    let third = field.rich_text.set_text(Arc::new(FontFamily::new(Vec::new()))).write("x").finish();
    let third_typeset = typeset_rich_text(&mut registry, &third.paragraphs);
    assert!(field.write(third.text_id, third.paragraphs, &third_typeset));
    assert_eq!(field.get_widget().0.children.len(), 1);
    assert_eq!(field.get_widget().0.children[0].0.children.len(), 1);
}
