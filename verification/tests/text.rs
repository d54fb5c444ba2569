use qs_client::colour::Colour;
use qs_client::font::{
    get_font_for_character, scale, FontEmphasis, FontFace, FontFamily, FontIdSpecifier,
    FontRegistry, FontSize, GlyphEntry, KerningPair, ResolvedGlyph, Typeface,
};
use qs_client::rich_text::RichText;
use qs_client::style::Style;
use qs_client::text::{
    get_glyph_or_replacement, saturating_sum, typeset_rich_text, typeset_rich_text_paragraph,
    whole_pixels, PositionedGlyph, RenderableGlyph, RenderableWord, RichTextContentsBuilder,
    RichTextSegment, RichTextStyle,
};
use std::sync::Arc;

/// A font of a thousand design units from its lowest to its highest point,
/// whose glyphs are all five hundred units wide.
fn typeface(characters: &str, first_id: u16) -> Typeface {
    Typeface {
        glyphs: characters
            .chars()
            .enumerate()
            .map(|(i, character)| GlyphEntry { character, id: first_id + i as u16, advance: 500 })
            .collect(),
        kerning: vec![KerningPair { left: first_id, right: first_id + 1, amount: -100 }],
        ascent: 800,
        descent: -200,
        line_gap: 100,
    }
}

fn family(registry: &mut FontRegistry) -> Arc<FontFamily> {
    let face = FontFace::new(
        registry,
        "Plain".to_string(),
        typeface("fobar ", 1),
        Some(typeface("fb", 101)),
        None,
        None,
    );
    Arc::new(FontFamily::new(vec![face]))
}

fn builder(family: &Arc<FontFamily>) -> RichTextContentsBuilder {
    RichText::new(Style::default()).set_text(Arc::clone(family))
}

fn plain(family: &Arc<FontFamily>) -> RichTextStyle {
    RichTextStyle::default(Arc::clone(family))
}

fn segment(text: &str, style: RichTextStyle, glue_to_previous: bool) -> RichTextSegment {
    RichTextSegment { text: text.to_string(), style, glue_to_previous }
}

fn glyph(font: usize, id: u16, x: i64) -> RenderableGlyph {
    RenderableGlyph {
        font,
        colour: Colour::white(),
        glyph: PositionedGlyph { id, scale: 24, x },
    }
}

#[test]
fn font_sizes_stand_for_pixel_heights() {
    assert_eq!(FontSize::H1.pixels(), 72);
    assert_eq!(FontSize::H2.pixels(), 48);
    assert_eq!(FontSize::H3.pixels(), 36);
    assert_eq!(FontSize::Text.pixels(), 24);
    assert_eq!(FontSize::default(), FontSize::Text);
    assert_eq!(FontEmphasis::default(), FontEmphasis::Regular);
}

#[test]
fn measures_scale_with_the_height_of_the_font() {
    assert_eq!(scale(500, FontSize::Text, 1000), 768);
    assert_eq!(scale(500, FontSize::H1, 1000), 2304);
    assert_eq!(scale(1000, FontSize::H2, 1000), 48 * 64);
    assert_eq!(scale(-100, FontSize::Text, 1000), -153);
    assert_eq!(scale(100, FontSize::Text, 1000), 153);
    assert_eq!(scale(1, FontSize::Text, 2048), 0);
    assert_eq!(scale(-1, FontSize::Text, 2048), 0);
    assert_eq!(scale(500, FontSize::Text, 0), 0);
    assert_eq!(scale(500, FontSize::Text, -5), 0);
    assert_eq!(scale(0, FontSize::H3, 1000), 0);
}

#[test]
fn typeface_answers_for_its_glyphs() {
    let font = typeface("fo", 1);
    assert_eq!(font.glyph('f'), 1);
    assert_eq!(font.glyph('o'), 2);
    assert_eq!(font.glyph('x'), 0);
    assert_eq!(font.advance_width(1, FontSize::Text), 768);
    assert_eq!(font.advance_width(9, FontSize::Text), 0);
    assert_eq!(font.pair_kerning(FontSize::Text, 1, 2), -153);
    assert_eq!(font.pair_kerning(FontSize::Text, 2, 1), 0);
    assert_eq!(font.line_height(FontSize::Text), 1689);
    assert_eq!(font.ascent(FontSize::Text), 1228);
    assert_eq!(font.line_height(FontSize::H1), 5068);
}

#[test]
fn pixels_are_cut_off_not_rounded() {
    assert_eq!(whole_pixels(0), 0);
    assert_eq!(whole_pixels(63), 0);
    assert_eq!(whole_pixels(64), 1);
    assert_eq!(whole_pixels(2151), 33);
    assert_eq!(whole_pixels(-640), 0);
    assert_eq!(whole_pixels(i64::MAX), u32::MAX);
    assert_eq!(saturating_sum(1, 2), 3);
    assert_eq!(saturating_sum(i64::MAX, 1), i64::MAX);
    assert_eq!(saturating_sum(i64::MIN, -1), i64::MIN);
}

#[test]
fn registry_gives_each_font_one_number() {
    let mut registry = FontRegistry::new();
    assert_eq!(registry.new_font_face_id(), 1);
    assert_eq!(registry.new_font_face_id(), 2);
    let regular = FontIdSpecifier {
        font_face_id: 1,
        emphasis: FontEmphasis::Regular,
        font_size: FontSize::Text,
    };
    let bold = FontIdSpecifier { emphasis: FontEmphasis::Bold, ..regular };
    let large = FontIdSpecifier { font_size: FontSize::H1, ..regular };
    assert_eq!(registry.get_font_id(regular), 1);
    assert_eq!(registry.get_font_id(bold), 2);
    assert_eq!(registry.get_font_id(regular), 1);
    assert_eq!(registry.get_font_id(large), 3);
    assert_eq!(registry.get_font_id(bold), 2);
    assert_eq!(registry.fonts, vec![regular, bold, large]);
    assert_eq!(registry.specifier(2), Some(bold));
    assert_eq!(registry.specifier(0), None);
    assert_eq!(registry.specifier(4), None);
}

#[test]
fn face_numbers_start_again_after_the_largest() {
    let mut registry = FontRegistry { next_font_face_id: usize::MAX, fonts: Vec::new() };
    assert_eq!(registry.new_font_face_id(), usize::MAX);
    assert_eq!(registry.new_font_face_id(), 0);
}

#[test]
fn glyphs_come_from_the_closest_variant_that_has_them() {
    let mut registry = FontRegistry::new();
    let regular = typeface("abcd", 1);
    let bold = typeface("abc", 11);
    let italic = typeface("ab", 21);
    let bold_italic = typeface("a", 31);
    let face =
        FontFace::new(&mut registry, "Full".to_string(), regular, Some(bold), Some(italic), Some(bold_italic));
    assert_eq!(face.id, 1);
    assert_eq!(face.resolve(FontEmphasis::BoldItalic, 'a'), Some((FontEmphasis::BoldItalic, 31)));
    assert_eq!(face.resolve(FontEmphasis::BoldItalic, 'b'), Some((FontEmphasis::Bold, 12)));
    assert_eq!(face.resolve(FontEmphasis::BoldItalic, 'd'), Some((FontEmphasis::Regular, 4)));
    assert_eq!(face.resolve(FontEmphasis::Italic, 'a'), Some((FontEmphasis::Italic, 21)));
    assert_eq!(face.resolve(FontEmphasis::Italic, 'c'), Some((FontEmphasis::Regular, 3)));
    assert_eq!(face.resolve(FontEmphasis::Bold, 'c'), Some((FontEmphasis::Bold, 13)));
    assert_eq!(face.resolve(FontEmphasis::Bold, 'd'), Some((FontEmphasis::Regular, 4)));
    assert_eq!(face.resolve(FontEmphasis::Regular, 'a'), Some((FontEmphasis::Regular, 1)));
    assert_eq!(face.resolve(FontEmphasis::Regular, 'z'), None);
    let thin = FontFace::new(&mut registry, "Thin".to_string(), typeface("ab", 1), None, None, None);
    assert_eq!(thin.id, 2);
    assert_eq!(thin.resolve(FontEmphasis::BoldItalic, 'a'), Some((FontEmphasis::Regular, 1)));
    assert!(thin.variant(FontEmphasis::Bold).is_none());
    assert_eq!(thin.variant(FontEmphasis::Regular), Some(&typeface("ab", 1)));
}

#[test]
fn glyphs_come_from_the_first_face_that_has_them() {
    let mut registry = FontRegistry::new();
    let latin = FontFace::new(&mut registry, "Latin".to_string(), typeface("ab", 1), None, None, None);
    let greek = FontFace::new(&mut registry, "Greek".to_string(), typeface("bλ", 1), None, None, None);
    let family = FontFamily::new(vec![latin, greek]);
    let found = |registry: &mut FontRegistry, c: char| {
        get_font_for_character(registry, &family, FontEmphasis::Regular, FontSize::Text, c)
    };
    assert_eq!(
        found(&mut registry, 'λ'),
        Some(ResolvedGlyph { font: 1, glyph: 2, face: 1, emphasis: FontEmphasis::Regular })
    );
    assert_eq!(
        found(&mut registry, 'b'),
        Some(ResolvedGlyph { font: 2, glyph: 2, face: 0, emphasis: FontEmphasis::Regular })
    );
    assert_eq!(found(&mut registry, 'x'), None);
    assert_eq!(
        registry.fonts,
        vec![
            FontIdSpecifier {
                font_face_id: 2,
                emphasis: FontEmphasis::Regular,
                font_size: FontSize::Text
            },
            FontIdSpecifier {
                font_face_id: 1,
                emphasis: FontEmphasis::Regular,
                font_size: FontSize::Text
            },
        ]
    );
}

#[test]
fn missing_glyphs_fall_back_to_replacements() {
    let mut registry = FontRegistry::new();
    let with_both =
        FontFamily::new(vec![FontFace::new(&mut registry, "A".to_string(), typeface("a\u{FFFD}?", 1), None, None, None)]);
    let with_mark =
        FontFamily::new(vec![FontFace::new(&mut registry, "B".to_string(), typeface("a?", 1), None, None, None)]);
    let with_none =
        FontFamily::new(vec![FontFace::new(&mut registry, "C".to_string(), typeface("a", 1), None, None, None)]);
    let find = |registry: &mut FontRegistry, family: &FontFamily, c: char| {
        get_glyph_or_replacement(registry, family, FontEmphasis::Regular, FontSize::Text, c)
            .map(|found| found.glyph)
    };
    assert_eq!(find(&mut registry, &with_both, 'a'), Some(1));
    assert_eq!(find(&mut registry, &with_both, 'x'), Some(2));
    assert_eq!(find(&mut registry, &with_mark, 'x'), Some(2));
    assert_eq!(find(&mut registry, &with_none, 'x'), None);
    assert_eq!(find(&mut registry, &FontFamily::new(Vec::new()), 'a'), None);
}

#[test]
fn written_text_is_cut_after_white_space() {
    let mut registry = FontRegistry::new();
    let family = family(&mut registry);
    let text = builder(&family).write("Hello, world! This").finish();
    assert_eq!(text.text_id, 1);
    assert_eq!(
        text.paragraphs,
        vec![vec![
            segment("Hello, ", plain(&family), false),
            segment("world! ", plain(&family), false),
            segment("This", plain(&family), false),
        ]]
    );
}

#[test]
fn white_space_stays_with_the_word_before_it() {
    let mut registry = FontRegistry::new();
    let family = family(&mut registry);
    let texts = |written: &str| -> Vec<String> {
        builder(&family).write(written).finish().paragraphs[0]
            .iter()
            .map(|s| s.text.clone())
            .collect()
    };
    assert_eq!(texts("a  b\tc\n"), vec!["a  ", "b\t", "c\n"]);
    assert_eq!(texts("  foo"), vec!["  ", "foo"]);
    assert_eq!(texts("foo"), vec!["foo"]);
    assert_eq!(texts(" "), vec![" "]);
    assert_eq!(texts(""), vec![""]);
    assert_eq!(texts("a\u{A0}b"), vec!["a\u{A0}", "b"]);
    assert_eq!(texts("äÄ öß€"), vec!["äÄ ", "öß€"]);
}

#[test]
fn glue_marks_only_the_first_segment() {
    let mut registry = FontRegistry::new();
    let family = family(&mut registry);
    let text = builder(&family).write("foo").write_glued("bar baz").write_maybe_glued("x", false).finish();
    assert_eq!(
        text.paragraphs,
        vec![vec![
            segment("foo", plain(&family), false),
            segment("bar ", plain(&family), true),
            segment("baz", plain(&family), false),
            segment("x", plain(&family), false),
        ]]
    );
    let b = builder(&family);
    assert!(b.should_split_between(' ', 'a'));
    assert!(!b.should_split_between('a', ' '));
    assert!(!b.should_split_between(' ', ' '));
    assert!(!b.should_split_between('a', 'b'));
}

#[test]
fn paragraphs_end_where_they_are_ended() {
    let mut registry = FontRegistry::new();
    let family = family(&mut registry);
    let text = builder(&family).write("a").end_paragraph().end_paragraph().write("b").finish();
    assert_eq!(
        text.paragraphs,
        vec![
            vec![segment("a", plain(&family), false)],
            vec![],
            vec![segment("b", plain(&family), false)],
        ]
    );
    let closed = builder(&family).write("a").end_paragraph().finish();
    assert_eq!(closed.paragraphs, vec![vec![segment("a", plain(&family), false)]]);
    assert_eq!(builder(&family).finish().paragraphs, Vec::<Vec<RichTextSegment>>::new());
}

#[test]
fn spans_carry_their_style() {
    let mut registry = FontRegistry::new();
    let family = family(&mut registry);
    let style = |size: FontSize, emphasis: FontEmphasis, colour: Colour| RichTextStyle {
        font_family: Arc::clone(&family),
        size,
        emphasis,
        colour,
    };
    let white = Colour::white();
    let text = builder(&family)
        .h1(|b| b.write("Header ").italic(|b| b.coloured(Colour::cyan(), |b| b.write("emphasised"))))
        .end_paragraph()
        .write("Regular ")
        .italic(|b| b.write("Italic ").bold(|b| b.write("Both ")))
        .bold(|b| b.write("Bold").italic(|b| b.write_glued("er")).bold(|b| b.write("!")))
        .h2(|b| b.write("2"))
        .h3(|b| b.write("3"))
        .finish();
    assert_eq!(
        text.paragraphs,
        vec![
            vec![
                segment("Header ", style(FontSize::H1, FontEmphasis::Regular, white), false),
                segment("emphasised", style(FontSize::H1, FontEmphasis::Italic, Colour::cyan()), false),
            ],
            vec![
                segment("Regular ", style(FontSize::Text, FontEmphasis::Regular, white), false),
                segment("Italic ", style(FontSize::Text, FontEmphasis::Italic, white), false),
                segment("Both ", style(FontSize::Text, FontEmphasis::BoldItalic, white), false),
                segment("Bold", style(FontSize::Text, FontEmphasis::Bold, white), false),
                segment("er", style(FontSize::Text, FontEmphasis::BoldItalic, white), true),
                segment("!", style(FontSize::Text, FontEmphasis::Bold, white), false),
                segment("2", style(FontSize::H2, FontEmphasis::Regular, white), false),
                segment("3", style(FontSize::H3, FontEmphasis::Regular, white), false),
            ],
        ]
    );
}

#[test]
fn a_span_of_several_paragraphs_continues_the_open_one() {
    let mut registry = FontRegistry::new();
    let family = family(&mut registry);
    let bold = RichTextStyle { emphasis: FontEmphasis::Bold, ..plain(&family) };
    let text = builder(&family)
        .write("a")
        .bold(|b| b.write("b").end_paragraph().write("c").end_paragraph().write("d"))
        .write("e")
        .finish();
    assert_eq!(
        text.paragraphs,
        vec![
            vec![segment("a", plain(&family), false), segment("b", bold.clone(), false)],
            vec![segment("c", bold.clone(), false)],
            vec![segment("d", bold.clone(), false), segment("e", plain(&family), false)],
        ]
    );
}

#[test]
fn glued_segments_make_one_word() {
    let mut registry = FontRegistry::new();
    let family = family(&mut registry);
    let glued = builder(&family).write("foo").write_glued("bar").finish();
    let typeset = typeset_rich_text(&mut registry, &glued.paragraphs);
    assert_eq!(typeset.paragraphs.len(), 1);
    let words = &typeset.paragraphs[0].0;
    assert_eq!(words.len(), 1);
    let ids: Vec<u16> = words[0].glyphs.iter().map(|g| g.glyph.id).collect();
    assert_eq!(ids, vec![1, 2, 2, 3, 4, 5]);
    // Six glyphs of twelve pixels each, less the kerning between f and o.
    assert_eq!(words[0].glyphs.last().unwrap().glyph.x, 5 * 768 - 153);
    assert_eq!(words[0].size, ((6 * 768 - 153) / 64, 26));
}

#[test]
fn unglued_segments_make_two_words() {
    let mut registry = FontRegistry::new();
    let family = family(&mut registry);
    let apart = builder(&family).write("foo").write("bar").finish();
    let typeset = typeset_rich_text(&mut registry, &apart.paragraphs);
    let words = &typeset.paragraphs[0].0;
    assert_eq!(
        words,
        &vec![
            RenderableWord {
                glyphs: vec![glyph(1, 1, 0), glyph(1, 2, 615), glyph(1, 2, 1383)],
                size: (33, 26),
                baseline: 19,
            },
            RenderableWord {
                glyphs: vec![glyph(1, 3, 0), glyph(1, 4, 768), glyph(1, 5, 1536)],
                size: (36, 26),
                baseline: 19,
            },
        ]
    );
}

#[test]
fn words_are_counted_by_their_glue() {
    let mut registry = FontRegistry::new();
    let family = family(&mut registry);
    let count = |registry: &mut FontRegistry, paragraph: Vec<RichTextSegment>| {
        typeset_rich_text_paragraph(registry, &paragraph).0.len()
    };
    let s = |text: &str, glue: bool| segment(text, plain(&family), glue);
    assert_eq!(count(&mut registry, vec![]), 0);
    assert_eq!(count(&mut registry, vec![s("a", true)]), 1);
    assert_eq!(count(&mut registry, vec![s("a", false)]), 1);
    assert_eq!(count(&mut registry, vec![s("", false), s("", false)]), 2);
    assert_eq!(count(&mut registry, vec![s("a", false), s("b", true), s("c", true)]), 1);
    assert_eq!(count(&mut registry, vec![s("a", false), s("b", true), s("c", false), s("d", true)]), 2);
}

#[test]
fn characters_without_glyph_are_left_out() {
    let mut registry = FontRegistry::new();
    let family = family(&mut registry);
    let paragraph = vec![segment("fxo", plain(&family), false)];
    let words = typeset_rich_text_paragraph(&mut registry, &paragraph).0;
    assert_eq!(
        words,
        vec![RenderableWord {
            glyphs: vec![glyph(1, 1, 0), glyph(1, 2, 615)],
            size: (21, 26),
            baseline: 19,
        }]
    );
    let nothing = typeset_rich_text_paragraph(&mut registry, &vec![segment("xyz", plain(&family), false)]).0;
    assert_eq!(nothing, vec![RenderableWord { glyphs: Vec::new(), size: (0, 0), baseline: 0 }]);
}

#[test]
fn kerning_needs_one_font() {
    let mut registry = FontRegistry::new();
    let family = family(&mut registry);
    let bold = RichTextStyle { emphasis: FontEmphasis::Bold, ..plain(&family) };
    // The bold variant has f and b only: o comes from the regular variant, another font.
    let paragraph = vec![segment("fob", bold, false)];
    let words = typeset_rich_text_paragraph(&mut registry, &paragraph).0;
    assert_eq!(
        words[0].glyphs,
        vec![glyph(1, 101, 0), glyph(2, 2, 768), glyph(1, 102, 1536)]
    );
    assert_eq!(
        registry.fonts,
        vec![
            FontIdSpecifier {
                font_face_id: 1,
                emphasis: FontEmphasis::Bold,
                font_size: FontSize::Text
            },
            FontIdSpecifier {
                font_face_id: 1,
                emphasis: FontEmphasis::Regular,
                font_size: FontSize::Text
            },
        ]
    );
}

#[test]
fn every_word_has_its_own_measures() {
    let mut registry = FontRegistry::new();
    let family = family(&mut registry);
    let large = RichTextStyle { size: FontSize::H1, ..plain(&family) };
    let paragraph = vec![
        segment("f", large.clone(), false),
        segment("o", plain(&family), true),
        segment("o", plain(&family), false),
    ];
    let words = typeset_rich_text_paragraph(&mut registry, &paragraph).0;
    assert_eq!(words.len(), 2);
    // A large f and a small o: the word is as high as its highest glyph.
    assert_eq!(words[0].glyphs[0].glyph, PositionedGlyph { id: 1, scale: 72, x: 0 });
    assert_eq!(words[0].glyphs[1].glyph, PositionedGlyph { id: 2, scale: 24, x: 2304 });
    assert_eq!(words[0].glyphs[0].font, 1);
    assert_eq!(words[0].glyphs[1].font, 2);
    assert_eq!(words[0].size, (48, 79));
    assert_eq!(words[0].baseline, 57);
    // The kerning between f and o does not cross into the next word.
    assert_eq!(words[1].glyphs, vec![glyph(2, 2, 0)]);
    assert_eq!(words[1].size, (12, 26));
}

#[test]
fn paragraphs_are_typeset_one_by_one() {
    let mut registry = FontRegistry::new();
    let family = family(&mut registry);
    let text = builder(&family).write("fo of").end_paragraph().end_paragraph().write("b").finish();
    let typeset = typeset_rich_text(&mut registry, &text.paragraphs);
    let counts: Vec<usize> = typeset.paragraphs.iter().map(|p| p.0.len()).collect();
    assert_eq!(counts, vec![2, 0, 1]);
    assert_eq!(typeset.paragraphs[0].0[0].glyphs, vec![glyph(1, 1, 0), glyph(1, 2, 615), glyph(1, 6, 1383)]);
}
