//! Fonts as the typesetter reads them: which glyph stands for which
//! character, and how wide the glyphs are.
//!
//! A [`Typeface`] holds the numbers of a loaded font in the units of the
//! font's own design grid. The height of the text in pixels scales them to
//! parts of a pixel, [`SUBPIXELS`] to the pixel.

use vstd::prelude::*;

verus! {

/// How many parts a pixel is divided into for the measures of text.
pub const SUBPIXELS: i64 = 64;

/// An abstract font size, which stands for a height in pixels.
#[derive(Debug, Copy, Clone, PartialEq, Eq, Hash, Structural)]
pub enum FontSize {
    /// The largest font size, suitable for top-level headings.
    H1,
    /// A secondary heading font size.
    H2,
    /// A tertiary heading font size.
    H3,
    /// A font size suitable for text in a paragraph.
    Text,
}

impl FontSize {
    /// The height of the font in pixels.
    pub open spec fn spec_pixels(self) -> int {
        match self {
            FontSize::H1 => 72,
            FontSize::H2 => 48,
            FontSize::H3 => 36,
            FontSize::Text => 24,
        }
    }

    /// The height of the font in pixels.
    pub fn pixels(self) -> (px: u32)
        ensures
            px == self.spec_pixels(),
    {
        match self {
            FontSize::H1 => 72,
            FontSize::H2 => 48,
            FontSize::H3 => 36,
            FontSize::Text => 24,
        }
    }
}

impl Default for FontSize {
    fn default() -> (size: FontSize)
        ensures
            size == FontSize::Text,
    {
        FontSize::Text
    }
}

/// A font emphasis style. This could be regular, bold, italic or bold and italic.
#[derive(Debug, Copy, Clone, PartialEq, Eq, Hash, Structural)]
pub enum FontEmphasis {
    Regular,
    Bold,
    Italic,
    BoldItalic,
}

impl Default for FontEmphasis {
    fn default() -> (emphasis: FontEmphasis)
        ensures
            emphasis == FontEmphasis::Regular,
    {
        FontEmphasis::Regular
    }
}

/// The glyph that a font has for a character.
#[derive(Debug, Copy, Clone, PartialEq, Eq, Structural)]
pub struct GlyphEntry {
    pub character: char,
    /// The number of the glyph in the font. Zero means that the font has no
    /// glyph for the character.
    pub id: u16,
    /// How far the glyph moves the caret, in design units.
    pub advance: u16,
}

/// A pair of glyphs that are set closer together or further apart.
#[derive(Debug, Copy, Clone, PartialEq, Eq, Structural)]
pub struct KerningPair {
    pub left: u16,
    pub right: u16,
    /// The change of the distance between the two, in design units.
    pub amount: i16,
}

/// A loaded font. All measures are in the design units of the font.
#[derive(Debug, Clone, PartialEq, Eq)]
pub struct Typeface {
    /// The glyphs of the font. Of two entries for one character, or for one
    /// glyph, the first counts.
    pub glyphs: Vec<GlyphEntry>,
    /// The kerning of the font. Of two entries for one pair the first counts.
    pub kerning: Vec<KerningPair>,
    /// How far the font reaches above the baseline.
    pub ascent: i16,
    /// How far the font reaches below the baseline, as a negative number.
    pub descent: i16,
    /// The room between one line and the next.
    pub line_gap: i16,
}

/// The glyph that `glyphs` has for `c`, or zero.
pub open spec fn glyph_of(glyphs: Seq<GlyphEntry>, c: char) -> u16
    decreases glyphs.len(),
{
    if glyphs.len() == 0 {
        0
    } else if glyphs[0].character == c {
        glyphs[0].id
    } else {
        glyph_of(glyphs.drop_first(), c)
    }
}

/// The advance of the glyph `id` in design units, or zero if `glyphs` has no such glyph.
pub open spec fn advance_of(glyphs: Seq<GlyphEntry>, id: u16) -> int
    decreases glyphs.len(),
{
    if glyphs.len() == 0 {
        0
    } else if glyphs[0].id == id {
        glyphs[0].advance as int
    } else {
        advance_of(glyphs.drop_first(), id)
    }
}

/// The kerning of `left` before `right` in design units, or zero if `pairs` does not hold the pair.
pub open spec fn kerning_of(pairs: Seq<KerningPair>, left: u16, right: u16) -> int
    decreases pairs.len(),
{
    if pairs.len() == 0 {
        0
    } else if pairs[0].left == left && pairs[0].right == right {
        pairs[0].amount as int
    } else {
        kerning_of(pairs.drop_first(), left, right)
    }
}

/// A measure of `units` design units at a font height of `pixels`, in parts
/// of a pixel. The font is scaled so that `height` design units, from its
/// lowest to its highest point, fill `pixels`; the result is rounded towards
/// zero. A font without height measures nothing.
pub open spec fn scaled(units: int, pixels: int, height: int) -> int {
    if height <= 0 {
        0
    } else if units >= 0 {
        (units * pixels * SUBPIXELS as int) / height
    } else {
        -(((-units) * pixels * SUBPIXELS as int) / height)
    }
}

/// Scales a measure in design units to parts of a pixel.
pub fn scale(units: i32, size: FontSize, height: i32) -> (measure: i64)
    ensures
        measure == scaled(units as int, size.spec_pixels(), height as int),
{
    if height <= 0 {
        return 0;
    }
    let px: u64 = size.pixels() as u64;
    let h: u64 = height as u64;
    if units >= 0 {
        let u: u64 = units as u64;
        assert(u * px <= 2147483648 * 72) by (nonlinear_arith)
            requires
                u <= 2147483648,
                px <= 72,
        ;
        let num: u64 = u * px * 64;
        (num / h) as i64
    } else {
        let u: u64 = (-(units as i64)) as u64;
        assert(u * px <= 2147483648 * 72) by (nonlinear_arith)
            requires
                u <= 2147483648,
                px <= 72,
        ;
        let num: u64 = u * px * 64;
        -((num / h) as i64)
    }
}

impl Typeface {
    /// The distance from the lowest to the highest point of the font, in design units.
    pub open spec fn height(&self) -> int {
        self.ascent - self.descent
    }

    /// The glyph that the font has for `c`, or zero if it has none.
    pub open spec fn spec_glyph(&self, c: char) -> u16 {
        glyph_of(self.glyphs@, c)
    }

    /// How far the glyph `id` moves the caret at `size`, in parts of a pixel.
    pub open spec fn spec_advance_width(&self, id: u16, size: FontSize) -> int {
        scaled(advance_of(self.glyphs@, id), size.spec_pixels(), self.height())
    }

    /// The change of the distance between `left` and `right` at `size`, in parts of a pixel.
    pub open spec fn spec_pair_kerning(&self, size: FontSize, left: u16, right: u16) -> int {
        scaled(kerning_of(self.kerning@, left, right), size.spec_pixels(), self.height())
    }

    /// The distance from one baseline to the next at `size`, in parts of a
    /// pixel: ascent less descent plus line gap.
    pub open spec fn spec_line_height(&self, size: FontSize) -> int {
        scaled(self.ascent - self.descent + self.line_gap, size.spec_pixels(), self.height())
    }

    /// How far the font reaches above the baseline at `size`, in parts of a pixel.
    pub open spec fn spec_ascent(&self, size: FontSize) -> int {
        scaled(self.ascent as int, size.spec_pixels(), self.height())
    }

    /// How far the font reaches above the baseline at `size`, in parts of a pixel.
    pub fn ascent(&self, size: FontSize) -> (ascent: i64)
        ensures
            ascent == self.spec_ascent(size),
    {
        scale(self.ascent as i32, size, self.ascent as i32 - self.descent as i32)
    }

    /// The glyph that the font has for `c`, or zero if it has none.
    pub fn glyph(&self, c: char) -> (id: u16)
        ensures
            id == self.spec_glyph(c),
    {
        let mut i: usize = 0;
        assert(self.glyphs@.skip(0) =~= self.glyphs@);
        while i < self.glyphs.len()
            invariant
                i <= self.glyphs.len(),
                glyph_of(self.glyphs@, c) == glyph_of(self.glyphs@.skip(i as int), c),
            decreases self.glyphs.len() - i,
        {
            if self.glyphs[i].character == c {
                return self.glyphs[i].id;
            }
            assert(self.glyphs@.skip(i as int).drop_first() =~= self.glyphs@.skip(i as int + 1));
            i += 1;
        }
        0
    }

    /// How far the glyph `id` moves the caret at `size`, in parts of a pixel.
    pub fn advance_width(&self, id: u16, size: FontSize) -> (advance: i64)
        ensures
            advance == self.spec_advance_width(id, size),
    {
        let height: i32 = self.ascent as i32 - self.descent as i32;
        let mut i: usize = 0;
        assert(self.glyphs@.skip(0) =~= self.glyphs@);
        while i < self.glyphs.len()
            invariant
                i <= self.glyphs.len(),
                height == self.height(),
                advance_of(self.glyphs@, id) == advance_of(self.glyphs@.skip(i as int), id),
            decreases self.glyphs.len() - i,
        {
            if self.glyphs[i].id == id {
                return scale(self.glyphs[i].advance as i32, size, height);
            }
            assert(self.glyphs@.skip(i as int).drop_first() =~= self.glyphs@.skip(i as int + 1));
            i += 1;
        }
        scale(0, size, height)
    }

    /// The change of the distance between `left` and `right` at `size`, in parts of a pixel.
    pub fn pair_kerning(&self, size: FontSize, left: u16, right: u16) -> (kerning: i64)
        ensures
            kerning == self.spec_pair_kerning(size, left, right),
    {
        let height: i32 = self.ascent as i32 - self.descent as i32;
        let mut i: usize = 0;
        assert(self.kerning@.skip(0) =~= self.kerning@);
        while i < self.kerning.len()
            invariant
                i <= self.kerning.len(),
                height == self.height(),
                kerning_of(self.kerning@, left, right) == kerning_of(
                    self.kerning@.skip(i as int),
                    left,
                    right,
                ),
            decreases self.kerning.len() - i,
        {
            if self.kerning[i].left == left && self.kerning[i].right == right {
                return scale(self.kerning[i].amount as i32, size, height);
            }
            assert(self.kerning@.skip(i as int).drop_first() =~= self.kerning@.skip(i as int + 1));
            i += 1;
        }
        scale(0, size, height)
    }

    /// The distance from one baseline to the next at `size`, in parts of a pixel.
    pub fn line_height(&self, size: FontSize) -> (height: i64)
        ensures
            height == self.spec_line_height(size),
    {
        let span: i32 = self.ascent as i32 - self.descent as i32;
        scale(span + self.line_gap as i32, size, span)
    }
}

/// A font, together with bold, italic, and bold-italic variants. All
/// variants but the regular one are optional.
#[derive(Debug, Clone, PartialEq, Eq)]
pub struct FontFace {
    /// The number of the face, by which the registry tells faces apart.
    pub id: usize,
    /// A name to tell faces apart in messages.
    pub name: String,
    pub regular: Typeface,
    pub bold: Option<Typeface>,
    pub italic: Option<Typeface>,
    pub bold_italic: Option<Typeface>,
}

/// A list of prioritised font faces, the most preferred first.
#[derive(Debug, Clone, PartialEq, Eq)]
pub struct FontFamily(pub Vec<FontFace>);

/// What a font number stands for: a face in a style at a size.
#[derive(Debug, Copy, Clone, PartialEq, Eq, Hash, Structural)]
pub struct FontIdSpecifier {
    pub font_face_id: usize,
    pub emphasis: FontEmphasis,
    pub font_size: FontSize,
}

/// Gives out the numbers of font faces and of fonts. A font number stands
/// for one face in one style at one size, for as long as the registry lives.
#[derive(Debug, Clone, PartialEq, Eq)]
pub struct FontRegistry {
    /// The number that the next font face gets.
    pub next_font_face_id: usize,
    /// What each font number stands for: the font with number `n` is at place `n - 1`.
    pub fonts: Vec<FontIdSpecifier>,
}

/// The font number of `specifier` in `fonts`, or zero if it has none.
pub open spec fn font_id_in(fonts: Seq<FontIdSpecifier>, specifier: FontIdSpecifier) -> int
    decreases fonts.len(),
{
    if fonts.len() == 0 {
        0
    } else {
        let earlier = font_id_in(fonts.drop_last(), specifier);
        if earlier != 0 {
            earlier
        } else if fonts.last() == specifier {
            fonts.len() as int
        } else {
            0
        }
    }
}

/// The fonts after `specifier` got a number: it is put behind the others
/// unless it has a number already.
pub open spec fn registered(fonts: Seq<FontIdSpecifier>, specifier: FontIdSpecifier) -> Seq<
    FontIdSpecifier,
> {
    if font_id_in(fonts, specifier) != 0 {
        fonts
    } else {
        fonts.push(specifier)
    }
}

proof fn lemma_font_id_stays(fonts: Seq<FontIdSpecifier>, specifier: FontIdSpecifier, n: int)
    requires
        0 <= n <= fonts.len(),
        font_id_in(fonts.take(n), specifier) != 0,
    ensures
        font_id_in(fonts, specifier) == font_id_in(fonts.take(n), specifier),
    decreases fonts.len() - n,
{
    if n < fonts.len() {
        assert(fonts.take(n + 1).drop_last() =~= fonts.take(n));
        lemma_font_id_stays(fonts, specifier, n + 1);
    } else {
        assert(fonts.take(n) =~= fonts);
    }
}

proof fn lemma_font_id_in_range(fonts: Seq<FontIdSpecifier>, specifier: FontIdSpecifier)
    ensures
        0 <= font_id_in(fonts, specifier) <= fonts.len(),
        font_id_in(fonts, specifier) != 0 ==> fonts[font_id_in(fonts, specifier) - 1] == specifier,
    decreases fonts.len(),
{
    if fonts.len() > 0 {
        lemma_font_id_in_range(fonts.drop_last(), specifier);
    }
}

/// A font keeps its number: whatever gets a number later, the number that
/// `other` has stays what it is, and the number that `specifier` gets names
/// `specifier`.
pub proof fn law_font_ids_are_stable(
    fonts: Seq<FontIdSpecifier>,
    specifier: FontIdSpecifier,
    other: FontIdSpecifier,
)
    ensures
        font_id_in(fonts, other) != 0 ==> font_id_in(registered(fonts, specifier), other)
            == font_id_in(fonts, other),
        font_id_in(registered(fonts, specifier), specifier) != 0,
        registered(fonts, specifier)[font_id_in(registered(fonts, specifier), specifier) - 1]
            == specifier,
        registered(registered(fonts, specifier), specifier) == registered(fonts, specifier),
{
    assert(fonts.push(specifier).drop_last() =~= fonts);
    lemma_font_id_in_range(registered(fonts, specifier), specifier);
}

impl FontRegistry {
    /// A registry that has given out no number yet. Numbers start at one.
    pub fn new() -> (registry: FontRegistry)
        ensures
            registry.next_font_face_id == 1,
            registry.fonts@ == Seq::<FontIdSpecifier>::empty(),
    {
        FontRegistry { next_font_face_id: 1, fonts: Vec::new() }
    }

    /// Gives out the number for a new font face. After the largest number
    /// the count starts again at zero.
    pub fn new_font_face_id(&mut self) -> (id: usize)
        ensures
            id == old(self).next_font_face_id,
            final(self).next_font_face_id == if old(self).next_font_face_id == usize::MAX {
                0
            } else {
                (old(self).next_font_face_id + 1) as usize
            },
            final(self).fonts == old(self).fonts,
    {
        let id = self.next_font_face_id;
        self.next_font_face_id = if id == usize::MAX {
            0
        } else {
            id + 1
        };
        id
    }

    /// The number of the font that `specifier` names. A font that has no
    /// number yet gets the next one; a font that has one keeps it, and the
    /// registry stays as it is.
    pub fn get_font_id(&mut self, specifier: FontIdSpecifier) -> (id: usize)
        ensures
            final(self).fonts@ == registered(old(self).fonts@, specifier),
            id == font_id_in(final(self).fonts@, specifier),
            id == if font_id_in(old(self).fonts@, specifier) != 0 {
                font_id_in(old(self).fonts@, specifier)
            } else {
                (old(self).fonts@.len() + 1) as int
            },
            id > 0,
            final(self).next_font_face_id == old(self).next_font_face_id,
    {
        let mut i: usize = 0;
        while i < self.fonts.len()
            invariant
                i <= self.fonts.len(),
                self.fonts == old(self).fonts,
                self.next_font_face_id == old(self).next_font_face_id,
                font_id_in(self.fonts@.take(i as int), specifier) == 0,
            decreases self.fonts.len() - i,
        {
            proof {
                assert(self.fonts@.take(i as int + 1).drop_last() =~= self.fonts@.take(i as int));
            }
            if self.fonts[i] == specifier {
                proof {
                    lemma_font_id_stays(self.fonts@, specifier, i as int + 1);
                }
                return i + 1;
            }
            i += 1;
        }
        proof {
            assert(self.fonts@.take(i as int) =~= self.fonts@);
        }
        let ghost before = self.fonts@;
        self.fonts.push(specifier);
        proof {
            assert(self.fonts@.drop_last() =~= before);
        }
        self.fonts.len()
    }

    /// What the font number `id` stands for, if it was given out.
    pub fn specifier(&self, id: usize) -> (found: Option<FontIdSpecifier>)
        ensures
            found == if 0 < id <= self.fonts@.len() {
                Some(self.fonts@[id - 1])
            } else {
                None
            },
    {
        if 0 < id && id <= self.fonts.len() {
            Some(self.fonts[id - 1])
        } else {
            None
        }
    }
}

impl FontFace {
    /// A font face with the next number of `registry`.
    pub fn new(
        registry: &mut FontRegistry,
        name: String,
        regular: Typeface,
        bold: Option<Typeface>,
        italic: Option<Typeface>,
        bold_italic: Option<Typeface>,
    ) -> (face: FontFace)
        ensures
            face.id == old(registry).next_font_face_id,
            face.name == name,
            face.regular == regular,
            face.bold == bold,
            face.italic == italic,
            face.bold_italic == bold_italic,
            final(registry).fonts == old(registry).fonts,
            final(registry).next_font_face_id == if old(registry).next_font_face_id == usize::MAX {
                0
            } else {
                (old(registry).next_font_face_id + 1) as usize
            },
    {
        FontFace { id: registry.new_font_face_id(), name, regular, bold, italic, bold_italic }
    }

    /// The glyph that the variant `variant` of the face has for `c`: zero
    /// where the face lacks the variant or the variant lacks the glyph.
    pub open spec fn variant_glyph(&self, variant: FontEmphasis, c: char) -> u16 {
        match self.spec_variant(variant) {
            Some(font) => font.spec_glyph(c),
            None => 0,
        }
    }

    /// The variant of the face that shows `c` in the style `emphasis`, with
    /// its glyph. The closest variant that has the glyph is taken: for bold
    /// italic text the bold italic, then the bold, then the italic, then the
    /// regular variant; for bold text the bold, then the regular; for italic
    /// text the italic, then the regular; for regular text the regular.
    pub open spec fn resolution(&self, emphasis: FontEmphasis, c: char) -> Option<(FontEmphasis, u16)> {
        if emphasis == FontEmphasis::BoldItalic && self.variant_glyph(FontEmphasis::BoldItalic, c)
            != 0 {
            Some((FontEmphasis::BoldItalic, self.variant_glyph(FontEmphasis::BoldItalic, c)))
        } else if (emphasis == FontEmphasis::Bold || emphasis == FontEmphasis::BoldItalic)
            && self.variant_glyph(FontEmphasis::Bold, c) != 0 {
            Some((FontEmphasis::Bold, self.variant_glyph(FontEmphasis::Bold, c)))
        } else if (emphasis == FontEmphasis::Italic || emphasis == FontEmphasis::BoldItalic)
            && self.variant_glyph(FontEmphasis::Italic, c) != 0 {
            Some((FontEmphasis::Italic, self.variant_glyph(FontEmphasis::Italic, c)))
        } else if self.variant_glyph(FontEmphasis::Regular, c) != 0 {
            Some((FontEmphasis::Regular, self.variant_glyph(FontEmphasis::Regular, c)))
        } else {
            None
        }
    }

    /// The loaded font of a variant, if the face has the variant.
    pub open spec fn spec_variant(&self, variant: FontEmphasis) -> Option<Typeface> {
        match variant {
            FontEmphasis::Regular => Some(self.regular),
            FontEmphasis::Bold => self.bold,
            FontEmphasis::Italic => self.italic,
            FontEmphasis::BoldItalic => self.bold_italic,
        }
    }

    /// The loaded font of a variant, if the face has the variant.
    pub fn variant(&self, variant: FontEmphasis) -> (font: Option<&Typeface>)
        ensures
            font.is_some() == self.spec_variant(variant).is_some(),
            font.is_some() ==> *font.unwrap() == self.spec_variant(variant).unwrap(),
    {
        match variant {
            FontEmphasis::Regular => Some(&self.regular),
            FontEmphasis::Bold => self.bold.as_ref(),
            FontEmphasis::Italic => self.italic.as_ref(),
            FontEmphasis::BoldItalic => self.bold_italic.as_ref(),
        }
    }

    fn glyph_in(&self, variant: FontEmphasis, c: char) -> (id: u16)
        ensures
            id == self.variant_glyph(variant, c),
    {
        match self.variant(variant) {
            Some(font) => font.glyph(c),
            None => 0,
        }
    }

    /// Finds the variant of the face that shows `c` in the style `emphasis`.
    pub fn resolve(&self, emphasis: FontEmphasis, c: char) -> (found: Option<(FontEmphasis, u16)>)
        ensures
            found == self.resolution(emphasis, c),
    {
        if emphasis == FontEmphasis::BoldItalic {
            let id = self.glyph_in(FontEmphasis::BoldItalic, c);
            if id != 0 {
                return Some((FontEmphasis::BoldItalic, id));
            }
        }
        if emphasis == FontEmphasis::Bold || emphasis == FontEmphasis::BoldItalic {
            let id = self.glyph_in(FontEmphasis::Bold, c);
            if id != 0 {
                return Some((FontEmphasis::Bold, id));
            }
        }
        if emphasis == FontEmphasis::Italic || emphasis == FontEmphasis::BoldItalic {
            let id = self.glyph_in(FontEmphasis::Italic, c);
            if id != 0 {
                return Some((FontEmphasis::Italic, id));
            }
        }
        let id = self.glyph_in(FontEmphasis::Regular, c);
        if id != 0 {
            Some((FontEmphasis::Regular, id))
        } else {
            None
        }
    }
}

/// A glyph found for a character: in which face of the family, in which
/// variant of that face, and under which font number.
#[derive(Debug, Copy, Clone, PartialEq, Eq, Structural)]
pub struct ResolvedGlyph {
    /// The font number of the face, variant and size.
    pub font: usize,
    /// The number of the glyph in the font.
    pub glyph: u16,
    /// The place of the face in the family.
    pub face: usize,
    /// The variant of the face that has the glyph.
    pub emphasis: FontEmphasis,
}

/// The first face of `faces`, from place `from` on, that shows `c` in the
/// style `emphasis`: its place, the variant and the glyph.
pub open spec fn family_resolution(
    faces: Seq<FontFace>,
    emphasis: FontEmphasis,
    c: char,
    from: int,
) -> Option<(int, FontEmphasis, u16)>
    decreases faces.len() - from,
{
    if from < 0 || from >= faces.len() {
        None
    } else {
        match faces[from].resolution(emphasis, c) {
            Some((variant, glyph)) => Some((from, variant, glyph)),
            None => family_resolution(faces, emphasis, c, from + 1),
        }
    }
}

impl FontFamily {
    /// A family of the given faces, the most preferred first.
    pub fn new(list: Vec<FontFace>) -> (family: FontFamily)
        ensures
            family.0 == list,
    {
        FontFamily(list)
    }

    /// The glyph for `c` in the style `emphasis`, from the first face that
    /// has one, or `None` if no face has one.
    pub open spec fn resolution(&self, emphasis: FontEmphasis, c: char) -> Option<(int, FontEmphasis, u16)> {
        family_resolution(self.0@, emphasis, c, 0)
    }
}

/// The registry after the font for `found` at `size` got its number.
pub open spec fn fonts_after_resolution(
    fonts: Seq<FontIdSpecifier>,
    family: FontFamily,
    found: Option<(int, FontEmphasis, u16)>,
    size: FontSize,
) -> Seq<FontIdSpecifier> {
    match found {
        Some((face, variant, glyph)) => registered(
            fonts,
            FontIdSpecifier {
                font_face_id: family.0@[face].id,
                emphasis: variant,
                font_size: size,
            },
        ),
        None => fonts,
    }
}

/// The glyph that `found` comes to with the font numbers of `fonts`.
pub open spec fn resolved_glyph(
    fonts: Seq<FontIdSpecifier>,
    family: FontFamily,
    found: Option<(int, FontEmphasis, u16)>,
    size: FontSize,
) -> Option<ResolvedGlyph> {
    match found {
        Some((face, variant, glyph)) => Some(
            ResolvedGlyph {
                font: font_id_in(
                    fonts_after_resolution(fonts, family, found, size),
                    FontIdSpecifier {
                        font_face_id: family.0@[face].id,
                        emphasis: variant,
                        font_size: size,
                    },
                ) as usize,
                glyph,
                face: face as usize,
                emphasis: variant,
            },
        ),
        None => None,
    }
}

/// Finds the font and the glyph for `c` in the style `emphasis` at `size`:
/// from the first face of the family that has a glyph for `c`, in the closest
/// variant that has one. The font found gets its number from `registry`.
/// Where no face has a glyph, nothing is found and the registry stays as it is.
pub fn get_font_for_character(
    registry: &mut FontRegistry,
    font_family: &FontFamily,
    emphasis: FontEmphasis,
    font_size: FontSize,
    c: char,
) -> (found: Option<ResolvedGlyph>)
    ensures
        found == resolved_glyph(
            old(registry).fonts@,
            *font_family,
            font_family.resolution(emphasis, c),
            font_size,
        ),
        final(registry).fonts@ == fonts_after_resolution(
            old(registry).fonts@,
            *font_family,
            font_family.resolution(emphasis, c),
            font_size,
        ),
        final(registry).next_font_face_id == old(registry).next_font_face_id,
{
    let mut i: usize = 0;
    while i < font_family.0.len()
        invariant
            i <= font_family.0.len(),
            *registry == *old(registry),
            font_family.resolution(emphasis, c) == family_resolution(
                font_family.0@,
                emphasis,
                c,
                i as int,
            ),
        decreases font_family.0.len() - i,
    {
        match font_family.0[i].resolve(emphasis, c) {
            Some((variant, glyph)) => {
                let font = registry.get_font_id(
                    FontIdSpecifier {
                        font_face_id: font_family.0[i].id,
                        emphasis: variant,
                        font_size,
                    },
                );
                return Some(ResolvedGlyph { font, glyph, face: i, emphasis: variant });
            },
            None => {},
        }
        i += 1;
    }
    None
}

} // verus!
