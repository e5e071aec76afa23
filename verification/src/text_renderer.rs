//! Text layout over a lazily filled glyph atlas.

use vstd::prelude::*;
use vstd::std_specs::hash::group_hash_axioms;
use std::collections::HashMap;
use crate::strings::chars_of;

verus! {

/// A pair of whole pixel measures.
#[derive(Clone, Copy, Debug, PartialEq, Eq, Structural)]
pub struct IVec2 {
    pub x: i32,
    pub y: i32,
}

/// What is kept of one rasterized glyph: its texture and its metrics.
#[derive(Clone, Copy, Debug, PartialEq, Eq, Structural)]
pub struct Character {
    /// Handle of the glyph's texture.
    pub texture_id: u32,
    /// Width and height of the glyph's bitmap.
    pub size: IVec2,
    /// Offset from the pen position on the baseline to the bitmap's left and top edge.
    pub bearing: IVec2,
    /// Distance to the next glyph's pen position, in 1/64 of a pixel.
    pub advance: u32,
}

impl Default for Character {
    fn default() -> (ch: Character)
        ensures
            ch == (Character {
                texture_id: 0,
                size: IVec2 { x: 0, y: 0 },
                bearing: IVec2 { x: 0, y: 0 },
                advance: 0,
            }),
    {
        Character {
            texture_id: 0,
            size: IVec2 { x: 0, y: 0 },
            bearing: IVec2 { x: 0, y: 0 },
            advance: 0,
        }
    }
}

impl Character {
    /// The advance in whole pixels: the fixed-point advance without its six
    /// fractional bits.
    pub open spec fn advance_px(self) -> int {
        self.advance as int / 64
    }

    /// The advance in whole pixels.
    pub fn advance_pixels(&self) -> (px: u32)
        ensures
            px as int == self.advance_px(),
    {
        let raw: u32 = self.advance;
        assert(raw >> 6 == raw / 64) by (bit_vector);
        raw >> 6
    }
}

/// The atlas after an attempt to rasterize `c` ended in `outcome`: a glyph is
/// stored under its character, a failure leaves the atlas as it was.
pub open spec fn stored(
    glyphs: Map<char, Character>,
    c: char,
    outcome: Option<Character>,
) -> Map<char, Character> {
    match outcome {
        Some(glyph) => glyphs.insert(c, glyph),
        None => glyphs,
    }
}

/// The glyph that `glyphs` holds for `c`, if any.
pub open spec fn lookup(glyphs: Map<char, Character>, c: char) -> Option<Character> {
    if glyphs.contains_key(c) {
        Some(glyphs[c])
    } else {
        None
    }
}

/// The number under which the atlas files a character.
spec fn code_point(c: char) -> u32 {
    c as u32
}

proof fn lemma_code_point_injective(a: char, b: char)
    requires
        code_point(a) == code_point(b),
    ensures
        a == b,
{
    assert(a as u32 as int == a as int);
}

/// A glyph that was stored for a character is held from then on: the
/// character is found with that glyph, so that asking for it again falls to
/// the atlas and not to the rasterizer.
pub proof fn lemma_stored_glyph_is_held(glyphs: Map<char, Character>, c: char, glyph: Character)
    ensures
        stored(glyphs, c, Some(glyph)).contains_key(c),
        lookup(stored(glyphs, c, Some(glyph)), c) == Some(glyph),
{
}

/// The glyphs rasterized so far for one font at one size, by character.
pub struct GlyphAtlas {
    initialized: bool,
    font_size: u32,
    characters: HashMap<u32, Character>,
}

impl View for GlyphAtlas {
    type V = Map<char, Character>;

    closed spec fn view(&self) -> Map<char, Character> {
        Map::new(
            |c: char| self.characters@.contains_key(code_point(c)),
            |c: char| self.characters@[code_point(c)],
        )
    }
}

impl GlyphAtlas {
    /// Whether a font has been chosen.
    pub closed spec fn is_initialized(&self) -> bool {
        self.initialized
    }

    /// The pixel size that glyphs are rasterized at.
    pub closed spec fn spec_font_size(&self) -> u32 {
        self.font_size
    }

    /// An atlas without font and without glyphs.
    pub fn new() -> (atlas: GlyphAtlas)
        ensures
            atlas@ == Map::<char, Character>::empty(),
            !atlas.is_initialized(),
            atlas.spec_font_size() == 0,
    {
        broadcast use group_hash_axioms;
        let atlas = GlyphAtlas { initialized: false, font_size: 0, characters: HashMap::new() };
        assert(atlas@ =~= Map::<char, Character>::empty());
        atlas
    }

    /// Chooses the size to rasterize at and forgets every glyph of the
    /// font and size used before.
    pub fn init(&mut self, font_size: u32)
        ensures
            final(self)@ == Map::<char, Character>::empty(),
            final(self).is_initialized(),
            final(self).spec_font_size() == font_size,
    {
        broadcast use group_hash_axioms;
        self.characters.clear();
        self.font_size = font_size;
        self.initialized = true;
        assert(self@ =~= Map::<char, Character>::empty());
    }

    /// Whether a font has been chosen.
    pub fn initialized(&self) -> (yes: bool)
        ensures
            yes == self.is_initialized(),
    {
        self.initialized
    }

    /// The pixel size that glyphs are rasterized at.
    pub fn font_size(&self) -> (size: u32)
        ensures
            size == self.spec_font_size(),
    {
        self.font_size
    }

    /// Whether the atlas holds a glyph for `c`.
    pub fn contains(&self, c: char) -> (yes: bool)
        ensures
            yes == self@.contains_key(c),
    {
        broadcast use group_hash_axioms;
        let key: u32 = c as u32;
        self.characters.contains_key(&key)
    }

    /// The glyph held for `c`, if any.
    pub fn get(&self, c: char) -> (glyph: Option<Character>)
        ensures
            glyph == lookup(self@, c),
    {
        broadcast use group_hash_axioms;
        let key: u32 = c as u32;
        match self.characters.get(&key) {
            Some(g) => Some(*g),
            None => None,
        }
    }

    /// Records how an attempt to rasterize `c` ended. A character that the
    /// atlas already holds keeps its glyph. Answers whether a glyph was added.
    pub fn store(&mut self, c: char, outcome: Option<Character>) -> (added: bool)
        ensures
            old(self)@.contains_key(c) ==> !added && final(self)@ == old(self)@,
            !old(self)@.contains_key(c) ==> added == outcome.is_some() && final(self)@ == stored(
                old(self)@,
                c,
                outcome,
            ),
            final(self).is_initialized() == old(self).is_initialized(),
            final(self).spec_font_size() == old(self).spec_font_size(),
    {
        broadcast use group_hash_axioms;
        if self.contains(c) {
            return false;
        }
        match outcome {
            Some(glyph) => {
                let key: u32 = c as u32;
                self.characters.insert(key, glyph);
                proof {
                    assert(self.characters@ == old(self).characters@.insert(key, glyph));
                    assert forall|d: char| #[trigger] code_point(d) == key implies d == c by {
                        lemma_code_point_injective(d, c);
                    }
                    assert(self@ =~= old(self)@.insert(c, glyph));
                }
                true
            },
            None => false,
        }
    }

    /// Makes sure that `c` was tried: a character that the atlas lacks is
    /// handed to `rasterize`, once, and the glyph that comes back is stored.
    /// A character that the atlas holds is not rasterized again. Answers
    /// whether a glyph was added.
    pub fn load<F: FnOnce(char) -> Option<Character>>(&mut self, c: char, rasterize: F) -> (added:
        bool)
        requires
            !old(self)@.contains_key(c) ==> rasterize.requires((c,)),
        ensures
            old(self)@.contains_key(c) ==> !added && final(self)@ == old(self)@,
            !old(self)@.contains_key(c) ==> {
                &&& rasterize.ensures((c,), lookup(final(self)@, c))
                &&& final(self)@ == stored(old(self)@, c, lookup(final(self)@, c))
                &&& added == final(self)@.contains_key(c)
            },
            final(self).is_initialized() == old(self).is_initialized(),
            final(self).spec_font_size() == old(self).spec_font_size(),
    {
        if self.contains(c) {
            return false;
        }
        let outcome = rasterize(c);
        self.store(c, outcome)
    }

    /// The glyph for `c`, rasterized now if the atlas lacked it; nothing
    /// when rasterizing fails.
    pub fn get_or_load<F: FnOnce(char) -> Option<Character>>(
        &mut self,
        c: char,
        rasterize: F,
    ) -> (glyph: Option<Character>)
        requires
            !old(self)@.contains_key(c) ==> rasterize.requires((c,)),
        ensures
            glyph == lookup(final(self)@, c),
            old(self)@.contains_key(c) ==> final(self)@ == old(self)@,
            !old(self)@.contains_key(c) ==> {
                &&& rasterize.ensures((c,), glyph)
                &&& final(self)@ == stored(old(self)@, c, glyph)
            },
            final(self).is_initialized() == old(self).is_initialized(),
            final(self).spec_font_size() == old(self).spec_font_size(),
    {
        if !self.contains(c) {
            self.load(c, rasterize);
        }
        self.get(c)
    }
}

/// The glyph whose top bearing every line of text is aligned to.
pub const REFERENCE_GLYPH: char = 'H';

/// One glyph placed on the line: its texture and, in whole pixels before any
/// scaling, where its bitmap's top left corner lies from the start of the
/// text, and how large the bitmap is.
#[derive(Clone, Copy, Debug, PartialEq, Eq, Structural)]
pub struct GlyphQuad {
    pub texture_id: u32,
    pub x: i128,
    pub y: i64,
    pub width: i32,
    pub height: i32,
}

/// The glyphs of a text placed on one line, and how far the pen has moved
/// behind the last of them.
pub struct TextLayout {
    pub quads: Vec<GlyphQuad>,
    pub advance: i128,
}

/// How far `c` moves the pen: its glyph's advance in whole pixels, nothing
/// for a character without a glyph.
pub open spec fn advance_of(glyphs: Map<char, Character>, c: char) -> int {
    match lookup(glyphs, c) {
        Some(glyph) => glyph.advance_px(),
        None => 0,
    }
}

/// The pen position behind `text`: the sum of the advances of its characters.
pub open spec fn pen_after(glyphs: Map<char, Character>, text: Seq<char>) -> int
    decreases text.len(),
{
    if text.len() == 0 {
        0
    } else {
        pen_after(glyphs, text.drop_last()) + advance_of(glyphs, text.last())
    }
}

/// The height that glyph tops are measured from: the top bearing of the
/// reference glyph, or the baseline itself where the atlas has no such glyph.
pub open spec fn anchor_of(glyphs: Map<char, Character>) -> int {
    match lookup(glyphs, REFERENCE_GLYPH) {
        Some(glyph) => glyph.bearing.y as int,
        None => 0,
    }
}

/// The quad of `glyph` when the pen stands at `pen`.
pub open spec fn quad_of(glyph: Character, pen: int, anchor: int) -> GlyphQuad {
    GlyphQuad {
        texture_id: glyph.texture_id,
        x: (pen + glyph.bearing.x) as i128,
        y: (anchor - glyph.bearing.y) as i64,
        width: glyph.size.x,
        height: glyph.size.y,
    }
}

/// The quads of `text`, in reading order: one for each character that has a
/// glyph, placed at the pen position that the characters before it leave.
pub open spec fn quads_of(glyphs: Map<char, Character>, text: Seq<char>) -> Seq<GlyphQuad>
    decreases text.len(),
{
    if text.len() == 0 {
        Seq::empty()
    } else {
        let before = text.drop_last();
        match lookup(glyphs, text.last()) {
            Some(glyph) => quads_of(glyphs, before).push(
                quad_of(glyph, pen_after(glyphs, before), anchor_of(glyphs)),
            ),
            None => quads_of(glyphs, before),
        }
    }
}

/// The largest advance of one glyph, in whole pixels.
pub open spec fn max_advance_px() -> int {
    0x3FF_FFFF
}

/// The pen never moves back, and no further than the largest advance for
/// each character.
pub proof fn lemma_pen_bounds(glyphs: Map<char, Character>, text: Seq<char>)
    ensures
        0 <= pen_after(glyphs, text) <= text.len() * max_advance_px(),
    decreases text.len(),
{
    if text.len() > 0 {
        lemma_pen_bounds(glyphs, text.drop_last());
        assert(0 <= advance_of(glyphs, text.last()) <= max_advance_px());
        assert(text.drop_last().len() * max_advance_px() + max_advance_px() == text.len()
            * max_advance_px()) by (nonlinear_arith)
            requires
                text.drop_last().len() + 1 == text.len(),
        ;
    }
}

/// The displacement of the pen over a text is the sum of the displacements
/// over its parts.
pub proof fn lemma_pen_additive(glyphs: Map<char, Character>, a: Seq<char>, b: Seq<char>)
    ensures
        pen_after(glyphs, a + b) == pen_after(glyphs, a) + pen_after(glyphs, b),
    decreases b.len(),
{
    if b.len() == 0 {
        assert(a + b =~= a);
    } else {
        lemma_pen_additive(glyphs, a, b.drop_last());
        assert((a + b).drop_last() =~= a + b.drop_last());
        assert((a + b).last() == b.last());
    }
}

impl GlyphAtlas {
    /// Places the glyphs of `chars` on one line with what the atlas holds.
    pub fn layout(&self, chars: &Vec<char>) -> (placed: TextLayout)
        ensures
            placed.quads@ == quads_of(self@, chars@),
            placed.advance as int == pen_after(self@, chars@),
    {
        let anchor: i64 = match self.get(REFERENCE_GLYPH) {
            Some(glyph) => glyph.bearing.y as i64,
            None => 0,
        };
        let mut quads: Vec<GlyphQuad> = Vec::new();
        let mut pen: i128 = 0;
        let mut i: usize = 0;
        while i < chars.len()
            invariant
                i <= chars.len(),
                anchor as int == anchor_of(self@),
                pen as int == pen_after(self@, chars@.take(i as int)),
                quads@ == quads_of(self@, chars@.take(i as int)),
            decreases chars.len() - i,
        {
            let c = chars[i];
            proof {
                assert(chars@.take(i + 1).drop_last() =~= chars@.take(i as int));
                assert(chars@.take(i + 1).last() == c);
                lemma_pen_bounds(self@, chars@.take(i as int));
                assert(i * max_advance_px() <= usize::MAX * max_advance_px()) by (nonlinear_arith)
                    requires
                        i <= usize::MAX,
                ;
            }
            match self.get(c) {
                Some(glyph) => {
                    quads.push(
                        GlyphQuad {
                            texture_id: glyph.texture_id,
                            x: pen + glyph.bearing.x as i128,
                            y: anchor - glyph.bearing.y as i64,
                            width: glyph.size.x,
                            height: glyph.size.y,
                        },
                    );
                    pen = pen + glyph.advance_pixels() as i128;
                },
                None => {},
            }
            i += 1;
        }
        proof {
            assert(chars@.take(chars.len() as int) =~= chars@);
        }
        TextLayout { quads, advance: pen }
    }
}

/// Whether laying out `text` asks for the glyph of `c`: every character of
/// the text does, and so does the reference glyph, unless the text is empty.
pub open spec fn needed(text: Seq<char>, c: char) -> bool {
    text.len() > 0 && (text.contains(c) || c == REFERENCE_GLYPH)
}

impl GlyphAtlas {
    /// Rasterizes what `chars` needs and the atlas lacks. Glyphs that the
    /// atlas holds stay as they are and are not rasterized again; each new
    /// glyph is one that `rasterize` returned for its character; and a needed
    /// character that is still missing afterwards is one that `rasterize`
    /// failed on.
    pub fn prepare<F: Fn(char) -> Option<Character>>(&mut self, chars: &Vec<char>, rasterize: &F)
        requires
            forall|c: char| needed(chars@, c) && !old(self)@.contains_key(c) ==> rasterize.requires((c,)),
        ensures
            old(self)@.submap_of(final(self)@),
            forall|c: char| #[trigger]
                final(self)@.contains_key(c) && !old(self)@.contains_key(c) ==> needed(chars@, c)
                    && rasterize.ensures((c,), Some(final(self)@[c])),
            forall|c: char|
                needed(chars@, c) && !(#[trigger] final(self)@.contains_key(c))
                    ==> rasterize.ensures((c,), None),
            final(self).is_initialized() == old(self).is_initialized(),
            final(self).spec_font_size() == old(self).spec_font_size(),
    {
        let mut i: usize = 0;
        while i < chars.len()
            invariant
                i <= chars.len(),
                forall|c: char| needed(chars@, c) && !old(self)@.contains_key(c) ==> rasterize.requires((c,)),
                old(self)@.submap_of(self@),
                forall|c: char| #[trigger]
                    self@.contains_key(c) && !old(self)@.contains_key(c) ==> needed(chars@, c)
                        && rasterize.ensures((c,), Some(self@[c])),
                forall|c: char|
                    (i > 0 && c == REFERENCE_GLYPH || chars@.take(i as int).contains(c)) && !(
                    #[trigger] self@.contains_key(c)) ==> rasterize.ensures((c,), None),
                self.is_initialized() == old(self).is_initialized(),
                self.spec_font_size() == old(self).spec_font_size(),
            decreases chars.len() - i,
        {
            let c = chars[i];
            proof {
                assert(chars@[i as int] == c);
                assert(chars@.contains(c));
                assert(needed(chars@, c));
                assert(needed(chars@, REFERENCE_GLYPH));
            }
            let ghost before = self@;
            self.try_load(c, rasterize);
            let ghost between = self@;
            self.try_load(REFERENCE_GLYPH, rasterize);
            proof {
                assert(before.submap_of(between));
                assert(between.submap_of(self@));
                assert(old(self)@.submap_of(self@));
                assert forall|d: char|
                    (d == REFERENCE_GLYPH || chars@.take(i + 1).contains(d)) && !(
                    #[trigger] self@.contains_key(d)) implies rasterize.ensures((d,), None) by {
                    if d == REFERENCE_GLYPH {
                    } else if d == c {
                    } else {
                        let upto = chars@.take(i + 1);
                        let j = choose|j: int| 0 <= j < upto.len() && upto[j] == d;
                        assert(j < i);
                        assert(chars@.take(i as int)[j] == d);
                        assert(chars@.take(i as int).contains(d));
                    }
                }
            }
            i += 1;
        }
        proof {
            assert(chars@.take(chars.len() as int) =~= chars@);
        }
    }

    /// One attempt on `c` with a rasterizer that can be used again.
    fn try_load<F: Fn(char) -> Option<Character>>(&mut self, c: char, rasterize: &F)
        requires
            !old(self)@.contains_key(c) ==> rasterize.requires((c,)),
        ensures
            old(self)@.contains_key(c) ==> final(self)@ == old(self)@,
            !old(self)@.contains_key(c) ==> {
                &&& rasterize.ensures((c,), lookup(final(self)@, c))
                &&& final(self)@ == stored(old(self)@, c, lookup(final(self)@, c))
            },
            final(self).is_initialized() == old(self).is_initialized(),
            final(self).spec_font_size() == old(self).spec_font_size(),
    {
        if !self.contains(c) {
            let outcome = rasterize(c);
            self.store(c, outcome);
        }
    }
}

/// Lays out text for a viewport with the glyphs of one font, rasterizing
/// each glyph when it is first needed.
pub struct TextRenderer {
    /// Width of the viewport that text is drawn into.
    pub width: u32,
    /// Height of the viewport that text is drawn into.
    pub height: u32,
    /// Path of the font that glyphs come from; empty until `load`.
    pub font: String,
    /// The glyphs rasterized so far.
    pub atlas: GlyphAtlas,
}

impl TextRenderer {
    /// A renderer for a viewport of the given size, with no font yet.
    pub fn new(width: u32, height: u32) -> (renderer: TextRenderer)
        ensures
            renderer.width == width,
            renderer.height == height,
            renderer.font@ == Seq::<char>::empty(),
            renderer.atlas@ == Map::<char, Character>::empty(),
            !renderer.atlas.is_initialized(),
    {
        TextRenderer { width, height, font: String::new(), atlas: GlyphAtlas::new() }
    }

    /// Chooses the font and the pixel size, and starts with an empty atlas.
    /// May be called again to change font or size.
    pub fn load(&mut self, font: String, font_size: u32)
        ensures
            final(self).font@ == font@,
            final(self).atlas@ == Map::<char, Character>::empty(),
            final(self).atlas.is_initialized(),
            final(self).atlas.spec_font_size() == font_size,
            final(self).width == old(self).width,
            final(self).height == old(self).height,
    {
        self.atlas.init(font_size);
        self.font = font;
    }

    /// Lays out `text` on one line. Glyphs that the atlas lacks are
    /// rasterized first, each held glyph never again; a character whose glyph
    /// cannot be had is left out and does not move the pen.
    pub fn render_text<F: Fn(char) -> Option<Character>>(&mut self, text: &str, rasterize: &F) -> (placed:
        TextLayout)
        requires
            forall|c: char|
                needed(text@, c) && !old(self).atlas@.contains_key(c) ==> rasterize.requires((c,)),
        ensures
            placed.quads@ == quads_of(final(self).atlas@, text@),
            placed.advance as int == pen_after(final(self).atlas@, text@),
            old(self).atlas@.submap_of(final(self).atlas@),
            forall|c: char| #[trigger]
                final(self).atlas@.contains_key(c) && !old(self).atlas@.contains_key(c) ==> needed(
                    text@,
                    c,
                ) && rasterize.ensures((c,), Some(final(self).atlas@[c])),
            forall|c: char|
                needed(text@, c) && !(#[trigger] final(self).atlas@.contains_key(c))
                    ==> rasterize.ensures((c,), None),
            final(self).atlas.is_initialized() == old(self).atlas.is_initialized(),
            final(self).atlas.spec_font_size() == old(self).atlas.spec_font_size(),
            final(self).font@ == old(self).font@,
            final(self).width == old(self).width,
            final(self).height == old(self).height,
    {
        let chars = chars_of(text);
        self.atlas.prepare(&chars, rasterize);
        self.atlas.layout(&chars)
    }
}

} // verus!
