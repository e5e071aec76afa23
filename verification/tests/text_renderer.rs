use breakout::strings::chars_of;
use breakout::text_renderer::{Character, GlyphAtlas, GlyphQuad, IVec2, TextRenderer};
use std::cell::Cell;
use std::cell::RefCell;

fn glyph(texture_id: u32, w: i32, h: i32, left: i32, top: i32, advance: u32) -> Character {
    Character {
        texture_id,
        size: IVec2 { x: w, y: h },
        bearing: IVec2 { x: left, y: top },
        advance,
    }
}

fn sample(c: char) -> Option<Character> {
    match c {
        'H' => Some(glyph(1, 10, 14, 1, 14, 12 * 64)),
        'a' => Some(glyph(2, 8, 9, 0, 9, 9 * 64 + 63)),
        'g' => Some(glyph(3, 8, 13, 1, 9, 10 * 64)),
        ' ' => Some(glyph(4, 0, 0, 0, 0, 5 * 64)),
        _ => None,
    }
}

#[test]
fn chars_of_keeps_every_character_in_order() {
    assert_eq!(chars_of("aé漢"), vec!['a', 'é', '漢']);
    assert_eq!(chars_of(""), Vec::<char>::new());
}

#[test]
fn default_character_is_all_zero() {
    let ch = Character::default();
    assert_eq!(ch, glyph(0, 0, 0, 0, 0, 0));
}

#[test]
fn advance_drops_the_six_fractional_bits() {
    assert_eq!(glyph(0, 0, 0, 0, 0, 64).advance_pixels(), 1);
    assert_eq!(glyph(0, 0, 0, 0, 0, 127).advance_pixels(), 1);
    assert_eq!(glyph(0, 0, 0, 0, 0, 63).advance_pixels(), 0);
    assert_eq!(glyph(0, 0, 0, 0, 0, u32::MAX).advance_pixels(), 0x3FF_FFFF);
}

#[test]
fn new_atlas_is_empty() {
    let atlas = GlyphAtlas::new();
    assert!(!atlas.initialized());
    assert_eq!(atlas.font_size(), 0);
    assert!(!atlas.contains('H'));
    assert_eq!(atlas.get('H'), None);
}

#[test]
fn same_character_is_rasterized_once() {
    let calls = Cell::new(0u32);
    let mut atlas = GlyphAtlas::new();
    let first = atlas.get_or_load('a', |c| {
        calls.set(calls.get() + 1);
        sample(c)
    });
    let second = atlas.get_or_load('a', |c| {
        calls.set(calls.get() + 1);
        sample(c)
    });
    assert_eq!(first, sample('a'));
    assert_eq!(second, first);
    assert_eq!(calls.get(), 1);
}

#[test]
fn load_reports_whether_a_glyph_was_added() {
    let mut atlas = GlyphAtlas::new();
    assert!(atlas.load('a', sample));
    assert!(!atlas.load('a', sample));
    assert!(!atlas.load('?', sample));
    assert!(atlas.contains('a'));
    assert!(!atlas.contains('?'));
}

#[test]
fn store_keeps_the_glyph_that_came_first() {
    let mut atlas = GlyphAtlas::new();
    assert!(atlas.store('a', sample('a')));
    assert!(!atlas.store('a', sample('g')));
    assert_eq!(atlas.get('a'), sample('a'));
    assert!(!atlas.store('b', None));
    assert_eq!(atlas.get('b'), None);
}

#[test]
fn init_forgets_the_glyphs() {
    let mut atlas = GlyphAtlas::new();
    atlas.store('a', sample('a'));
    atlas.init(48);
    assert!(atlas.initialized());
    assert_eq!(atlas.font_size(), 48);
    assert!(!atlas.contains('a'));
}

#[test]
fn layout_places_each_glyph_at_the_pen() {
    let mut r = TextRenderer::new(800, 600);
    r.load("fonts/ocraext.ttf".to_string(), 24);
    let placed = r.render_text("Hag", &sample);
    assert_eq!(
        placed.quads,
        vec![
            GlyphQuad { texture_id: 1, x: 1, y: 0, width: 10, height: 14 },
            GlyphQuad { texture_id: 2, x: 12, y: 5, width: 8, height: 9 },
            GlyphQuad { texture_id: 3, x: 22, y: 5, width: 8, height: 13 },
        ]
    );
    assert_eq!(placed.advance, 12 + 9 + 10);
}

#[test]
fn displacement_is_the_sum_of_the_advances() {
    let mut r = TextRenderer::new(800, 600);
    r.load("fonts/ocraext.ttf".to_string(), 24);
    let whole = r.render_text("aga Ha", &sample).advance;
    let left = r.render_text("aga", &sample).advance;
    let right = r.render_text(" Ha", &sample).advance;
    assert_eq!(whole, 9 + 10 + 9 + 5 + 12 + 9);
    assert_eq!(whole, left + right);
}

#[test]
fn missing_glyph_is_skipped() {
    let mut r = TextRenderer::new(800, 600);
    r.load("fonts/ocraext.ttf".to_string(), 24);
    let placed = r.render_text("a?a", &sample);
    assert_eq!(placed.quads.len(), 2);
    assert_eq!(placed.quads[0].x, 0);
    assert_eq!(placed.quads[1].x, 9);
    assert_eq!(placed.advance, 18);
}

#[test]
fn missing_reference_glyph_anchors_at_the_baseline() {
    let only_a = |c: char| if c == 'a' { sample(c) } else { None };
    let mut r = TextRenderer::new(800, 600);
    r.load("fonts/ocraext.ttf".to_string(), 24);
    let placed = r.render_text("a", &only_a);
    assert_eq!(placed.quads, vec![GlyphQuad { texture_id: 2, x: 0, y: -9, width: 8, height: 9 }]);
}

#[test]
fn render_text_rasterizes_each_character_once() {
    let seen = RefCell::new(Vec::<char>::new());
    let counting = |c: char| {
        seen.borrow_mut().push(c);
        sample(c)
    };
    let mut r = TextRenderer::new(800, 600);
    r.load("fonts/ocraext.ttf".to_string(), 24);
    r.render_text("aaga", &counting);
    r.render_text("gaH", &counting);
    assert_eq!(*seen.borrow(), vec!['a', 'H', 'g']);
}

#[test]
fn empty_text_rasterizes_nothing() {
    let calls = Cell::new(0u32);
    let counting = |c: char| {
        calls.set(calls.get() + 1);
        sample(c)
    };
    let mut r = TextRenderer::new(800, 600);
    r.load("fonts/ocraext.ttf".to_string(), 24);
    let placed = r.render_text("", &counting);
    assert!(placed.quads.is_empty());
    assert_eq!(placed.advance, 0);
    assert_eq!(calls.get(), 0);
}

#[test]
fn load_records_font_and_size_and_resets_the_atlas() {
    let mut r = TextRenderer::new(800, 600);
    assert_eq!((r.width, r.height), (800, 600));
    assert_eq!(r.font, "");
    r.load("a.ttf".to_string(), 24);
    r.render_text("a", &sample);
    assert!(r.atlas.contains('a'));
    r.load("b.ttf".to_string(), 32);
    assert_eq!(r.font, "b.ttf");
    assert_eq!(r.atlas.font_size(), 32);
    assert!(!r.atlas.contains('a'));
}
