//! Share-card composition: the SVG markup for a lift (lift number, emoji and
//! "= N objects") and the asset paths it draws on. Rasterizing the markup and
//! reading the assets happen outside this library.

use vstd::prelude::*;
use vstd::string::*;

use crate::encoding::{base64_of, encode_base64};
use crate::fact_store::random_below;
use crate::markup::{escaped, push_escaped};
use crate::raster::{png_of_size, rasterize_svg, rendered_png, svg_tree_parses};
use crate::text::{
    all_ascii, ascii_uppered, chars_of, contains, ends_with, ends_with_chars, lemma_contains_append,
    lemma_contains_run, occurs_at, push_signed_decimal, signed_decimal, to_uppercase, uppercase,
};

verus! {

/// Card width in pixels.
pub const WIDTH: u32 = 640;

/// Card height in pixels.
pub const HEIGHT: u32 = 640;

/// Edge length of a rendered emoji (the same whether one or two are shown).
pub const EMOJI_SIZE: i32 = 230;

/// Card pixel dimensions `(width, height)`, used for `og:image:width/height`.
pub fn dimensions() -> (r: (u32, u32))
    ensures
        r == (WIDTH, HEIGHT),
{
    (WIDTH, HEIGHT)
}

// ---------------------------------------------------------------------------
// Assets
// ---------------------------------------------------------------------------

/// Directory holding the bundled `fonts/` and `emoji/` assets, relative to
/// the working directory.
pub fn asset_root() -> (r: String)
    ensures
        r@ == "assets"@,
{
    String::from_str("assets")
}

/// Path of the bundled card font.
pub fn font_path() -> (r: String)
    ensures
        r@ == "assets/fonts/Oxanium.ttf"@,
{
    String::from_str("assets/fonts/Oxanium.ttf")
}

/// Path of the bundled emoji directory.
pub fn emoji_dir() -> (r: String)
    ensures
        r@ == "assets/emoji"@,
{
    String::from_str("assets/emoji")
}

/// Path of the Noto emoji SVG for a codepoint token.
pub fn emoji_svg_path(cp: &str) -> (r: String)
    ensures
        r@ == "assets/emoji/emoji_u"@ + cp@ + ".svg"@,
{
    let mut r = String::from_str("assets/emoji/emoji_u");
    r.append(cp);
    r.append(".svg");
    r
}

/// The five skin-tone modifier codepoints, lightest first.
pub open spec fn skin_tone(i: int) -> Seq<char> {
    if i == 0 {
        "1f3fb"@
    } else if i == 1 {
        "1f3fc"@
    } else if i == 2 {
        "1f3fd"@
    } else if i == 3 {
        "1f3fe"@
    } else {
        "1f3ff"@
    }
}

fn skin_tone_text(i: usize) -> (r: &'static str)
    requires
        i < 5,
    ensures
        r@ == skin_tone(i as int),
{
    if i == 0 {
        "1f3fb"
    } else if i == 1 {
        "1f3fc"
    } else if i == 2 {
        "1f3fd"
    } else if i == 3 {
        "1f3fe"
    } else {
        "1f3ff"
    }
}

/// The codepoint already carries a skin tone.
pub open spec fn has_skin_tone(base: Seq<char>) -> bool {
    exists|i: int| 0 <= i < 5 && ends_with(base, #[trigger] skin_tone(i))
}

/// Whether the codepoint already ends with a skin-tone modifier.
pub fn ends_with_skin_tone(base: &str) -> (b: bool)
    ensures
        b == has_skin_tone(base@),
{
    let cs = chars_of(base);
    let mut i: usize = 0;
    while i < 5
        invariant
            i <= 5,
            cs@ == base@,
            forall|j: int| 0 <= j < i ==> !ends_with(base@, #[trigger] skin_tone(j)),
        decreases 5 - i,
    {
        let tone = chars_of(skin_tone_text(i));
        if ends_with_chars(&cs, &tone) {
            return true;
        }
        i = i + 1;
    }
    false
}

/// The file whose presence shows that an emoji comes in skin tones.
pub fn skin_tone_probe_path(base: &str) -> (r: String)
    ensures
        r@ == "assets/emoji/emoji_u"@ + base@ + "_1f3fb.svg"@,
{
    let mut r = String::from_str("assets/emoji/emoji_u");
    r.append(base);
    r.append("_1f3fb.svg");
    r
}

/// If `base` is a skin-tone-capable emoji (`toned_variant_exists`) and does
/// not carry a tone yet, a randomly toned variant `base_<tone>`, so hands and
/// people vary each render; otherwise `base` unchanged.
pub fn randomize_skin_tone(base: &str, toned_variant_exists: bool) -> (r: String)
    ensures
        has_skin_tone(base@) || !toned_variant_exists ==> r@ == base@,
        !has_skin_tone(base@) && toned_variant_exists ==> exists|i: int|
            0 <= i < 5 && r@ == base@ + "_"@ + #[trigger] skin_tone(i),
{
    if ends_with_skin_tone(base) || !toned_variant_exists {
        return String::from_str(base);
    }
    let i = random_below(5);
    let mut r = String::from_str(base);
    r.append("_");
    r.append(skin_tone_text(i));
    assert(r@ == base@ + "_"@ + skin_tone(i as int));
    r
}

// ---------------------------------------------------------------------------
// Layout
// ---------------------------------------------------------------------------

/// A font size that keeps a line of `n` characters within the usable card
/// width (568 px), capped at `base`: with `k` the average glyph width as
/// hundredths of the font size, `568 / (k/100 * n)` rounded half up, at least
/// 16. An empty line counts as one character.
pub open spec fn fit_font_size(n: nat, base: nat, k: nat) -> int {
    let m = if n == 0 {
        1
    } else {
        n
    };
    let r = if 56800 >= base * (k * m) {
        base as int
    } else {
        ((113600 + k * m) / (2 * (k * m))) as int
    };
    if r < 16 {
        16
    } else {
        r
    }
}

/// A fitted font size is never below 16 px and never above the line's cap
/// (when the cap is at least 16 px).
pub proof fn lemma_fit_font_bounds(n: nat, base: nat, k: nat)
    requires
        k > 0,
    ensures
        16 <= fit_font_size(n, base, k),
        fit_font_size(n, base, k) <= if base < 16 {
            16
        } else {
            base as int
        },
{
    let m: nat = if n == 0 {
        1
    } else {
        n
    };
    let km = k * m;
    assert(km >= 1) by (nonlinear_arith)
        requires
            k >= 1,
            m >= 1,
            km == k * m,
    ;
    if !(56800 >= base * km) {
        let q = (113600 + km) / (2 * km);
        assert(q <= base) by (nonlinear_arith)
            requires
                base * km > 56800,
                km >= 1,
                q == (113600 + km) / (2 * km),
        ;
    }
}

/// A longer line never gets a larger font: the fitted size does not grow
/// with the number of characters.
pub proof fn lemma_fit_font_monotone(n1: nat, n2: nat, base: nat, k: nat)
    requires
        n1 <= n2,
    ensures
        fit_font_size(n2, base, k) <= fit_font_size(n1, base, k),
{
    let m1: nat = if n1 == 0 {
        1
    } else {
        n1
    };
    let m2: nat = if n2 == 0 {
        1
    } else {
        n2
    };
    let x = k * m1;
    let y = k * m2;
    assert(x <= y) by (nonlinear_arith)
        requires
            m1 <= m2,
            x == k * m1,
            y == k * m2,
    ;
    assert(base * x <= base * y) by (nonlinear_arith)
        requires
            x <= y,
    ;
    if !(56800 >= base * y) {
        assert(y >= 1) by (nonlinear_arith)
            requires
                base * y > 56800,
        ;
        let qy = (113600 + y) / (2 * y);
        if 56800 >= base * x {
            assert(qy <= base) by (nonlinear_arith)
                requires
                    base * y > 56800,
                    y >= 1,
                    qy == (113600 + y) / (2 * y),
            ;
        } else {
            assert(x >= 1) by (nonlinear_arith)
                requires
                    base * x > 56800,
            ;
            let qx = (113600 + x) / (2 * x);
            assert(qy <= qx) by (nonlinear_arith)
                requires
                    1 <= x <= y,
                    qx == (113600 + x) / (2 * x),
                    qy == (113600 + y) / (2 * y),
            {
                assert(113600 + x < (qx + 1) * (2 * x));
                assert(113600 < x * (2 * qx + 1));
                assert(x * (2 * qx + 1) <= y * (2 * qx + 1));
                assert(113600 + y < (qx + 1) * (2 * y));
            }
        }
    }
}

/// Picks a font size for `text` (see [`fit_font_size`]). A size beyond
/// `i32::MAX`, which only a cap beyond it gives, is clamped to `i32::MAX`, as
/// a float-to-integer conversion saturates.
pub fn fit_font(text: &str, base: u32, k: u32) -> (r: i32)
    ensures
        r == (if fit_font_size(text@.len(), base as nat, k as nat) > i32::MAX {
            i32::MAX as int
        } else {
            fit_font_size(text@.len(), base as nat, k as nat)
        }),
{
    let n = text.unicode_len();
    let m: u128 = if n == 0 {
        1
    } else {
        n as u128
    };
    let kk = k as u128;
    let bb = base as u128;
    assert(kk * m <= 0xffff_ffffu128 * 0xffff_ffff_ffff_ffffu128) by (nonlinear_arith)
        requires
            kk <= 0xffff_ffffu128,
            m <= 0xffff_ffff_ffff_ffffu128,
    ;
    assert(bb * (kk * m) <= 0xffff_ffffu128 * (0xffff_ffffu128 * 0xffff_ffff_ffff_ffffu128))
        by (nonlinear_arith)
        requires
            bb <= 0xffff_ffffu128,
            kk * m <= 0xffff_ffffu128 * 0xffff_ffff_ffff_ffffu128,
    ;
    let km = kk * m;
    let r: u128 = if 56800 >= bb * km {
        bb
    } else {
        assert(km >= 1) by (nonlinear_arith)
            requires
                bb * km > 56800,
        ;
        let q = (113600 + km) / (2 * km);
        assert(q <= 56801) by (nonlinear_arith)
            requires
                km >= 1,
                q == (113600 + km) / (2 * km),
        ;
        q
    };
    let r2: u128 = if r < 16 {
        16
    } else {
        r
    };
    if r2 > 0x7fff_ffff {
        i32::MAX
    } else {
        r2 as i32
    }
}

/// The `<image>` element that places a base64 SVG at `(x, y)`.
pub open spec fn image_markup(x: int, y: int, size: int, b64: Seq<char>) -> Seq<char> {
    "<image x=\""@ + signed_decimal(x) + "\" y=\""@ + signed_decimal(y) + "\" width=\""@
        + signed_decimal(size) + "\" height=\""@ + signed_decimal(size)
        + "\" href=\"data:image/svg+xml;base64,"@ + b64 + "\"/>"@
}

/// Markup for one emoji image.
pub fn image_el(x: i32, y: i32, size: i32, b64: &str) -> (r: String)
    ensures
        r@ == image_markup(x as int, y as int, size as int, b64@),
{
    let mut r = String::from_str("<image x=\"");
    push_signed_decimal(&mut r, x as i64);
    r.append("\" y=\"");
    push_signed_decimal(&mut r, y as i64);
    r.append("\" width=\"");
    push_signed_decimal(&mut r, size as i64);
    r.append("\" height=\"");
    push_signed_decimal(&mut r, size as i64);
    r.append("\" href=\"data:image/svg+xml;base64,");
    r.append(b64);
    r.append("\"/>");
    r
}

/// The icon band: no emoji gives nothing, one emoji is centered, two sit
/// side by side 24 px apart; all vertically centered on `center_y`.
pub open spec fn emoji_band(b64s: Seq<Seq<char>>, center_y: int) -> Seq<char> {
    let top = center_y - 115;
    if b64s.len() == 0 {
        Seq::empty()
    } else if b64s.len() == 1 {
        image_markup(205, top, 230, b64s[0])
    } else {
        image_markup(78, top, 230, b64s[0]) + image_markup(332, top, 230, b64s[1])
    }
}

/// Renders the icon band from the base64 SVGs of the emoji to show.
pub fn emoji_images(b64s: &Vec<String>, center_y: i32) -> (r: String)
    requires
        center_y >= i32::MIN + 115,
    ensures
        r@ == emoji_band(b64s@.map_values(|s: String| s@), center_y as int),
{
    let size = EMOJI_SIZE;
    let top = center_y - size / 2;
    let w = WIDTH as i32;
    if b64s.len() == 0 {
        String::new()
    } else if b64s.len() == 1 {
        image_el((w - size) / 2, top, size, b64s[0].as_str())
    } else {
        let gap: i32 = 24;
        let total = size * 2 + gap;
        let x0 = (w - total) / 2;
        let mut r = image_el(x0, top, size, b64s[0].as_str());
        let second = image_el(x0 + size + gap, top, size, b64s[1].as_str());
        r.append(second.as_str());
        r
    }
}

/// Opening of the card, up to the primary weight's font size.
pub const SVG_HEAD: &'static str = r##"<svg xmlns="http://www.w3.org/2000/svg" width="640" height="640" viewBox="0 0 640 640">
  <rect width="640" height="640" fill="#1b1f2a"/>
  <rect x="20" y="20" width="600" height="600" rx="24" fill="none" stroke="#2a3040" stroke-width="4"/>
  <text x="320" y="48" font-family="Oxanium" font-size="28" fill="#8b93a7" text-anchor="middle" dominant-baseline="central">YOU LIFTED</text>
  <text x="320" y="98.08" font-family="Oxanium" font-weight="bold" font-size=""##;

/// From the primary weight's font size to the primary weight.
pub const SVG_PRIMARY: &'static str = r##"" fill="#ffffff" text-anchor="middle" dominant-baseline="central">"##;

/// From the primary weight to the secondary weight's font size.
pub const SVG_SECONDARY: &'static str = r##"</text>
  <text x="320" y="138.07999999999998" font-family="Oxanium" font-size="24" fill="#8b93a7" text-anchor="middle" dominant-baseline="central">OR</text>
  <text x="320" y="174.07999999999998" font-family="Oxanium" font-size=""##;

/// From the secondary weight's font size to the secondary weight.
pub const SVG_SECONDARY_TEXT: &'static str = r##"" fill="#c3c9d6" text-anchor="middle" dominant-baseline="central">"##;

/// From the secondary weight to the icon band.
pub const SVG_ICON: &'static str = r##"</text>
  <text x="320" y="210.07999999999998" font-family="Oxanium" font-size="24" fill="#8b93a7" text-anchor="middle" dominant-baseline="central">OR</text>
  "##;

/// From the icon band to the count's font size.
pub const SVG_COUNT: &'static str = r##"
  <text x="320" y="490.08" font-family="Oxanium" font-weight="bold" font-size=""##;

/// From the count's font size to the count.
pub const SVG_COUNT_TEXT: &'static str = r##"" fill="#ffffff" text-anchor="middle" dominant-baseline="central"><tspan fill="#f472b6">"##;

/// From the count to the units' font size.
pub const SVG_UNITS: &'static str = r##"</tspan></text>
  <text x="320" y="544.0799999999999" font-family="Oxanium" font-weight="bold" font-size=""##;

/// From the units' font size to the units.
pub const SVG_UNITS_TEXT: &'static str = r##"" fill="#ffffff" text-anchor="middle" dominant-baseline="central">"##;

/// From the units to the permalink's font size.
pub const SVG_URL: &'static str = r##"</text>
  <text x="320" y="600" font-family="Oxanium" font-size=""##;

/// From the permalink's font size to the permalink.
pub const SVG_URL_TEXT: &'static str = r##"" fill="#5c6478" text-anchor="middle" dominant-baseline="central">"##;

/// Closing of the card.
pub const SVG_TAIL: &'static str = r##"</text>
</svg>"##;

/// Vertical center of the icon band (the rows above it, evenly spaced).
pub const EMOJI_CENTER_Y: i32 = 345;

/// The card's SVG markup from texts already uppercased (all but the count).
/// Four major rows (primary weight, secondary weight, emoji, measurement) are
/// evenly spaced, with small "YOU LIFTED" / "OR" labels; the texts are
/// escaped, each line's font size fitted to its length.
pub open spec fn card_markup(
    p: Seq<char>,
    s: Seq<char>,
    count: Seq<char>,
    u: Seq<char>,
    l: Seq<char>,
    icon_el: Seq<char>,
) -> Seq<char> {
    SVG_HEAD@ + signed_decimal(fit_font_size(p.len(), 56, 78)) + SVG_PRIMARY@ + escaped(p)
        + SVG_SECONDARY@ + signed_decimal(fit_font_size(s.len(), 34, 74)) + SVG_SECONDARY_TEXT@
        + escaped(s) + SVG_ICON@ + icon_el + SVG_COUNT@ + signed_decimal(
        fit_font_size(count.len(), 56, 74),
    ) + SVG_COUNT_TEXT@ + escaped(count) + SVG_UNITS@ + signed_decimal(
        fit_font_size(u.len(), 48, 74),
    ) + SVG_UNITS_TEXT@ + escaped(u) + SVG_URL@ + signed_decimal(fit_font_size(l.len(), 22, 60))
        + SVG_URL_TEXT@ + escaped(l) + SVG_TAIL@
}

/// A font size `f` fits a line of `n` characters of average width `k`
/// hundredths of the size, under the cap `cap`, in the card's 568 px of usable
/// width: `f` is at least 16 px and at most the cap (or 16 px); unless it is
/// the 16 px floor, the line is at most 568 px wide (give or take half a
/// character, as the size is rounded); and unless it is the cap, one pixel
/// more would overflow. An empty line counts as one character.
pub open spec fn fits_row(f: int, cap: int, k: int, n: int) -> bool {
    let m = if n == 0 {
        1
    } else {
        n
    };
    &&& 16 <= f
    &&& f <= (if cap < 16 {
        16
    } else {
        cap
    })
    &&& (f == 16 || 2 * f * k * m <= 113600 + k * m)
    &&& (f >= cap || 2 * (f + 1) * k * m > 113600 + k * m)
}

/// The fitted size fits its line.
proof fn lemma_fit_font_fits(n: nat, base: nat, k: nat)
    requires
        k > 0,
    ensures
        fits_row(fit_font_size(n, base, k), base as int, k as int, n as int),
{
    lemma_fit_font_bounds(n, base, k);
    let m: nat = if n == 0 {
        1
    } else {
        n
    };
    let km = k * m;
    assert(km >= 1 && km == k * m) by (nonlinear_arith)
        requires
            k >= 1,
            m >= 1,
            km == k * m,
    ;
    let f = fit_font_size(n, base, k);
    if 56800 >= base * km {
        if base >= 16 {
            assert(2 * f * k * m <= 113600 + k * m) by (nonlinear_arith)
                requires
                    f == base,
                    56800 >= base * km,
                    km == k * m,
            ;
        }
    } else {
        let q = (113600 + km) / (2 * km);
        assert(q * (2 * km) <= 113600 + km < (q + 1) * (2 * km)) by (nonlinear_arith)
            requires
                km >= 1,
                q == (113600 + km) / (2 * km),
        ;
        if q >= 16 {
            assert(2 * f * k * m <= 113600 + k * m && 2 * (f + 1) * k * m > 113600 + k * m)
                by (nonlinear_arith)
                requires
                    f == q,
                    q * (2 * km) <= 113600 + km < (q + 1) * (2 * km),
                    km == k * m,
            ;
        } else {
            assert(2 * (f + 1) * k * m > 113600 + k * m) by (nonlinear_arith)
                requires
                    f == 16,
                    q < 16,
                    113600 + km < (q + 1) * (2 * km),
                    km == k * m,
                    km >= 1,
            ;
        }
    }
}

/// Every row of the card is drawn at a size that fits that row's own text:
/// the primary weight (cap 56 px, glyphs 0.78 of the size wide), the
/// secondary weight (34 px, 0.74), the count (56 px, 0.74), the units
/// (48 px, 0.74) and the permalink (22 px, 0.60). Each row appears in the
/// markup as its opening, a font size that [`fits_row`] the row's text, and
/// the escaped text up to the next row.
pub proof fn lemma_card_rows_fit(
    p: Seq<char>,
    s: Seq<char>,
    c: Seq<char>,
    u: Seq<char>,
    l: Seq<char>,
    icon_el: Seq<char>,
)
    ensures
        exists|f: int|
            #![trigger signed_decimal(f)]
            contains(
                card_markup(p, s, c, u, l, icon_el),
                SVG_HEAD@ + signed_decimal(f) + SVG_PRIMARY@ + escaped(p) + SVG_SECONDARY@,
            ) && fits_row(f, 56, 78, p.len() as int),
        exists|f: int|
            #![trigger signed_decimal(f)]
            contains(
                card_markup(p, s, c, u, l, icon_el),
                SVG_SECONDARY@ + signed_decimal(f) + SVG_SECONDARY_TEXT@ + escaped(s) + SVG_ICON@,
            ) && fits_row(f, 34, 74, s.len() as int),
        exists|f: int|
            #![trigger signed_decimal(f)]
            contains(
                card_markup(p, s, c, u, l, icon_el),
                SVG_COUNT@ + signed_decimal(f) + SVG_COUNT_TEXT@ + escaped(c) + SVG_UNITS@,
            ) && fits_row(f, 56, 74, c.len() as int),
        exists|f: int|
            #![trigger signed_decimal(f)]
            contains(
                card_markup(p, s, c, u, l, icon_el),
                SVG_UNITS@ + signed_decimal(f) + SVG_UNITS_TEXT@ + escaped(u) + SVG_URL@,
            ) && fits_row(f, 48, 74, u.len() as int),
        exists|f: int|
            #![trigger signed_decimal(f)]
            contains(
                card_markup(p, s, c, u, l, icon_el),
                SVG_URL@ + signed_decimal(f) + SVG_URL_TEXT@ + escaped(l) + SVG_TAIL@,
            ) && fits_row(f, 22, 60, l.len() as int),
{
    let fp = fit_font_size(p.len(), 56, 78);
    let fs = fit_font_size(s.len(), 34, 74);
    let fc = fit_font_size(c.len(), 56, 74);
    let fu = fit_font_size(u.len(), 48, 74);
    let fl = fit_font_size(l.len(), 22, 60);
    lemma_fit_font_fits(p.len(), 56, 78);
    lemma_fit_font_fits(s.len(), 34, 74);
    lemma_fit_font_fits(c.len(), 56, 74);
    lemma_fit_font_fits(u.len(), 48, 74);
    lemma_fit_font_fits(l.len(), 22, 60);
    let dp = signed_decimal(fp);
    let ds = signed_decimal(fs);
    let dc = signed_decimal(fc);
    let du = signed_decimal(fu);
    let dl = signed_decimal(fl);
    // The markup, piece by piece: `m[n]` is the markup up to piece `n`.
    let m0 = SVG_HEAD@;
    let m1 = m0 + dp;
    let m2 = m1 + SVG_PRIMARY@;
    let m3 = m2 + escaped(p);
    let m4 = m3 + SVG_SECONDARY@;
    let m5 = m4 + ds;
    let m6 = m5 + SVG_SECONDARY_TEXT@;
    let m7 = m6 + escaped(s);
    let m8 = m7 + SVG_ICON@;
    let m9 = m8 + icon_el;
    let m10 = m9 + SVG_COUNT@;
    let m11 = m10 + dc;
    let m12 = m11 + SVG_COUNT_TEXT@;
    let m13 = m12 + escaped(c);
    let m14 = m13 + SVG_UNITS@;
    let m15 = m14 + du;
    let m16 = m15 + SVG_UNITS_TEXT@;
    let m17 = m16 + escaped(u);
    let m18 = m17 + SVG_URL@;
    let m19 = m18 + dl;
    let m20 = m19 + SVG_URL_TEXT@;
    let m21 = m20 + escaped(l);
    let m22 = m21 + SVG_TAIL@;
    assert(card_markup(p, s, c, u, l, icon_el) == m22);
    // The primary row opens the markup.
    assert(m4.subrange(0, m4.len() as int) =~= m4);
    assert(occurs_at(m4, m4, 0));
    lemma_contains_append(m4, ds, m4);
    lemma_contains_append(m5, SVG_SECONDARY_TEXT@, m4);
    lemma_contains_append(m6, escaped(s), m4);
    lemma_contains_append(m7, SVG_ICON@, m4);
    lemma_contains_append(m8, icon_el, m4);
    lemma_contains_append(m9, SVG_COUNT@, m4);
    lemma_contains_append(m10, dc, m4);
    lemma_contains_append(m11, SVG_COUNT_TEXT@, m4);
    lemma_contains_append(m12, escaped(c), m4);
    lemma_contains_append(m13, SVG_UNITS@, m4);
    lemma_contains_append(m14, du, m4);
    lemma_contains_append(m15, SVG_UNITS_TEXT@, m4);
    lemma_contains_append(m16, escaped(u), m4);
    lemma_contains_append(m17, SVG_URL@, m4);
    lemma_contains_append(m18, dl, m4);
    lemma_contains_append(m19, SVG_URL_TEXT@, m4);
    lemma_contains_append(m20, escaped(l), m4);
    lemma_contains_append(m21, SVG_TAIL@, m4);
    // The secondary row.
    let row4 = SVG_SECONDARY@ + ds + SVG_SECONDARY_TEXT@ + escaped(s) + SVG_ICON@;
    lemma_contains_run(m3, SVG_SECONDARY@, ds, SVG_SECONDARY_TEXT@, escaped(s), SVG_ICON@);
    lemma_contains_append(m8, icon_el, row4);
    lemma_contains_append(m9, SVG_COUNT@, row4);
    lemma_contains_append(m10, dc, row4);
    lemma_contains_append(m11, SVG_COUNT_TEXT@, row4);
    lemma_contains_append(m12, escaped(c), row4);
    lemma_contains_append(m13, SVG_UNITS@, row4);
    lemma_contains_append(m14, du, row4);
    lemma_contains_append(m15, SVG_UNITS_TEXT@, row4);
    lemma_contains_append(m16, escaped(u), row4);
    lemma_contains_append(m17, SVG_URL@, row4);
    lemma_contains_append(m18, dl, row4);
    lemma_contains_append(m19, SVG_URL_TEXT@, row4);
    lemma_contains_append(m20, escaped(l), row4);
    lemma_contains_append(m21, SVG_TAIL@, row4);
    // The count row.
    let row10 = SVG_COUNT@ + dc + SVG_COUNT_TEXT@ + escaped(c) + SVG_UNITS@;
    lemma_contains_run(m9, SVG_COUNT@, dc, SVG_COUNT_TEXT@, escaped(c), SVG_UNITS@);
    lemma_contains_append(m14, du, row10);
    lemma_contains_append(m15, SVG_UNITS_TEXT@, row10);
    lemma_contains_append(m16, escaped(u), row10);
    lemma_contains_append(m17, SVG_URL@, row10);
    lemma_contains_append(m18, dl, row10);
    lemma_contains_append(m19, SVG_URL_TEXT@, row10);
    lemma_contains_append(m20, escaped(l), row10);
    lemma_contains_append(m21, SVG_TAIL@, row10);
    // The units row.
    let row14 = SVG_UNITS@ + du + SVG_UNITS_TEXT@ + escaped(u) + SVG_URL@;
    lemma_contains_run(m13, SVG_UNITS@, du, SVG_UNITS_TEXT@, escaped(u), SVG_URL@);
    lemma_contains_append(m18, dl, row14);
    lemma_contains_append(m19, SVG_URL_TEXT@, row14);
    lemma_contains_append(m20, escaped(l), row14);
    lemma_contains_append(m21, SVG_TAIL@, row14);
    // The permalink row.
    let row18 = SVG_URL@ + dl + SVG_URL_TEXT@ + escaped(l) + SVG_TAIL@;
    lemma_contains_run(m17, SVG_URL@, dl, SVG_URL_TEXT@, escaped(l), SVG_TAIL@);
}

/// The card's SVG markup: the texts (all but the count) uppercased, then laid
/// out by [`card_markup`].
pub open spec fn card_svg(
    primary: Seq<char>,
    secondary: Seq<char>,
    count: Seq<char>,
    units: Seq<char>,
    permalink: Seq<char>,
    icon_el: Seq<char>,
) -> Seq<char> {
    card_markup(
        uppercase(primary),
        uppercase(secondary),
        count,
        uppercase(units),
        uppercase(permalink),
        icon_el,
    )
}

/// Lays out the card from texts already uppercased (all but the count).
pub fn compose_svg(
    primary: &str,
    secondary: &str,
    count: &str,
    units: &str,
    permalink: &str,
    icon_b64s: &Vec<String>,
) -> (r: String)
    ensures
        r@ == card_markup(
            primary@,
            secondary@,
            count@,
            units@,
            permalink@,
            emoji_band(icon_b64s@.map_values(|s: String| s@), EMOJI_CENTER_Y as int),
        ),
{
    let f_primary = fit_font(primary, 56, 78);
    let f_secondary = fit_font(secondary, 34, 74);
    let f_measure = fit_font(count, 56, 74);
    let f_units = fit_font(units, 48, 74);
    let f_url = fit_font(permalink, 22, 60);
    proof {
        lemma_fit_font_bounds(primary@.len(), 56, 78);
        lemma_fit_font_bounds(secondary@.len(), 34, 74);
        lemma_fit_font_bounds(count@.len(), 56, 74);
        lemma_fit_font_bounds(units@.len(), 48, 74);
        lemma_fit_font_bounds(permalink@.len(), 22, 60);
    }

    let icon_el = emoji_images(icon_b64s, EMOJI_CENTER_Y);

    let mut r = String::from_str(SVG_HEAD);
    push_signed_decimal(&mut r, f_primary as i64);
    r.append(SVG_PRIMARY);
    push_escaped(&mut r, primary);
    r.append(SVG_SECONDARY);
    push_signed_decimal(&mut r, f_secondary as i64);
    r.append(SVG_SECONDARY_TEXT);
    push_escaped(&mut r, secondary);
    r.append(SVG_ICON);
    r.append(icon_el.as_str());
    r.append(SVG_COUNT);
    push_signed_decimal(&mut r, f_measure as i64);
    r.append(SVG_COUNT_TEXT);
    push_escaped(&mut r, count);
    r.append(SVG_UNITS);
    push_signed_decimal(&mut r, f_units as i64);
    r.append(SVG_UNITS_TEXT);
    push_escaped(&mut r, units);
    r.append(SVG_URL);
    push_signed_decimal(&mut r, f_url as i64);
    r.append(SVG_URL_TEXT);
    push_escaped(&mut r, permalink);
    r.append(SVG_TAIL);
    r
}

/// Builds the card's SVG markup; `icon_b64s` are the base64 SVGs of the
/// emoji to show (see [`emoji_images`]).
pub fn build_svg(
    primary: &str,
    secondary: &str,
    count: &str,
    units: &str,
    permalink: &str,
    icon_b64s: &Vec<String>,
) -> (r: String)
    ensures
        r@ == card_svg(
            primary@,
            secondary@,
            count@,
            units@,
            permalink@,
            emoji_band(icon_b64s@.map_values(|s: String| s@), EMOJI_CENTER_Y as int),
        ),
        all_ascii(primary@) && all_ascii(secondary@) && all_ascii(units@) && all_ascii(
            permalink@,
        ) ==> r@ == card_markup(
            ascii_uppered(primary@),
            ascii_uppered(secondary@),
            count@,
            ascii_uppered(units@),
            ascii_uppered(permalink@),
            emoji_band(icon_b64s@.map_values(|s: String| s@), EMOJI_CENTER_Y as int),
        ),
{
    let primary = to_uppercase(primary);
    let secondary = to_uppercase(secondary);
    let units = to_uppercase(units);
    let permalink = to_uppercase(permalink);
    compose_svg(
        primary.as_str(),
        secondary.as_str(),
        count,
        units.as_str(),
        permalink.as_str(),
        icon_b64s,
    )
}

/// Codepoint of the question mark shown when none of an icon's emoji load.
pub const QUESTION_MARK: &'static str = "2753";

/// The emoji SVGs a card shows: those of the icon that loaded, or, when none
/// did, the question mark that `question_mark` loads (nothing if that fails
/// too). The question mark is only loaded when it is needed.
pub fn shown_emoji(loaded: Vec<Vec<u8>>, question_mark: impl FnOnce() -> Option<Vec<u8>>) -> (r:
    Vec<Vec<u8>>)
    requires
        loaded@.len() == 0 ==> question_mark.requires(()),
    ensures
        loaded@.len() > 0 ==> r@ == loaded@,
        loaded@.len() == 0 ==> exists|q: Option<Vec<u8>>|
            #[trigger] question_mark.ensures((), q) && r@ == match q {
                Some(v) => seq![v],
                None => Seq::<Vec<u8>>::empty(),
            },
{
    if loaded.len() > 0 {
        return loaded;
    }
    let q = question_mark();
    let mut r: Vec<Vec<u8>> = Vec::new();
    match q {
        Some(v) => {
            r.push(v);
        },
        None => {},
    }
    r
}

/// The base64 texts under which the emoji SVGs are embedded in a card.
pub open spec fn embedded_emoji(svgs: Seq<Vec<u8>>) -> Seq<Seq<char>> {
    svgs.map_values(|v: Vec<u8>| base64_of(v@))
}

/// The base64 text of each emoji SVG, as the card embeds them.
pub fn encode_emoji(svgs: &Vec<Vec<u8>>) -> (r: Vec<String>)
    requires
        forall|i: int| 0 <= i < svgs.len() ==> #[trigger] svgs@[i]@.len() <= isize::MAX,
    ensures
        r.len() == svgs.len(),
        forall|i: int| 0 <= i < svgs.len() ==> #[trigger] r@[i]@ == base64_of(svgs@[i]@),
{
    let mut r: Vec<String> = Vec::new();
    let mut i: usize = 0;
    while i < svgs.len()
        invariant
            i <= svgs.len(),
            r.len() == i,
            forall|j: int| 0 <= j < svgs.len() ==> #[trigger] svgs@[j]@.len() <= isize::MAX,
            forall|j: int| 0 <= j < i ==> #[trigger] r@[j]@ == base64_of(svgs@[j]@),
        decreases svgs.len() - i,
    {
        let b = encode_base64(svgs[i].as_slice());
        r.push(b);
        i = i + 1;
    }
    r
}

/// Renders a share card to PNG bytes: the markup of [`build_svg`], with the
/// emoji SVGs embedded as base64, drawn in the card font `font` (the bytes
/// of `Oxanium.ttf`) on a `WIDTH` by `HEIGHT` canvas. The card succeeds
/// exactly when the rasterizer parses that markup, and is then the PNG file
/// the rasterizer makes of it, `WIDTH` by `HEIGHT` pixels.
pub fn render_card(
    primary: &str,
    secondary: &str,
    count: &str,
    units: &str,
    permalink: &str,
    emoji_svgs: &Vec<Vec<u8>>,
    font: Vec<u8>,
) -> (r: Result<Vec<u8>, String>)
    requires
        forall|i: int| 0 <= i < emoji_svgs.len() ==> #[trigger] emoji_svgs@[i]@.len() <= isize::MAX,
    ensures
        r is Ok <==> svg_tree_parses(
            card_svg(
                primary@,
                secondary@,
                count@,
                units@,
                permalink@,
                emoji_band(embedded_emoji(emoji_svgs@), EMOJI_CENTER_Y as int),
            ),
            "Oxanium"@,
            font@,
        ),
        r matches Ok(png) ==> png@ == rendered_png(
            card_svg(
                primary@,
                secondary@,
                count@,
                units@,
                permalink@,
                emoji_band(embedded_emoji(emoji_svgs@), EMOJI_CENTER_Y as int),
            ),
            "Oxanium"@,
            font@,
            WIDTH,
            HEIGHT,
        ),
        r matches Ok(png) ==> png_of_size(png@, WIDTH, HEIGHT),
{
    let b64s = encode_emoji(emoji_svgs);
    assert(b64s@.map_values(|s: String| s@) =~= embedded_emoji(emoji_svgs@));
    let svg = build_svg(primary, secondary, count, units, permalink, &b64s);
    let (w, h) = dimensions();
    rasterize_svg(svg.as_str(), "Oxanium", font, w, h)
}

} // verus!
