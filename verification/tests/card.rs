use liftcalc::card::{
    build_svg, dimensions, emoji_images, emoji_svg_path, encode_emoji, ends_with_skin_tone,
    fit_font, image_el, randomize_skin_tone, render_card, shown_emoji, skin_tone_probe_path,
    asset_root, font_path, QUESTION_MARK,
};

const WIDTH: u32 = 640;
const HEIGHT: u32 = 640;
const EMOJI_SIZE: i32 = 230;

fn esc(s: &str) -> String {
    s.replace('&', "&amp;")
        .replace('<', "&lt;")
        .replace('>', "&gt;")
        .replace('"', "&quot;")
}

// The float formula the integer one must agree with.
fn fit_font_f64(text: &str, base: f64, k: f64) -> i32 {
    let usable = f64::from(WIDTH - 72);
    let n = text.chars().count().max(1) as f64;
    (usable / (k * n)).min(base).round().max(16.0) as i32
}

fn image_el_ref(x: i32, y: i32, size: i32, b64: &str) -> String {
    format!(
        r#"<image x="{x}" y="{y}" width="{size}" height="{size}" href="data:image/svg+xml;base64,{b64}"/>"#
    )
}

fn emoji_images_ref(b64s: &[String], center_y: i32) -> String {
    let size = EMOJI_SIZE;
    let top = center_y - size / 2;
    match b64s {
        [] => String::new(),
        [one] => image_el_ref((WIDTH as i32 - size) / 2, top, size, one),
        [a, b, ..] => {
            let gap = 24;
            let total = size * 2 + gap;
            let x0 = (WIDTH as i32 - total) / 2;
            image_el_ref(x0, top, size, a) + &image_el_ref(x0 + size + gap, top, size, b)
        }
    }
}

fn build_svg_ref(
    primary: &str,
    secondary: &str,
    count: &str,
    units: &str,
    permalink: &str,
    icons: &[String],
) -> String {
    let primary = primary.to_uppercase();
    let secondary = secondary.to_uppercase();
    let units = units.to_uppercase();
    let permalink = permalink.to_uppercase();
    let f_primary = fit_font_f64(&primary, 56.0, 0.78);
    let f_secondary = fit_font_f64(&secondary, 34.0, 0.74);
    let f_measure = fit_font_f64(count, 56.0, 0.74);
    let f_units = fit_font_f64(&units, 48.0, 0.74);
    let f_url = fit_font_f64(&permalink, 22.0, 0.60);
    const FS_LABEL: f64 = 28.0;
    const FS_OR: f64 = 24.0;
    const GAP: f64 = 20.0;
    let emoji_half = f64::from(EMOJI_SIZE) / 2.0;
    let half = |fs: f64| fs * 0.36;
    let you_lifted_label = GAP + FS_LABEL;
    let y_primary_label = you_lifted_label + 2.0 * GAP + half(FS_LABEL);
    let y_or1 = y_primary_label + 0.8 * GAP + FS_OR;
    let y_secondary_label = y_or1 + 0.6 * GAP + FS_OR;
    let y_or2 = y_secondary_label + 0.6 * GAP + FS_OR;
    let emoji_center: f64 = y_or2 + GAP + emoji_half;
    let measure_label: f64 = emoji_center + emoji_half + 1.5 * GAP;
    let unit_label: f64 = measure_label + 1.5 * GAP + FS_OR;
    let y_url = f64::from(HEIGHT) - 2.0 * GAP;
    let icon_el = emoji_images_ref(icons, emoji_center.round() as i32);
    format!(
        r##"<svg xmlns="http://www.w3.org/2000/svg" width="{WIDTH}" height="{HEIGHT}" viewBox="0 0 {WIDTH} {HEIGHT}">
  <rect width="{WIDTH}" height="{HEIGHT}" fill="#1b1f2a"/>
  <rect x="20" y="20" width="{bw}" height="{bh}" rx="24" fill="none" stroke="#2a3040" stroke-width="4"/>
  <text x="{cx}" y="{you_lifted_label}" font-family="Oxanium" font-size="28" fill="#8b93a7" text-anchor="middle" dominant-baseline="central">YOU LIFTED</text>
  <text x="{cx}" y="{y_primary_label}" font-family="Oxanium" font-weight="bold" font-size="{f_primary}" fill="#ffffff" text-anchor="middle" dominant-baseline="central">{primary}</text>
  <text x="{cx}" y="{y_or1}" font-family="Oxanium" font-size="24" fill="#8b93a7" text-anchor="middle" dominant-baseline="central">OR</text>
  <text x="{cx}" y="{y_secondary_label}" font-family="Oxanium" font-size="{f_secondary}" fill="#c3c9d6" text-anchor="middle" dominant-baseline="central">{secondary}</text>
  <text x="{cx}" y="{y_or2}" font-family="Oxanium" font-size="24" fill="#8b93a7" text-anchor="middle" dominant-baseline="central">OR</text>
  {icon_el}
  <text x="{cx}" y="{measure_label}" font-family="Oxanium" font-weight="bold" font-size="{f_measure}" fill="#ffffff" text-anchor="middle" dominant-baseline="central"><tspan fill="#f472b6">{count}</tspan></text>
  <text x="{cx}" y="{unit_label}" font-family="Oxanium" font-weight="bold" font-size="{f_units}" fill="#ffffff" text-anchor="middle" dominant-baseline="central">{units}</text>
  <text x="{cx}" y="{y_url}" font-family="Oxanium" font-size="{f_url}" fill="#5c6478" text-anchor="middle" dominant-baseline="central">{permalink}</text>
</svg>"##,
        bw = WIDTH - 40,
        bh = HEIGHT - 40,
        cx = WIDTH / 2,
        count = esc(count),
        units = esc(&units),
        primary = esc(&primary),
        secondary = esc(&secondary),
        permalink = esc(&permalink),
    )
}

#[test]
fn card_dimensions() {
    assert_eq!(dimensions(), (640, 640));
}

#[test]
fn asset_paths() {
    assert_eq!(asset_root(), "assets");
    assert_eq!(font_path(), "assets/fonts/Oxanium.ttf");
    assert_eq!(emoji_svg_path("1f35a"), "assets/emoji/emoji_u1f35a.svg");
    assert_eq!(skin_tone_probe_path("1f44d"), "assets/emoji/emoji_u1f44d_1f3fb.svg");
}

#[test]
fn fitted_fonts_match_the_float_formula() {
    for n in 0..400usize {
        let text: String = "x".repeat(n);
        for (base, k, kp) in [(56u32, 0.78, 78u32), (34, 0.74, 74), (56, 0.74, 74), (48, 0.74, 74), (22, 0.60, 60)] {
            assert_eq!(fit_font(&text, base, kp), fit_font_f64(&text, base as f64, k), "n={n} base={base}");
        }
    }
    assert_eq!(fit_font("1,234 LBS", 56, 78), 56);
    assert_eq!(fit_font("HOWMUCHDIDILIFT.COM/W/1234LBS", 22, 60), 22);
    assert_eq!(fit_font(&"X".repeat(40), 56, 78), 18);
    assert_eq!(fit_font(&"X".repeat(100), 56, 78), 16);
}

#[test]
fn image_elements() {
    assert_eq!(
        image_el(205, -115, 230, "QUJD"),
        r#"<image x="205" y="-115" width="230" height="230" href="data:image/svg+xml;base64,QUJD"/>"#
    );
}

#[test]
fn emoji_band_layout() {
    let a = "AAA".to_string();
    let b = "BBB".to_string();
    assert_eq!(emoji_images(&vec![], 345), "");
    assert_eq!(emoji_images(&vec![a.clone()], 345), emoji_images_ref(&[a.clone()], 345));
    assert!(emoji_images(&vec![a.clone()], 345).contains(r#"x="205" y="230""#));
    let two = emoji_images(&vec![a.clone(), b.clone()], 345);
    assert_eq!(two, emoji_images_ref(&[a.clone(), b.clone()], 345));
    assert!(two.contains(r#"x="78""#) && two.contains(r#"x="332""#));
    assert_eq!(
        emoji_images(&vec![a.clone(), b.clone(), "CCC".to_string()], 345),
        emoji_images_ref(&[a, b, "CCC".to_string()], 345)
    );
}

#[test]
fn card_markup_matches_the_layout() {
    let icons = vec!["PHN2Zz4=".to_string()];
    let got = build_svg(
        "1,234 lbs",
        "559.7 kgs",
        "74.63",
        "Bags of Rice",
        "howmuchdidilift.com/w/1234lbs",
        &icons,
    );
    let want = build_svg_ref(
        "1,234 lbs",
        "559.7 kgs",
        "74.63",
        "Bags of Rice",
        "howmuchdidilift.com/w/1234lbs",
        &icons,
    );
    assert_eq!(got, want);
    let got = build_svg("a<b", "x\"y", "0.000123", "Tom & Jerry's", "p", &vec![]);
    let want = build_svg_ref("a<b", "x\"y", "0.000123", "Tom & Jerry's", "p", &[]);
    assert_eq!(got, want);
    assert!(got.contains("TOM &amp; JERRY'S"));
}

#[test]
fn skin_tones() {
    assert!(ends_with_skin_tone("1f44d_1f3fd"));
    assert!(!ends_with_skin_tone("1f44d"));
    assert_eq!(randomize_skin_tone("1f44d", false), "1f44d");
    assert_eq!(randomize_skin_tone("1f44d_1f3fb", true), "1f44d_1f3fb");
    let toned = randomize_skin_tone("1f44d", true);
    let tones = ["1f3fb", "1f3fc", "1f3fd", "1f3fe", "1f3ff"];
    assert!(tones.iter().any(|t| toned == format!("1f44d_{t}")), "{toned}");
}

// A stand-in for an emoji file: a filled circle on the emoji's 128 px grid.
const EMOJI_STAND_IN: &str = r##"<svg xmlns="http://www.w3.org/2000/svg" viewBox="0 0 128 128"><circle cx="64" cy="64" r="56" fill="#f5e6c8" stroke="#8d6e63" stroke-width="6"/></svg>"##;

#[test]
fn renders_card_png() {
    // The card font is not among the test inputs: text is drawn only when a
    // font is given, so an empty font database still yields a full card.
    let png = render_card(
        "1,234 lbs",
        "559.7 kgs",
        "74.63",
        "Bags of Rice",
        "howmuchdidilift.com/w/1234lbs",
        &vec![EMOJI_STAND_IN.as_bytes().to_vec()],
        Vec::new(),
    )
    .expect("render should succeed");
    assert!(png.len() > 1000, "png too small: {}", png.len());
    assert_eq!(&png[1..4], b"PNG", "not a png");
    assert_eq!(&png[..8], &[137u8, 80, 78, 71, 13, 10, 26, 10]);
    // The header chunk: 640 by 640 pixels.
    assert_eq!(&png[8..16], b"\0\0\0\x0dIHDR");
    assert_eq!(&png[16..24], &[0u8, 0, 2, 128, 0, 0, 2, 128]);
}

#[test]
fn odd_emoji_bytes_still_render() {
    // An emoji is embedded as base64, so even odd bytes cannot break the markup.
    let png = render_card("a", "b", "1", "c", "d", &vec![b"<<<".to_vec()], Vec::new());
    assert!(png.is_ok());
}

#[test]
fn shown_emoji_keeps_what_loaded() {
    let loaded = vec![b"one".to_vec(), b"two".to_vec()];
    let r = shown_emoji(loaded.clone(), || panic!("question mark loaded needlessly"));
    assert_eq!(r, loaded);
}

#[test]
fn shown_emoji_falls_back_to_the_question_mark() {
    assert_eq!(QUESTION_MARK, "2753");
    let r = shown_emoji(Vec::new(), || Some(b"?".to_vec()));
    assert_eq!(r, vec![b"?".to_vec()]);
    let r = shown_emoji(Vec::new(), || None);
    assert!(r.is_empty());
}

#[test]
fn emoji_are_embedded_as_base64() {
    let r = encode_emoji(&vec![b"<svg/>".to_vec(), Vec::new()]);
    assert_eq!(r, vec!["PHN2Zy8+".to_string(), String::new()]);
}

#[test]
fn fitted_fonts_at_the_edges() {
    assert_eq!(fit_font("abc", 0, 74), 16);
    assert_eq!(fit_font("abc", 0, 74), fit_font_f64("abc", 0.0, 0.74));
    assert_eq!(fit_font("a", 40, 0), 40);
    assert_eq!(fit_font("a", 40, 0), fit_font_f64("a", 40.0, 0.0));
    assert_eq!(fit_font("a", u32::MAX, 0), i32::MAX);
    assert_eq!(fit_font("a", u32::MAX, 0), fit_font_f64("a", f64::from(u32::MAX), 0.0));
    assert_eq!(fit_font("", 5000, 1), 5000);
    assert_eq!(fit_font("", 5000, 1), fit_font_f64("", 5000.0, 0.01));
}

#[test]
fn longer_lines_never_get_larger_fonts() {
    let mut last = i32::MAX;
    for n in 0..200 {
        let text = "W".repeat(n);
        let size = fit_font(&text, 56, 78);
        assert!(size <= last, "size grew at {n} characters");
        last = size;
    }
}
