use liftcalc::pages::{is_crawler, weight_reply, WeightLink, WeightReply};
use liftcalc::weight::{parse_spec, parse_weight_spec, spec_token, InputWeightType};

#[test]
fn crawlers_are_detected() {
    assert!(is_crawler(Some("Mozilla/5.0 (compatible; Discordbot/2.0)")));
    assert!(is_crawler(Some("Twitterbot/1.0")));
    assert!(is_crawler(Some("facebookexternalhit/1.1")));
    assert!(!is_crawler(Some(
        "Mozilla/5.0 (Macintosh) AppleWebKit/537.36 Chrome/120 Safari/537.36"
    )));
    assert!(!is_crawler(None));
}

fn amount_text(amt: f64) -> String {
    if amt.fract() == 0.0 {
        format!("{amt:.0}")
    } else {
        format!("{amt}")
    }
}

#[test]
fn spec_round_trips() {
    for (amt, unit, token) in [
        (225.0, InputWeightType::Lbs, "225lbs"),
        (100.5, InputWeightType::Kgs, "100.5kgs"),
    ] {
        assert_eq!(spec_token(&amount_text(amt), &unit), token);
        let w = parse_weight_spec(token).unwrap();
        let a: f64 = w.amount.parse().unwrap();
        assert!((a - amt).abs() < f64::EPSILON);
        assert_eq!(w.unit.name(), unit.name());
    }
}

#[test]
fn parse_rejects_garbage() {
    assert!(parse_weight_spec("abc").is_none());
    assert!(parse_weight_spec("0lbs").is_none());
    assert!(parse_weight_spec("-5kg").is_none());
    assert!(parse_weight_spec("10furlongs").is_none());
}

#[test]
fn weight_spec_units_and_spacing() {
    let w = parse_weight_spec("  225 LB ").unwrap();
    assert_eq!(w.amount, "225");
    assert_eq!(w.unit, InputWeightType::Lbs);
    let w = parse_weight_spec("100kilograms").unwrap();
    assert_eq!(w.amount, "100");
    assert_eq!(w.unit, InputWeightType::Kgs);
    let w = parse_weight_spec("42").unwrap();
    assert_eq!(w.unit, InputWeightType::Lbs);
    let w = parse_weight_spec(".5kg").unwrap();
    assert_eq!(w.amount, ".5");
    assert!(parse_weight_spec("0.000kg").is_none());
    assert!(parse_weight_spec(".kg").is_none());
    assert!(parse_weight_spec("1.2.3kg").is_none());
    assert!(parse_weight_spec("").is_none());
    assert!(parse_weight_spec("5 k g").is_none());
}

#[test]
fn client_spec_parse() {
    assert_eq!(
        parse_spec("225lbs"),
        Some(("225".to_string(), "Lbs".to_string()))
    );
    assert_eq!(
        parse_spec(" 100.5 Kilos"),
        Some(("100.5".to_string(), "Kgs".to_string()))
    );
    // The client keeps a zero amount; only the server rejects it.
    assert_eq!(parse_spec("0"), Some(("0".to_string(), "Lbs".to_string())));
    assert_eq!(parse_spec("5."), Some(("5.".to_string(), "Lbs".to_string())));
    assert_eq!(parse_spec("abc"), None);
    assert_eq!(parse_spec("."), None);
}

fn link() -> WeightLink {
    WeightLink {
        token: "225lbs".to_string(),
        amount: "225".to_string(),
        unit: InputWeightType::Lbs,
        lbs: "225".to_string(),
        kgs: "102.1".to_string(),
    }
}

#[test]
fn browsers_are_redirected() {
    match weight_reply(Some(link()), Some("Mozilla/5.0 Firefox"), "example.com", None) {
        WeightReply::Redirect(to) => assert_eq!(to, "/?w=225lbs"),
        other => panic!("unexpected reply {other:?}"),
    }
    match weight_reply(Some(link()), None, "example.com", None) {
        WeightReply::Redirect(to) => assert_eq!(to, "/?w=225lbs"),
        other => panic!("unexpected reply {other:?}"),
    }
}

#[test]
fn invalid_weights_get_the_hint() {
    match weight_reply(None, Some("Twitterbot/1.0"), "example.com", None) {
        WeightReply::Invalid(h) => {
            assert_eq!(h, "<h1>Invalid weight</h1><p>Try /w/225lbs or /w/100kg</p>")
        }
        other => panic!("unexpected reply {other:?}"),
    }
}

fn esc(s: &str) -> String {
    s.replace('&', "&amp;")
        .replace('<', "&lt;")
        .replace('>', "&gt;")
        .replace('"', "&quot;")
}

#[test]
fn crawlers_get_the_tagged_page() {
    let html = match weight_reply(Some(link()), Some("Twitterbot/1.0"), "example.com", Some("https")) {
        WeightReply::Page(html) => html,
        other => panic!("unexpected reply {other:?}"),
    };
    let base = "https://example.com";
    let amt = 225.0f64;
    let unit_l = "lbs";
    let token = "225lbs";
    let card_url = format!("{base}/api/measures/card?amt={amt}&unit={unit_l}");
    let page_url = format!("{base}/w/{}", esc(token));
    let (cw, ch) = (640, 640);
    let title = format!("I lifted {amt} {unit_l} — how much is that really?");
    let description = format!(
        "{} lbs / {} kgs — but how much is that in bananas, cats, and elephants?",
        "225", "102.1"
    );
    let expected = format!(
        r##"<!doctype html>
<html lang="en">
<head>
  <meta charset="utf-8"/>
  <meta name="viewport" content="width=device-width, initial-scale=1"/>
  <meta name="theme-color" content="#f472b6"/>
  <title>{title}</title>
  <meta name="description" content="{description}"/>
  <meta property="og:type" content="website"/>
  <meta property="og:site_name" content="howmuchdidilift"/>
  <meta property="og:title" content="{title}"/>
  <meta property="og:description" content="{description}"/>
  <meta property="og:image" content="{card_url}"/>
  <meta property="og:image:width" content="{cw}"/>
  <meta property="og:image:height" content="{ch}"/>
  <meta property="og:url" content="{page_url}"/>
  <meta name="twitter:card" content="summary_large_image"/>
  <meta name="twitter:title" content="{title}"/>
  <meta name="twitter:description" content="{description}"/>
  <meta name="twitter:image" content="{card_url}"/>
  <style>
    body {{ margin:0; background:#1b1f2a; color:#c3c9d6; font-family:system-ui,sans-serif;
           min-height:100vh; display:flex; flex-direction:column; align-items:center;
           justify-content:center; gap:24px; padding:24px; box-sizing:border-box; }}
    img {{ max-width:min(92vw,480px); height:auto; border-radius:24px; }}
    a.btn {{ background:#f472b6; color:#1b1f2a; font-weight:700; text-decoration:none;
             padding:14px 28px; border-radius:12px; }}
  </style>
</head>
<body>
  <img src="{card_url}" alt="{title}"/>
  <a class="btn" href="{base}/?w={token}">Convert your own lift &rarr;</a>
</body>
</html>"##,
        title = esc(&title),
        description = esc(&description),
        token = esc(token),
    );
    assert_eq!(html, expected);
}

#[test]
fn base_url_defaults_to_http() {
    assert_eq!(liftcalc::pages::base_url("h:3000", None), "http://h:3000");
    assert_eq!(liftcalc::pages::base_url("h", Some("https")), "https://h");
}

#[test]
fn ascii_case_is_folded() {
    assert!(is_crawler(Some("Discordbot/2.0")));
    assert!(is_crawler(Some("Mozilla/5.0 (compatible; GOOGLEBOT/2.1)")));
    assert!(!is_crawler(Some("Mozilla/5.0 (X11; Linux x86_64) Firefox/120.0")));
    assert_eq!(parse_spec("225LB"), Some(("225".to_string(), "Lbs".to_string())));
    assert_eq!(parse_spec("80 KiLoS"), Some(("80".to_string(), "Kgs".to_string())));
    let w = parse_weight_spec("  12.5KG ").unwrap();
    assert_eq!(w.amount, "12.5");
    assert_eq!(w.unit, InputWeightType::Kgs);
}
