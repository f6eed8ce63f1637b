//! The share permalink `/w/:spec` (e.g. `/w/225lbs`): an HTML page carrying
//! OpenGraph/Twitter meta so the result unfurls into a share card, for
//! crawlers; real browsers are sent on into the interactive app.

use vstd::prelude::*;
use vstd::string::*;

use crate::card::dimensions;
use crate::markup::{escaped, push_escaped};
use crate::text::{
    all_ascii, ascii_lowered, chars_of, contains, contains_chars, decimal, lemma_contains_append,
    lemma_contains_run3, lowercase, occurs_at, push_decimal, to_lowercase,
};
use crate::weight::{unit_suffix, InputWeightType};

verus! {

/// The social and preview crawlers (lowercase user-agent fragments) that
/// receive the tagged HTML page.
pub open spec fn crawler_fragment(i: int) -> Seq<char> {
    if i == 0 {
        "discordbot"@
    } else if i == 1 {
        "facebookexternalhit"@
    } else if i == 2 {
        "twitterbot"@
    } else if i == 3 {
        "slackbot"@
    } else if i == 4 {
        "whatsapp"@
    } else if i == 5 {
        "telegrambot"@
    } else if i == 6 {
        "linkedinbot"@
    } else if i == 7 {
        "redditbot"@
    } else if i == 8 {
        "googlebot"@
    } else if i == 9 {
        "bingbot"@
    } else {
        "embedly"@
    }
}

fn crawler_fragment_text(i: usize) -> (r: &'static str)
    requires
        i < 11,
    ensures
        r@ == crawler_fragment(i as int),
{
    if i == 0 {
        "discordbot"
    } else if i == 1 {
        "facebookexternalhit"
    } else if i == 2 {
        "twitterbot"
    } else if i == 3 {
        "slackbot"
    } else if i == 4 {
        "whatsapp"
    } else if i == 5 {
        "telegrambot"
    } else if i == 6 {
        "linkedinbot"
    } else if i == 7 {
        "redditbot"
    } else if i == 8 {
        "googlebot"
    } else if i == 9 {
        "bingbot"
    } else {
        "embedly"
    }
}

/// A request comes from a crawler when its (lowercased) user agent contains
/// one of the crawler fragments; a request without a readable user agent is a
/// browser.
pub open spec fn is_crawler_agent(user_agent: Option<Seq<char>>) -> bool {
    match user_agent {
        Some(ua) => exists|i: int| 0 <= i < 11 && contains(lowercase(ua), #[trigger] crawler_fragment(i)),
        None => false,
    }
}

/// Whether an already lowercased user agent names a crawler.
pub fn names_crawler(lowered: &str) -> (b: bool)
    ensures
        b == exists|i: int| 0 <= i < 11 && contains(lowered@, #[trigger] crawler_fragment(i)),
{
    let cs = chars_of(lowered);
    let mut i: usize = 0;
    while i < 11
        invariant
            i <= 11,
            cs@ == lowered@,
            forall|j: int| 0 <= j < i ==> !contains(cs@, #[trigger] crawler_fragment(j)),
        decreases 11 - i,
    {
        let frag = chars_of(crawler_fragment_text(i));
        if contains_chars(&cs, &frag) {
            assert(contains(lowered@, crawler_fragment(i as int)));
            return true;
        }
        i = i + 1;
    }
    false
}

/// Whether the user agent is a social or preview crawler.
pub fn is_crawler(user_agent: Option<&str>) -> (b: bool)
    ensures
        b == is_crawler_agent(
            match user_agent {
                Some(ua) => Some(ua@),
                None => None,
            },
        ),
        match user_agent {
            Some(ua) => all_ascii(ua@) ==> (b == exists|i: int|
                0 <= i < 11 && contains(ascii_lowered(ua@), #[trigger] crawler_fragment(i))),
            None => true,
        },
{
    match user_agent {
        None => false,
        Some(ua) => {
            let lower = to_lowercase(ua);
            names_crawler(lower.as_str())
        },
    }
}

/// Absolute base URL from the forwarded scheme (default `http`) and the host.
pub fn base_url(host: &str, forwarded_proto: Option<&str>) -> (r: String)
    ensures
        r@ == match forwarded_proto {
            Some(p) => p@,
            None => "http"@,
        } + "://"@ + host@,
{
    let mut r = match forwarded_proto {
        Some(p) => String::from_str(p),
        None => String::from_str("http"),
    };
    r.append("://");
    r.append(host);
    r
}

/// The reply to a spec that is not a weight.
pub fn invalid_weight_html() -> (r: String)
    ensures
        r@ == "<h1>Invalid weight</h1><p>Try /w/225lbs or /w/100kg</p>"@,
{
    String::from_str("<h1>Invalid weight</h1><p>Try /w/225lbs or /w/100kg</p>")
}

/// Where a browser goes: the interactive app, pre-filled via the `w` query.
pub fn redirect_target(token: &str) -> (r: String)
    ensures
        r@ == "/?w="@ + token@,
{
    let mut r = String::from_str("/?w=");
    r.append(token);
    r
}

/// URL of the card image for an amount (as displayed) and unit.
pub fn card_image_url(base: &str, amount: &str, unit: &InputWeightType) -> (r: String)
    ensures
        r@ == base@ + "/api/measures/card?amt="@ + amount@ + "&unit="@ + unit_suffix(*unit),
{
    let mut r = String::from_str(base);
    r.append("/api/measures/card?amt=");
    r.append(amount);
    r.append("&unit=");
    r.append(unit.suffix());
    r
}

/// The page's own URL.
pub fn page_url(base: &str, token: &str) -> (r: String)
    ensures
        r@ == base@ + "/w/"@ + escaped(token@),
{
    let mut r = String::from_str(base);
    r.append("/w/");
    push_escaped(&mut r, token);
    r
}

/// The page title for an amount (as displayed) and unit.
pub fn weight_title(amount: &str, unit: &InputWeightType) -> (r: String)
    ensures
        r@ == "I lifted "@ + amount@ + " "@ + unit_suffix(*unit) + " — how much is that really?"@,
{
    let mut r = String::from_str("I lifted ");
    r.append(amount);
    r.append(" ");
    r.append(unit.suffix());
    r.append(" — how much is that really?");
    r
}

/// The page description, from the weight in pounds and in kilograms (as
/// displayed).
pub fn weight_description(lbs: &str, kgs: &str) -> (r: String)
    ensures
        r@ == lbs@ + " lbs / "@ + kgs@
            + " kgs — but how much is that in bananas, cats, and elephants?"@,
{
    let mut r = String::from_str(lbs);
    r.append(" lbs / ");
    r.append(kgs);
    r.append(" kgs — but how much is that in bananas, cats, and elephants?");
    r
}

pub const PAGE_HEAD: &'static str = r##"<!doctype html>
<html lang="en">
<head>
  <meta charset="utf-8"/>
  <meta name="viewport" content="width=device-width, initial-scale=1"/>
  <meta name="theme-color" content="#f472b6"/>
  <title>"##;

pub const PAGE_DESCRIPTION: &'static str = r##"</title>
  <meta name="description" content=""##;

pub const PAGE_OG_TITLE: &'static str = r##""/>
  <meta property="og:type" content="website"/>
  <meta property="og:site_name" content="howmuchdidilift"/>
  <meta property="og:title" content=""##;

pub const PAGE_OG_DESCRIPTION: &'static str = r##""/>
  <meta property="og:description" content=""##;

pub const PAGE_OG_IMAGE: &'static str = r##""/>
  <meta property="og:image" content=""##;

pub const PAGE_OG_WIDTH: &'static str = r##""/>
  <meta property="og:image:width" content=""##;

pub const PAGE_OG_HEIGHT: &'static str = r##""/>
  <meta property="og:image:height" content=""##;

pub const PAGE_OG_URL: &'static str = r##""/>
  <meta property="og:url" content=""##;

pub const PAGE_TWITTER_TITLE: &'static str = r##""/>
  <meta name="twitter:card" content="summary_large_image"/>
  <meta name="twitter:title" content=""##;

pub const PAGE_TWITTER_DESCRIPTION: &'static str = r##""/>
  <meta name="twitter:description" content=""##;

pub const PAGE_TWITTER_IMAGE: &'static str = r##""/>
  <meta name="twitter:image" content=""##;

pub const PAGE_BODY: &'static str = r##""/>
  <style>
    body { margin:0; background:#1b1f2a; color:#c3c9d6; font-family:system-ui,sans-serif;
           min-height:100vh; display:flex; flex-direction:column; align-items:center;
           justify-content:center; gap:24px; padding:24px; box-sizing:border-box; }
    img { max-width:min(92vw,480px); height:auto; border-radius:24px; }
    a.btn { background:#f472b6; color:#1b1f2a; font-weight:700; text-decoration:none;
             padding:14px 28px; border-radius:12px; }
  </style>
</head>
<body>
  <img src=""##;

pub const PAGE_ALT: &'static str = r##"" alt=""##;

pub const PAGE_LINK: &'static str = r##""/>
  <a class="btn" href=""##;

pub const PAGE_QUERY: &'static str = r##"/?w="##;

pub const PAGE_TAIL: &'static str = r##"">Convert your own lift &rarr;</a>
</body>
</html>"##;

/// The crawler page: title and description escaped, the card image with its
/// dimensions, the page URL, and a link into the app for the token.
pub open spec fn weight_page_markup(
    base: Seq<char>,
    token: Seq<char>,
    title: Seq<char>,
    description: Seq<char>,
    card_url: Seq<char>,
    page_url: Seq<char>,
) -> Seq<char> {
    let t = escaped(title);
    let d = escaped(description);
    PAGE_HEAD@ + t + PAGE_DESCRIPTION@ + d + PAGE_OG_TITLE@ + t + PAGE_OG_DESCRIPTION@ + d
        + PAGE_OG_IMAGE@ + card_url + PAGE_OG_WIDTH@ + decimal(640) + PAGE_OG_HEIGHT@ + decimal(
        640,
    ) + PAGE_OG_URL@ + page_url + PAGE_TWITTER_TITLE@ + t + PAGE_TWITTER_DESCRIPTION@ + d
        + PAGE_TWITTER_IMAGE@ + card_url + PAGE_BODY@ + card_url + PAGE_ALT@ + t + PAGE_LINK@
        + base + PAGE_QUERY@ + escaped(token) + PAGE_TAIL@
}

/// Renders the crawler page.
pub fn weight_page_html(
    base: &str,
    token: &str,
    title: &str,
    description: &str,
    card_url: &str,
    page_url: &str,
) -> (r: String)
    ensures
        r@ == weight_page_markup(base@, token@, title@, description@, card_url@, page_url@),
{
    let (cw, ch) = dimensions();
    let mut r = String::from_str(PAGE_HEAD);
    push_escaped(&mut r, title);
    r.append(PAGE_DESCRIPTION);
    push_escaped(&mut r, description);
    r.append(PAGE_OG_TITLE);
    push_escaped(&mut r, title);
    r.append(PAGE_OG_DESCRIPTION);
    push_escaped(&mut r, description);
    r.append(PAGE_OG_IMAGE);
    r.append(card_url);
    r.append(PAGE_OG_WIDTH);
    push_decimal(&mut r, cw as u64);
    r.append(PAGE_OG_HEIGHT);
    push_decimal(&mut r, ch as u64);
    r.append(PAGE_OG_URL);
    r.append(page_url);
    r.append(PAGE_TWITTER_TITLE);
    push_escaped(&mut r, title);
    r.append(PAGE_TWITTER_DESCRIPTION);
    push_escaped(&mut r, description);
    r.append(PAGE_TWITTER_IMAGE);
    r.append(card_url);
    r.append(PAGE_BODY);
    r.append(card_url);
    r.append(PAGE_ALT);
    push_escaped(&mut r, title);
    r.append(PAGE_LINK);
    r.append(base);
    r.append(PAGE_QUERY);
    push_escaped(&mut r, token);
    r.append(PAGE_TAIL);
    r
}

/// A weight ready for its permalink page: the link token, the amount and the
/// weight in both units as displayed, and the unit it was entered in.
pub struct WeightLink {
    pub token: String,
    pub amount: String,
    pub unit: InputWeightType,
    pub lbs: String,
    pub kgs: String,
}

/// How the permalink answers.
#[derive(Debug)]
pub enum WeightReply {
    /// 400 with a short HTML hint: the spec is not a weight.
    Invalid(String),
    /// A browser: redirect into the app.
    Redirect(String),
    /// A crawler: the tagged HTML page.
    Page(String),
}

/// The crawler page for a weight, served from `base`.
pub open spec fn weight_page_for(link: WeightLink, base: Seq<char>) -> Seq<char> {
    weight_page_markup(
        base,
        link.token@,
        "I lifted "@ + link.amount@ + " "@ + unit_suffix(link.unit) + " — how much is that really?"@,
        link.lbs@ + " lbs / "@ + link.kgs@
            + " kgs — but how much is that in bananas, cats, and elephants?"@,
        base + "/api/measures/card?amt="@ + link.amount@ + "&unit="@ + unit_suffix(link.unit),
        base + "/w/"@ + escaped(link.token@),
    )
}

/// The unit word a page shows for a unit.
spec fn unit_word(u: InputWeightType) -> Seq<char> {
    match u {
        InputWeightType::Lbs => "lbs"@,
        InputWeightType::Kgs => "kgs"@,
    }
}

/// The crawler page for a weight shows that weight in the unit it was
/// entered in: its title (the page title and `og:title`) reads "I lifted
/// <amount> <unit> — how much is that really?", and the card image it
/// points to (`og:image`, `twitter:image` and the image shown) is
/// `<base>/api/measures/card?amt=<amount>&unit=<unit>`, with `lbs` for
/// pounds and `kgs` for kilograms.
pub proof fn lemma_weight_page_shows_the_unit(link: WeightLink, base: Seq<char>)
    ensures
        ({
            let title = "I lifted "@ + link.amount@ + " "@ + match link.unit {
                InputWeightType::Lbs => "lbs"@,
                InputWeightType::Kgs => "kgs"@,
            } + " — how much is that really?"@;
            let card = base + "/api/measures/card?amt="@ + link.amount@ + "&unit="@ + match link.unit {
                InputWeightType::Lbs => "lbs"@,
                InputWeightType::Kgs => "kgs"@,
            };
            let page = weight_page_for(link, base);
            &&& contains(page, PAGE_HEAD@ + escaped(title) + PAGE_DESCRIPTION@)
            &&& contains(page, PAGE_OG_TITLE@ + escaped(title) + PAGE_OG_DESCRIPTION@)
            &&& contains(page, PAGE_OG_IMAGE@ + card + PAGE_OG_WIDTH@)
            &&& contains(page, PAGE_TWITTER_IMAGE@ + card + PAGE_BODY@)
            &&& contains(page, PAGE_BODY@ + card + PAGE_ALT@)
        }),
{
    reveal_strlit("lbs");
    reveal_strlit("kgs");
    assert(unit_suffix(link.unit) == unit_word(link.unit));
    let t = escaped(
        "I lifted "@ + link.amount@ + " "@ + unit_suffix(link.unit) + " — how much is that really?"@,
    );
    let d = escaped(
        link.lbs@ + " lbs / "@ + link.kgs@
            + " kgs — but how much is that in bananas, cats, and elephants?"@,
    );
    let card = base + "/api/measures/card?amt="@ + link.amount@ + "&unit="@ + unit_suffix(link.unit);
    let page = base + "/w/"@ + escaped(link.token@);
    let m0 = PAGE_HEAD@;
    let m1 = m0 + t;
    let m2 = m1 + PAGE_DESCRIPTION@;
    let m3 = m2 + d;
    let m4 = m3 + PAGE_OG_TITLE@;
    let m5 = m4 + t;
    let m6 = m5 + PAGE_OG_DESCRIPTION@;
    let m7 = m6 + d;
    let m8 = m7 + PAGE_OG_IMAGE@;
    let m9 = m8 + card;
    let m10 = m9 + PAGE_OG_WIDTH@;
    let m11 = m10 + decimal(640);
    let m12 = m11 + PAGE_OG_HEIGHT@;
    let m13 = m12 + decimal(640);
    let m14 = m13 + PAGE_OG_URL@;
    let m15 = m14 + page;
    let m16 = m15 + PAGE_TWITTER_TITLE@;
    let m17 = m16 + t;
    let m18 = m17 + PAGE_TWITTER_DESCRIPTION@;
    let m19 = m18 + d;
    let m20 = m19 + PAGE_TWITTER_IMAGE@;
    let m21 = m20 + card;
    let m22 = m21 + PAGE_BODY@;
    let m23 = m22 + card;
    let m24 = m23 + PAGE_ALT@;
    let m25 = m24 + t;
    let m26 = m25 + PAGE_LINK@;
    let m27 = m26 + base;
    let m28 = m27 + PAGE_QUERY@;
    let m29 = m28 + escaped(link.token@);
    let m30 = m29 + PAGE_TAIL@;
    assert(weight_page_for(link, base) == m30);
    // The title.
    let row0 = PAGE_HEAD@ + t + PAGE_DESCRIPTION@;
    assert(row0.subrange(0, row0.len() as int) =~= row0);
    assert(occurs_at(row0, row0, 0));
    lemma_contains_append(m2, d, row0);
    lemma_contains_append(m3, PAGE_OG_TITLE@, row0);
    lemma_contains_append(m4, t, row0);
    lemma_contains_append(m5, PAGE_OG_DESCRIPTION@, row0);
    lemma_contains_append(m6, d, row0);
    lemma_contains_append(m7, PAGE_OG_IMAGE@, row0);
    lemma_contains_append(m8, card, row0);
    lemma_contains_append(m9, PAGE_OG_WIDTH@, row0);
    lemma_contains_append(m10, decimal(640), row0);
    lemma_contains_append(m11, PAGE_OG_HEIGHT@, row0);
    lemma_contains_append(m12, decimal(640), row0);
    lemma_contains_append(m13, PAGE_OG_URL@, row0);
    lemma_contains_append(m14, page, row0);
    lemma_contains_append(m15, PAGE_TWITTER_TITLE@, row0);
    lemma_contains_append(m16, t, row0);
    lemma_contains_append(m17, PAGE_TWITTER_DESCRIPTION@, row0);
    lemma_contains_append(m18, d, row0);
    lemma_contains_append(m19, PAGE_TWITTER_IMAGE@, row0);
    lemma_contains_append(m20, card, row0);
    lemma_contains_append(m21, PAGE_BODY@, row0);
    lemma_contains_append(m22, card, row0);
    lemma_contains_append(m23, PAGE_ALT@, row0);
    lemma_contains_append(m24, t, row0);
    lemma_contains_append(m25, PAGE_LINK@, row0);
    lemma_contains_append(m26, base, row0);
    lemma_contains_append(m27, PAGE_QUERY@, row0);
    lemma_contains_append(m28, escaped(link.token@), row0);
    lemma_contains_append(m29, PAGE_TAIL@, row0);
    // The OpenGraph title.
    let row4 = PAGE_OG_TITLE@ + t + PAGE_OG_DESCRIPTION@;
    lemma_contains_run3(m3, PAGE_OG_TITLE@, t, PAGE_OG_DESCRIPTION@);
    lemma_contains_append(m6, d, row4);
    lemma_contains_append(m7, PAGE_OG_IMAGE@, row4);
    lemma_contains_append(m8, card, row4);
    lemma_contains_append(m9, PAGE_OG_WIDTH@, row4);
    lemma_contains_append(m10, decimal(640), row4);
    lemma_contains_append(m11, PAGE_OG_HEIGHT@, row4);
    lemma_contains_append(m12, decimal(640), row4);
    lemma_contains_append(m13, PAGE_OG_URL@, row4);
    lemma_contains_append(m14, page, row4);
    lemma_contains_append(m15, PAGE_TWITTER_TITLE@, row4);
    lemma_contains_append(m16, t, row4);
    lemma_contains_append(m17, PAGE_TWITTER_DESCRIPTION@, row4);
    lemma_contains_append(m18, d, row4);
    lemma_contains_append(m19, PAGE_TWITTER_IMAGE@, row4);
    lemma_contains_append(m20, card, row4);
    lemma_contains_append(m21, PAGE_BODY@, row4);
    lemma_contains_append(m22, card, row4);
    lemma_contains_append(m23, PAGE_ALT@, row4);
    lemma_contains_append(m24, t, row4);
    lemma_contains_append(m25, PAGE_LINK@, row4);
    lemma_contains_append(m26, base, row4);
    lemma_contains_append(m27, PAGE_QUERY@, row4);
    lemma_contains_append(m28, escaped(link.token@), row4);
    lemma_contains_append(m29, PAGE_TAIL@, row4);
    // The OpenGraph image.
    let row8 = PAGE_OG_IMAGE@ + card + PAGE_OG_WIDTH@;
    lemma_contains_run3(m7, PAGE_OG_IMAGE@, card, PAGE_OG_WIDTH@);
    lemma_contains_append(m10, decimal(640), row8);
    lemma_contains_append(m11, PAGE_OG_HEIGHT@, row8);
    lemma_contains_append(m12, decimal(640), row8);
    lemma_contains_append(m13, PAGE_OG_URL@, row8);
    lemma_contains_append(m14, page, row8);
    lemma_contains_append(m15, PAGE_TWITTER_TITLE@, row8);
    lemma_contains_append(m16, t, row8);
    lemma_contains_append(m17, PAGE_TWITTER_DESCRIPTION@, row8);
    lemma_contains_append(m18, d, row8);
    lemma_contains_append(m19, PAGE_TWITTER_IMAGE@, row8);
    lemma_contains_append(m20, card, row8);
    lemma_contains_append(m21, PAGE_BODY@, row8);
    lemma_contains_append(m22, card, row8);
    lemma_contains_append(m23, PAGE_ALT@, row8);
    lemma_contains_append(m24, t, row8);
    lemma_contains_append(m25, PAGE_LINK@, row8);
    lemma_contains_append(m26, base, row8);
    lemma_contains_append(m27, PAGE_QUERY@, row8);
    lemma_contains_append(m28, escaped(link.token@), row8);
    lemma_contains_append(m29, PAGE_TAIL@, row8);
    // The Twitter image.
    let row20 = PAGE_TWITTER_IMAGE@ + card + PAGE_BODY@;
    lemma_contains_run3(m19, PAGE_TWITTER_IMAGE@, card, PAGE_BODY@);
    lemma_contains_append(m22, card, row20);
    lemma_contains_append(m23, PAGE_ALT@, row20);
    lemma_contains_append(m24, t, row20);
    lemma_contains_append(m25, PAGE_LINK@, row20);
    lemma_contains_append(m26, base, row20);
    lemma_contains_append(m27, PAGE_QUERY@, row20);
    lemma_contains_append(m28, escaped(link.token@), row20);
    lemma_contains_append(m29, PAGE_TAIL@, row20);
    // The image shown on the page.
    let row22 = PAGE_BODY@ + card + PAGE_ALT@;
    lemma_contains_run3(m21, PAGE_BODY@, card, PAGE_ALT@);
    lemma_contains_append(m24, t, row22);
    lemma_contains_append(m25, PAGE_LINK@, row22);
    lemma_contains_append(m26, base, row22);
    lemma_contains_append(m27, PAGE_QUERY@, row22);
    lemma_contains_append(m28, escaped(link.token@), row22);
    lemma_contains_append(m29, PAGE_TAIL@, row22);
}

/// Answers `GET /w/:spec`: no weight gives the hint; a browser is sent into
/// the app pre-filled with the token; a crawler gets the tagged page, with
/// absolute URLs built from the forwarded scheme and the host.
pub fn weight_reply(
    link: Option<WeightLink>,
    user_agent: Option<&str>,
    host: &str,
    forwarded_proto: Option<&str>,
) -> (r: WeightReply)
    ensures
        link is None ==> (r matches WeightReply::Invalid(h) && h@
            == "<h1>Invalid weight</h1><p>Try /w/225lbs or /w/100kg</p>"@),
        link matches Some(l) ==> (!is_crawler_agent(
            match user_agent {
                Some(ua) => Some(ua@),
                None => None,
            },
        ) ==> (r matches WeightReply::Redirect(to) && to@ == "/?w="@ + l.token@)),
        link matches Some(l) ==> (is_crawler_agent(
            match user_agent {
                Some(ua) => Some(ua@),
                None => None,
            },
        ) ==> (r matches WeightReply::Page(html) && html@ == weight_page_for(
            l,
            match forwarded_proto {
                Some(p) => p@,
                None => "http"@,
            } + "://"@ + host@,
        ))),
{
    match link {
        None => WeightReply::Invalid(invalid_weight_html()),
        Some(l) => {
            if !is_crawler(user_agent) {
                return WeightReply::Redirect(redirect_target(l.token.as_str()));
            }
            let base = base_url(host, forwarded_proto);
            let card = card_image_url(base.as_str(), l.amount.as_str(), &l.unit);
            let page = page_url(base.as_str(), l.token.as_str());
            let title = weight_title(l.amount.as_str(), &l.unit);
            let description = weight_description(l.lbs.as_str(), l.kgs.as_str());
            let html = weight_page_html(
                base.as_str(),
                l.token.as_str(),
                title.as_str(),
                description.as_str(),
                card.as_str(),
                page.as_str(),
            );
            WeightReply::Page(html)
        },
    }
}

} // verus!
