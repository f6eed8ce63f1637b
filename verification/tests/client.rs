use liftcalc::weight::InputWeightType;
use liftcalc::api::{AuthorizedApi, UnauthorizedApi};
use liftcalc::encoding::{decode_share_text, png_data_url, share_text_header};
use liftcalc::forms::{
    convert_submit_disabled, credentials_submit_disabled, download_name, icon_value, image_label,
    measure_action_label, measure_submit_disabled, passwords_mismatch,
    registration_submit_disabled, share_label, status_after_copy, status_after_share, text_label,
    title_click, convert_finished, convert_requested, deep_link_request, measure_save,
    measure_saved, ConvertState, MeasureFormState, MeasureSave,
};
use liftcalc::interface::{Measure, MeasureCreate, Page};

#[test]
fn api_urls() {
    let api = UnauthorizedApi::new("/api");
    assert_eq!(api.register_url(), "/api/auth/register");
    assert_eq!(api.login_url(), "/api/auth/login");
    assert_eq!(api.card_url("225", "lbs"), "/api/measures/card?amt=225&unit=lbs");
    let auth = api.logged_in("tok".to_string());
    assert_eq!(auth.url, "/api");
    let auth = AuthorizedApi::new("/api", "abc.def".to_string());
    assert_eq!(auth.auth_header_value(), "Bearer abc.def");
    assert_eq!(auth.current_user_url(), "/api/user/current");
    assert_eq!(auth.measures_url(), "/api/measures");
    assert_eq!(auth.measure_url(42), "/api/measures/42");
    assert_eq!(auth.measure_url(-3), "/api/measures/-3");
    assert_eq!(auth.measure_url(i32::MIN), "/api/measures/-2147483648");
    assert_eq!(auth.emoji_search_url("hot dog"), "/api/emoji?limit=60&q=hot%20dog");
}

#[test]
fn page_paths() {
    assert_eq!(Page::Convert.path(), "/");
    assert_eq!(Page::Login.path(), "/login");
    assert_eq!(Page::Register.path(), "/register");
    assert_eq!(Page::MeasureList.path(), "/measures");
    assert_eq!(Page::default(), Page::Convert);
}

#[test]
fn share_text_survives_the_header() {
    let text = "Today's workout was 225 lbs (102.06 kgs), or 2.25 Slices of Pizza 🍕!\n\nhowmuchdidilift.com/w/225lbs";
    let header = share_text_header(text);
    assert!(header.is_ascii());
    assert_eq!(decode_share_text(Some(&header)), Some(text.to_string()));
    assert_eq!(share_text_header("hi"), "aGk=");
    assert_eq!(decode_share_text(None), None);
    assert_eq!(decode_share_text(Some("%%%")), None);
    // Valid base64 of bytes that are not UTF-8.
    assert_eq!(decode_share_text(Some("/w==")), None);
}

#[test]
fn data_urls() {
    assert_eq!(png_data_url(&[0x89, b'P', b'N', b'G']), "data:image/png;base64,iVBORw==");
}

#[test]
fn form_buttons() {
    assert!(credentials_submit_disabled(true, "a@b", "pw"));
    assert!(credentials_submit_disabled(false, "", "pw"));
    assert!(!credentials_submit_disabled(false, "a@b", "pw"));
    assert!(passwords_mismatch("abc", "abd"));
    assert!(!passwords_mismatch("abc", ""));
    assert!(!passwords_mismatch("abc", "abc"));
    assert!(registration_submit_disabled(false, "n", "e", "p", "q"));
    assert!(!registration_submit_disabled(false, "n", "e", "p", "p"));
    assert!(registration_submit_disabled(false, "", "e", "p", "p"));
    assert!(convert_submit_disabled(false, false, ""));
    assert!(!convert_submit_disabled(false, false, "225"));
    assert!(measure_submit_disabled(false, "Rocks", false));
    assert!(!measure_submit_disabled(false, "Rocks", true));
    assert_eq!(measure_action_label(true), "Save");
    assert_eq!(measure_action_label(false), "Add measure");
}

#[test]
fn hidden_links_toggle_every_six_clicks() {
    let mut count = 0;
    let mut toggles = 0;
    for _ in 0..12 {
        let (c, t) = title_click(count);
        count = c;
        if t {
            toggles += 1;
        }
    }
    assert_eq!(toggles, 2);
    assert_eq!(count, 0);
    assert_eq!(title_click(4), (5, false));
    assert_eq!(title_click(5), (0, true));
}

#[test]
fn share_labels() {
    assert_eq!(status_after_share("cancelled"), None);
    assert_eq!(status_after_share("shared"), Some("shared".to_string()));
    assert_eq!(status_after_copy(true, "img"), "img");
    assert_eq!(status_after_copy(false, "img"), "fail");
    assert_eq!(share_label(Some("shared")), "Shared! ✓");
    assert_eq!(share_label(Some("fail")), "Couldn't share — try again");
    assert_eq!(share_label(None), "Share");
    assert_eq!(image_label(Some("img")), "Image copied ✓");
    assert_eq!(image_label(Some("txt")), "Copy image");
    assert_eq!(text_label(Some("txt")), "Text copied ✓");
    assert_eq!(text_label(None), "Copy text");
}

#[test]
fn download_names_and_icons() {
    assert_eq!(download_name(" 2 25 ", "Lbs"), "hmdil-225lbs.png");
    assert_eq!(icon_value("  1f34c "), Some("1f34c".to_string()));
    assert_eq!(icon_value("   "), None);
}

#[test]
fn unit_names_read_back() {
    assert_eq!(InputWeightType::Lbs.name(), "Lbs");
    assert_eq!(InputWeightType::Kgs.name(), "Kgs");
    assert_eq!(InputWeightType::Lbs.suffix(), "lbs");
    assert_eq!(InputWeightType::Kgs.suffix(), "kgs");
    assert_eq!(InputWeightType::from_name("Lbs"), Some(InputWeightType::Lbs));
    assert_eq!(InputWeightType::from_name("Kgs"), Some(InputWeightType::Kgs));
    assert_eq!(InputWeightType::from_name("lbs"), None);
    assert_eq!(InputWeightType::from_name("Kg"), None);
    assert_eq!(InputWeightType::from_name(""), None);
}

fn fresh_convert() -> ConvertState {
    ConvertState { error: None, waiting: false, card: None, status: Some("img".to_string()) }
}

#[test]
fn convert_rejects_an_amount_that_is_no_number() {
    let (st, fetch) = convert_requested(fresh_convert(), false);
    assert!(!fetch);
    assert_eq!(st.error.as_deref(), Some("Invalid weight"));
    assert!(!st.waiting);
    assert_eq!(st.status.as_deref(), Some("img"));
}

#[test]
fn convert_fetches_and_shows_the_card() {
    let (st, fetch) = convert_requested(fresh_convert(), true);
    assert!(fetch);
    assert!(st.waiting);
    assert_eq!(st.status, None);
    let card = ("data:image/png;base64,AA==".to_string(), Some("Today's workout".to_string()));
    let st = convert_finished(st, Ok(card.clone()));
    assert!(!st.waiting);
    assert_eq!(st.error, None);
    assert_eq!(st.card, Some(card.clone()));
    let (st, _) = convert_requested(st, true);
    let st = convert_finished(st, Err("request failed".to_string()));
    assert_eq!(st.error.as_deref(), Some("request failed"));
    assert_eq!(st.card, Some(card));
    assert!(!st.waiting);
}

#[test]
fn deep_links_convert_once() {
    assert_eq!(
        deep_link_request(false, Some("225lbs")),
        Some(("225".to_string(), "Lbs".to_string()))
    );
    assert_eq!(
        deep_link_request(false, Some(" 100 KG ")),
        Some(("100".to_string(), "Kgs".to_string()))
    );
    assert_eq!(deep_link_request(true, Some("225lbs")), None);
    assert_eq!(deep_link_request(false, None), None);
    assert_eq!(deep_link_request(false, Some("banana")), None);
}

#[test]
fn measure_form_updates_or_adds() {
    let bits = 7000.0f64.to_bits();
    assert_eq!(
        measure_save(Some(4), "Bowling Balls", bits, "  1f3b3 "),
        MeasureSave::Update(Measure {
            id: 4,
            name: "Bowling Balls".to_string(),
            grams_bits: bits,
            icon: Some("1f3b3".to_string()),
        })
    );
    assert_eq!(
        measure_save(None, "Bowling Balls", bits, "   "),
        MeasureSave::Add(MeasureCreate {
            name: "Bowling Balls".to_string(),
            grams_bits: bits,
            icon: None,
        })
    );
}

#[test]
fn measure_form_clears_after_a_save() {
    let form = || MeasureFormState {
        name: "Bowling Balls".to_string(),
        grams: "7000".to_string(),
        icon: "1f3b3".to_string(),
        error: None,
        waiting: true,
    };
    let (st, saved) = measure_saved(form(), Ok(()));
    assert!(saved);
    assert_eq!(st, MeasureFormState {
        name: String::new(),
        grams: String::new(),
        icon: String::new(),
        error: None,
        waiting: false,
    });
    let (st, saved) = measure_saved(form(), Err("conflict".to_string()));
    assert!(!saved);
    assert_eq!(st.name, "Bowling Balls");
    assert_eq!(st.grams, "7000");
    assert_eq!(st.error.as_deref(), Some("conflict"));
    assert!(!st.waiting);
}

#[test]
fn only_canonical_base64_headers_decode() {
    assert_eq!(decode_share_text(Some("QQ==")), Some("A".to_string()));
    // Trailing bits set, missing or extra padding: not the encoding of any bytes.
    assert_eq!(decode_share_text(Some("QR==")), None);
    assert_eq!(decode_share_text(Some("QQ=")), None);
    assert_eq!(decode_share_text(Some("QQ")), None);
    assert_eq!(decode_share_text(Some("QQ==QQ==")), None);
    // Valid base64 of bytes that are not UTF-8.
    assert_eq!(decode_share_text(Some("/w==")), None);
    assert_eq!(decode_share_text(Some("")), Some(String::new()));
}
