//! Decisions of the web client's forms: when buttons are enabled, what the
//! share buttons say, and what gets submitted or saved.

use vstd::prelude::*;
use vstd::string::*;

use crate::interface::{Measure, MeasureCreate};
use crate::text::{chars_of, lowercase, push_char, str_eq, to_lowercase, trim, trimmed};
use crate::weight::{parse_spec, parse_spec_chars, unit_name};

verus! {

/// The login form's button is disabled while busy or while a field is empty.
pub fn credentials_submit_disabled(disabled: bool, email: &str, password: &str) -> (r: bool)
    ensures
        r == (disabled || password@.len() == 0 || email@.len() == 0),
{
    disabled || password.is_empty() || email.is_empty()
}

/// The confirmation, once typed, differs from the password.
pub fn passwords_mismatch(password: &str, confirm: &str) -> (r: bool)
    ensures
        r == (confirm@.len() > 0 && password@ != confirm@),
{
    !confirm.is_empty() && !str_eq(password, confirm)
}

/// The registration form's button is disabled while busy, while a field is
/// empty, or while the passwords differ.
pub fn registration_submit_disabled(
    disabled: bool,
    name: &str,
    email: &str,
    password: &str,
    confirm: &str,
) -> (r: bool)
    ensures
        r == (disabled || password@.len() == 0 || email@.len() == 0 || confirm@.len() == 0
            || name@.len() == 0 || password@ != confirm@),
{
    disabled || password.is_empty() || email.is_empty() || confirm.is_empty() || name.is_empty()
        || !str_eq(password, confirm)
}

/// The convert button is disabled while waiting, while the amount is in
/// error, or while no amount is entered.
pub fn convert_submit_disabled(waiting: bool, has_error: bool, amount: &str) -> (r: bool)
    ensures
        r == (waiting || has_error || amount@.len() == 0),
{
    waiting || has_error || amount.is_empty()
}

/// Clicks on the title needed to toggle the hidden links.
pub const TOGGLE_CLICKS: u32 = 6;

/// A click on the title: the count goes up, and on reaching six the hidden
/// links toggle and the count starts over. Returns the new count and whether
/// the links toggle.
pub fn title_click(count: u32) -> (r: (u32, bool))
    requires
        count < TOGGLE_CLICKS,
    ensures
        count + 1 >= TOGGLE_CLICKS ==> r == (0u32, true),
        count + 1 < TOGGLE_CLICKS ==> r == ((count + 1) as u32, false),
        r.0 < TOGGLE_CLICKS,
{
    let c = count + 1;
    if c >= TOGGLE_CLICKS {
        (0, true)
    } else {
        (c, false)
    }
}

/// What the share status becomes after the share sheet answered: the answer,
/// except that a cancelled share resets it.
pub fn status_after_share(answer: &str) -> (r: Option<String>)
    ensures
        answer@ == "cancelled"@ ==> r is None,
        answer@ != "cancelled"@ ==> (r matches Some(s) && s@ == answer@),
{
    if str_eq(answer, "cancelled") {
        None
    } else {
        Some(String::from_str(answer))
    }
}

/// What the share status becomes after a copy to the clipboard: `kind` on
/// success, `fail` otherwise.
pub fn status_after_copy(ok: bool, kind: &str) -> (r: String)
    ensures
        ok ==> r@ == kind@,
        !ok ==> r@ == "fail"@,
{
    if ok {
        String::from_str(kind)
    } else {
        String::from_str("fail")
    }
}

/// The share button's label for the current status.
pub fn share_label(status: Option<&str>) -> (r: &'static str)
    ensures
        (status matches Some(s) && s@ == "shared"@) ==> r@ == "Shared! ✓"@,
        (status matches Some(s) && s@ == "fail"@) ==> r@ == "Couldn't share — try again"@,
        !(status matches Some(s) && (s@ == "shared"@ || s@ == "fail"@)) ==> r@ == "Share"@,
{
    proof {
        reveal_strlit("shared");
        reveal_strlit("fail");
        assert("shared"@.len() != "fail"@.len());
        assert("shared"@ != "fail"@);
    }
    match status {
        Some(s) => if str_eq(s, "shared") {
            "Shared! ✓"
        } else if str_eq(s, "fail") {
            "Couldn't share — try again"
        } else {
            "Share"
        },
        None => "Share",
    }
}

/// The copy-image button's label for the current status.
pub fn image_label(status: Option<&str>) -> (r: &'static str)
    ensures
        (status matches Some(s) && s@ == "img"@) ==> r@ == "Image copied ✓"@,
        !(status matches Some(s) && s@ == "img"@) ==> r@ == "Copy image"@,
{
    match status {
        Some(s) => if str_eq(s, "img") {
            "Image copied ✓"
        } else {
            "Copy image"
        },
        None => "Copy image",
    }
}

/// The copy-text button's label for the current status.
pub fn text_label(status: Option<&str>) -> (r: &'static str)
    ensures
        (status matches Some(s) && s@ == "txt"@) ==> r@ == "Text copied ✓"@,
        !(status matches Some(s) && s@ == "txt"@) ==> r@ == "Copy text"@,
{
    match status {
        Some(s) => if str_eq(s, "txt") {
            "Text copied ✓"
        } else {
            "Copy text"
        },
        None => "Copy text",
    }
}

/// `s` with every space removed.
pub open spec fn without_spaces(s: Seq<char>) -> Seq<char>
    decreases s.len(),
{
    if s.len() == 0 {
        Seq::empty()
    } else if s.last() == ' ' {
        without_spaces(s.drop_last())
    } else {
        without_spaces(s.drop_last()).push(s.last())
    }
}

/// File name for a downloaded card: `hmdil-<amount><unit>.png`, the amount
/// trimmed and without spaces, the unit lowercased.
pub fn download_name(amount: &str, unit: &str) -> (r: String)
    ensures
        r@ == "hmdil-"@ + without_spaces(trimmed(amount@)) + lowercase(unit@) + ".png"@,
{
    let mut r = String::from_str("hmdil-");
    let ghost start = r@;
    let t = trim(amount);
    let cs = chars_of(t.as_str());
    let mut i: usize = 0;
    assert(cs@.take(0) =~= Seq::<char>::empty());
    while i < cs.len()
        invariant
            i <= cs.len(),
            cs@ == trimmed(amount@),
            r@ == start + without_spaces(cs@.take(i as int)),
        decreases cs.len() - i,
    {
        assert(cs@.take(i + 1).drop_last() =~= cs@.take(i as int));
        if cs[i] != ' ' {
            push_char(&mut r, cs[i]);
        }
        assert(r@ =~= start + without_spaces(cs@.take(i + 1)));
        i = i + 1;
    }
    assert(cs@.take(cs.len() as int) =~= cs@);
    let u = to_lowercase(unit);
    r.append(u.as_str());
    r.append(".png");
    r
}

/// The icon a saved measure gets: the trimmed spec, or none when blank.
pub fn icon_value(icon: &str) -> (r: Option<String>)
    ensures
        trimmed(icon@).len() == 0 ==> r is None,
        trimmed(icon@).len() > 0 ==> (r matches Some(s) && s@ == trimmed(icon@)),
{
    let t = trim(icon);
    if t.as_str().is_empty() {
        None
    } else {
        Some(t)
    }
}

/// The measure form's button is disabled while saving, without a name, or
/// with a weight that is not a positive number.
pub fn measure_submit_disabled(waiting: bool, name: &str, grams_valid: bool) -> (r: bool)
    ensures
        r == (waiting || name@.len() == 0 || !grams_valid),
{
    waiting || name.is_empty() || !grams_valid
}

/// The measure form's button label.
pub fn measure_action_label(editing: bool) -> (r: &'static str)
    ensures
        editing ==> r@ == "Save"@,
        !editing ==> r@ == "Add measure"@,
{
    if editing {
        "Save"
    } else {
        "Add measure"
    }
}

/// The text of an optional string.
pub open spec fn opt_view(o: Option<String>) -> Option<Seq<char>> {
    match o {
        Some(s) => Some(s@),
        None => None,
    }
}

/// The icon a saved measure gets for the text of the icon field: the
/// trimmed text, or none when it is blank.
pub open spec fn saved_icon(icon: Seq<char>) -> Option<Seq<char>> {
    if trimmed(icon).len() == 0 {
        None
    } else {
        Some(trimmed(icon))
    }
}

/// What the convert page shows: the error line, whether a card is being
/// fetched, the latest card (its image as a `data:` URL and its share
/// sentence), and the share status.
#[derive(Debug, PartialEq, Eq)]
pub struct ConvertState {
    pub error: Option<String>,
    pub waiting: bool,
    pub card: Option<(String, Option<String>)>,
    pub status: Option<String>,
}

/// A convert request for an amount: when the amount does not read as a
/// number (`amount_is_number` false) the page shows "Invalid weight" and
/// fetches nothing; otherwise it starts waiting, clears the share status,
/// and the card is fetched (the flag returned).
pub fn convert_requested(state: ConvertState, amount_is_number: bool) -> (r: (ConvertState, bool))
    ensures
        !amount_is_number ==> {
            &&& !r.1
            &&& opt_view(r.0.error) == Some("Invalid weight"@)
            &&& r.0.waiting == state.waiting
            &&& r.0.card == state.card
            &&& r.0.status == state.status
        },
        amount_is_number ==> {
            &&& r.1
            &&& r.0.error == state.error
            &&& r.0.waiting
            &&& r.0.card == state.card
            &&& r.0.status is None
        },
{
    if !amount_is_number {
        let next = ConvertState {
            error: Some(String::from_str("Invalid weight")),
            waiting: state.waiting,
            card: state.card,
            status: state.status,
        };
        (next, false)
    } else {
        let next = ConvertState { error: state.error, waiting: true, card: state.card, status: None };
        (next, true)
    }
}

/// The fetch of a card answered: on success the card replaces the last one
/// and the error clears; on failure the error shows and the last card stays.
/// Either way the page stops waiting.
pub fn convert_finished(state: ConvertState, outcome: Result<(String, Option<String>), String>) -> (r:
    ConvertState)
    ensures
        !r.waiting,
        r.status == state.status,
        outcome matches Ok(card) ==> r.error is None && r.card == Some(card),
        outcome matches Err(e) ==> r.error == Some(e) && r.card == state.card,
{
    match outcome {
        Ok(card) => ConvertState { error: None, waiting: false, card: Some(card), status: state.status },
        Err(e) => ConvertState { error: Some(e), waiting: false, card: state.card, status: state.status },
    }
}

/// A deep link `/?w=225lbs` converts once: before the first conversion
/// (`did_init` false), a spec that parses gives the amount and unit name to
/// fill in and convert; otherwise nothing happens.
pub fn deep_link_request(did_init: bool, spec: Option<&str>) -> (r: Option<(String, String)>)
    ensures
        did_init ==> r is None,
        spec is None ==> r is None,
        !did_init ==> (spec matches Some(w) ==> match parse_spec_chars(w@) {
            Some((num, unit)) => r matches Some((a, u)) && a@ == num && u@ == unit_name(unit),
            None => r is None,
        }),
{
    if did_init {
        return None;
    }
    match spec {
        None => None,
        Some(w) => parse_spec(w),
    }
}

/// What saving the measure form sends: an update of the measure being
/// edited (its id kept), or a new measure. Name and weight go as entered,
/// the icon trimmed, or none when blank.
#[derive(Debug, PartialEq, Eq)]
pub enum MeasureSave {
    Update(Measure),
    Add(MeasureCreate),
}

/// The request the measure form saves with (see [`MeasureSave`]).
pub fn measure_save(editing_id: Option<i32>, name: &str, grams_bits: u64, icon: &str) -> (r:
    MeasureSave)
    ensures
        match editing_id {
            Some(id) => r matches MeasureSave::Update(m) && m.id == id && m.name@ == name@
                && m.grams_bits == grams_bits && opt_view(m.icon) == saved_icon(icon@),
            None => r matches MeasureSave::Add(m) && m.name@ == name@ && m.grams_bits
                == grams_bits && opt_view(m.icon) == saved_icon(icon@),
        },
{
    let icon_val = icon_value(icon);
    match editing_id {
        Some(id) => MeasureSave::Update(
            Measure { id, name: String::from_str(name), grams_bits, icon: icon_val },
        ),
        None => MeasureSave::Add(MeasureCreate { name: String::from_str(name), grams_bits, icon: icon_val }),
    }
}

/// The measure form's fields and state.
#[derive(Debug, PartialEq, Eq)]
pub struct MeasureFormState {
    pub name: String,
    pub grams: String,
    pub icon: String,
    pub error: Option<String>,
    pub waiting: bool,
}

/// A save answered: the form stops waiting; on success its fields and error
/// clear and the list is told (the flag returned); on failure the error
/// shows and the fields stay.
pub fn measure_saved(state: MeasureFormState, outcome: Result<(), String>) -> (r: (
    MeasureFormState,
    bool,
))
    ensures
        !r.0.waiting,
        outcome is Ok ==> {
            &&& r.1
            &&& r.0.name@.len() == 0
            &&& r.0.grams@.len() == 0
            &&& r.0.icon@.len() == 0
            &&& r.0.error is None
        },
        outcome matches Err(e) ==> {
            &&& !r.1
            &&& r.0.name == state.name
            &&& r.0.grams == state.grams
            &&& r.0.icon == state.icon
            &&& r.0.error == Some(e)
        },
{
    match outcome {
        Ok(()) => {
            let next = MeasureFormState {
                name: String::new(),
                grams: String::new(),
                icon: String::new(),
                error: None,
                waiting: false,
            };
            (next, true)
        },
        Err(e) => {
            let next = MeasureFormState {
                name: state.name,
                grams: state.grams,
                icon: state.icon,
                error: Some(e),
                waiting: false,
            };
            (next, false)
        },
    }
}

} // verus!
