//! Measures: the built-in list, lookup by id, and the result of comparing a
//! lift against one measure.

use vstd::prelude::*;
use vstd::string::*;

use crate::interface::{clone_opt, Measure};
use crate::tokens::{join_plus, join_with_plus, views};
use crate::weight::InputWeightType;

verus! {

/// A built-in measure as its definition file lists it: a plural name, grams
/// per item (as the bit pattern of a binary floating-point number), and one
/// or two emoji codepoint tokens.
#[derive(Debug)]
pub struct MeasureDef {
    pub name: String,
    pub grams_bits: u64,
    pub icon: Vec<String>,
}

/// The measures built from the definitions, in order —built-in measures take the
/// negative ids `-1, -2, …` so they never clash with stored ones; the icon
/// tokens are joined with `+`, and no tokens means no icon.
pub fn measures_from_defs(defs: &Vec<MeasureDef>) -> (r: Vec<Measure>)
    requires
        defs.len() <= i32::MAX,
    ensures
        r.len() == defs.len(),
        forall|i: int|
            0 <= i < defs.len() ==> {
                &&& #[trigger] r@[i].id == -(i + 1)
                &&& r@[i].name == defs@[i].name
                &&& r@[i].grams_bits == defs@[i].grams_bits
                &&& (defs@[i].icon@.len() == 0 ==> r@[i].icon is None)
                &&& (defs@[i].icon@.len() > 0 ==> (r@[i].icon matches Some(s) && s@ == join_plus(
                    views(defs@[i].icon@),
                )))
            },
{
    let mut r: Vec<Measure> = Vec::new();
    let mut i: usize = 0;
    while i < defs.len()
        invariant
            i <= defs.len() <= i32::MAX,
            r.len() == i,
            forall|j: int|
                0 <= j < i ==> {
                    &&& #[trigger] r@[j].id == -(j + 1)
                    &&& r@[j].name == defs@[j].name
                    &&& r@[j].grams_bits == defs@[j].grams_bits
                    &&& (defs@[j].icon@.len() == 0 ==> r@[j].icon is None)
                    &&& (defs@[j].icon@.len() > 0 ==> (r@[j].icon matches Some(s) && s@
                        == join_plus(views(defs@[j].icon@))))
                },
        decreases defs.len() - i,
    {
        let d = &defs[i];
        let id: i32 = -((i as i32) + 1);
        let icon = if d.icon.len() == 0 {
            None
        } else {
            Some(join_with_plus(&d.icon))
        };
        let ghost prev = r@;
        let m = Measure { id, name: d.name.clone(), grams_bits: d.grams_bits, icon };
        r.push(m);
        assert(r@[i as int] == m);
        assert forall|j: int| 0 <= j < i + 1 implies {
            &&& #[trigger] r@[j].id == -(j + 1)
            &&& r@[j].name == defs@[j].name
            &&& r@[j].grams_bits == defs@[j].grams_bits
            &&& (defs@[j].icon@.len() == 0 ==> r@[j].icon is None)
            &&& (defs@[j].icon@.len() > 0 ==> (r@[j].icon matches Some(s) && s@ == join_plus(
                views(defs@[j].icon@),
            )))
        } by {
            if j < i {
                assert(r@[j] == prev[j]);
            }
        }
        i = i + 1;
    }
    r
}

/// The built-in measure with id `id`: id `-k` names the `k`-th measure;
/// ids that are not negative, or past the list, name none.
pub open spec fn lookup(defaults: Seq<Measure>, id: int) -> Option<Measure> {
    if id < 0 && -id - 1 < defaults.len() {
        Some(defaults[-id - 1])
    } else {
        None
    }
}

/// Looks up a built-in measure by its (negative) id (see [`lookup`]).
pub fn by_id(defaults: &Vec<Measure>, id: i32) -> (r: Option<Measure>)
    ensures
        r == lookup(defaults@, id as int),
{
    if id >= 0 {
        return None;
    }
    let k: i64 = -(id as i64) - 1;
    if (k as u64) < (defaults.len() as u64) {
        Some(defaults[k as usize].duplicate())
    } else {
        None
    }
}

/// Every built-in measure is found again by its own id: in a list whose
/// ids are `-1, -2, …` in order (as [`measures_from_defs`] gives them), the
/// lookup of the `i`-th measure's id is that measure.
pub proof fn lemma_lookup_finds_each(defaults: Seq<Measure>, i: int)
    requires
        0 <= i < defaults.len(),
        forall|j: int| 0 <= j < defaults.len() ==> #[trigger] defaults[j].id == -(j + 1),
    ensures
        lookup(defaults, defaults[i].id as int) == Some(defaults[i]),
{
    assert(defaults[i].id == -(i + 1));
}

/// Everything needed to render a card or answer a conversion, computed once.
#[derive(Debug)]
pub struct LiftResult {
    pub count: String,
    pub units: String,
    pub icon: Option<String>,
    pub primary: String,
    pub secondary: String,
    pub permalink: String,
    pub share_text: String,
}

/// The canonical share URL for a link token.
pub open spec fn permalink_of(token: Seq<char>) -> Seq<char> {
    "howmuchdidilift.com/w/"@ + token
}

/// The two weight lines, the unit the user entered first.
pub open spec fn weight_lines(unit: InputWeightType, lbs: Seq<char>, kgs: Seq<char>) -> (
    Seq<char>,
    Seq<char>,
) {
    let lbs_line = lbs + " lbs"@;
    let kgs_line = kgs + " kgs"@;
    match unit {
        InputWeightType::Lbs => (lbs_line, kgs_line),
        InputWeightType::Kgs => (kgs_line, lbs_line),
    }
}

/// The ready-to-copy social sentence.
pub open spec fn share_sentence(
    primary: Seq<char>,
    secondary: Seq<char>,
    count: Seq<char>,
    units: Seq<char>,
    permalink: Seq<char>,
) -> Seq<char> {
    "Today's workout was "@ + primary + " ("@ + secondary + "), or "@ + count + " "@ + units
        + "!\n\n"@ + permalink
}

/// Composes a lift result against `measure`: `lbs` and `kgs` are the lifted
/// weight in each unit and `count` how many of the measure it makes, all as
/// displayed; `token` is the lift's link token.
pub fn build_lift_result(
    unit: &InputWeightType,
    lbs: &str,
    kgs: &str,
    count: &str,
    token: &str,
    measure: &Measure,
) -> (r: LiftResult)
    ensures
        r.count@ == count@,
        r.units@ == measure.name@,
        r.icon == measure.icon,
        (r.primary@, r.secondary@) == weight_lines(*unit, lbs@, kgs@),
        r.permalink@ == permalink_of(token@),
        r.share_text@ == share_sentence(
            r.primary@,
            r.secondary@,
            count@,
            measure.name@,
            permalink_of(token@),
        ),
{
    let mut lbs_line = String::from_str(lbs);
    lbs_line.append(" lbs");
    let mut kgs_line = String::from_str(kgs);
    kgs_line.append(" kgs");
    let (primary, secondary) = match unit {
        InputWeightType::Lbs => (lbs_line, kgs_line),
        InputWeightType::Kgs => (kgs_line, lbs_line),
    };
    let mut permalink = String::from_str("howmuchdidilift.com/w/");
    permalink.append(token);
    let units = measure.name.clone();
    let mut share_text = String::from_str("Today's workout was ");
    share_text.append(primary.as_str());
    share_text.append(" (");
    share_text.append(secondary.as_str());
    share_text.append("), or ");
    share_text.append(count);
    share_text.append(" ");
    share_text.append(units.as_str());
    share_text.append("!\n\n");
    share_text.append(permalink.as_str());
    LiftResult {
        count: String::from_str(count),
        units,
        icon: clone_opt(&measure.icon),
        primary,
        secondary,
        permalink,
        share_text,
    }
}

} // verus!
