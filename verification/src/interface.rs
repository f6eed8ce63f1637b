//! Types exchanged between the web client and the server.

use vstd::prelude::*;

use crate::weight::InputWeightType;

verus! {

#[derive(Debug, PartialEq, Eq)]
pub struct LoginParams {
    pub email: String,
    pub password: String,
}

#[derive(Debug, PartialEq, Eq)]
pub struct LoginResponse {
    pub token: String,
    pub pid: String,
    pub name: String,
    pub is_verified: bool,
}

#[derive(Debug, PartialEq, Eq)]
pub struct CurrentResponse {
    pub pid: String,
    pub name: String,
    pub email: String,
}

#[derive(Debug, PartialEq, Eq)]
pub struct RegisterParams {
    pub email: String,
    pub password: String,
    pub password_confirm: String,
    pub name: String,
}

#[derive(Debug, PartialEq, Eq)]
pub struct VerifyParams {
    pub token: String,
}

#[derive(Debug, PartialEq, Eq)]
pub struct ForgotParams {
    pub email: String,
}

#[derive(Debug, PartialEq, Eq)]
pub struct ResetParams {
    pub token: String,
    pub password: String,
}

/// One searchable emoji.
#[derive(Debug, PartialEq, Eq)]
pub struct EmojiEntry {
    /// Codepoint token used in a measure's icon (e.g. `1f34c`, `1f1e9_1f1ea`).
    pub codepoint: String,
    /// Native glyph, for display in the picker.
    pub glyph: String,
    /// Human-readable name, searched against.
    pub name: String,
}

impl EmojiEntry {
    /// A copy of the entry.
    pub fn duplicate(&self) -> (r: EmojiEntry)
        ensures
            r == *self,
    {
        EmojiEntry {
            codepoint: self.codepoint.clone(),
            glyph: self.glyph.clone(),
            name: self.name.clone(),
        }
    }
}

/// A measure to be created. The weight in grams is kept as the bit pattern of
/// the binary floating-point number the client sent (`f64::to_bits`).
#[derive(Debug, PartialEq, Eq)]
pub struct MeasureCreate {
    pub name: String,
    pub grams_bits: u64,
    pub icon: Option<String>,
}

/// A comparison unit: its name (plural), its weight in grams (as the bit
/// pattern of a binary floating-point number, `f64::to_bits`), and an
/// optional icon spec of `+`-joined emoji codepoint tokens.
#[derive(Debug, PartialEq, Eq, Default)]
pub struct Measure {
    pub id: i32,
    pub name: String,
    pub grams_bits: u64,
    pub icon: Option<String>,
}

/// A copy of an optional string.
pub fn clone_opt(s: &Option<String>) -> (r: Option<String>)
    ensures
        r == *s,
{
    match s {
        Some(x) => Some(x.clone()),
        None => None,
    }
}

impl Measure {
    /// A copy of the measure.
    pub fn duplicate(&self) -> (r: Measure)
        ensures
            r == *self,
    {
        Measure {
            id: self.id,
            name: self.name.clone(),
            grams_bits: self.grams_bits,
            icon: clone_opt(&self.icon),
        }
    }
}

/// A request to compare a lift against a random measure. The amount is kept
/// as the bit pattern of a binary floating-point number (`f64::to_bits`).
#[derive(Debug, PartialEq, Eq)]
pub struct RandomWeightRequest {
    pub input_amt_bits: u64,
    pub input_type: InputWeightType,
}

/// The pages of the web client.
#[derive(Debug, Clone, Copy, PartialEq, Eq)]
pub enum Page {
    Convert,
    Login,
    Register,
    MeasureList,
}

/// The route of a page.
pub open spec fn page_path(p: Page) -> Seq<char> {
    match p {
        Page::Convert => seq!['/'],
        Page::Login => seq!['/', 'l', 'o', 'g', 'i', 'n'],
        Page::Register => seq!['/', 'r', 'e', 'g', 'i', 's', 't', 'e', 'r'],
        Page::MeasureList => seq!['/', 'm', 'e', 'a', 's', 'u', 'r', 'e', 's'],
    }
}

impl Default for Page {
    /// The page shown when none is named.
    fn default() -> (p: Page)
        ensures
            p == Page::Convert,
    {
        Page::Convert
    }
}

impl Page {
    /// The route the page is served at.
    pub fn path(&self) -> (r: &'static str)
        ensures
            r@ == page_path(*self),
    {
        proof {
            reveal_strlit("/");
            reveal_strlit("/login");
            reveal_strlit("/register");
            reveal_strlit("/measures");
        }
        match self {
            Page::Convert => "/",
            Page::Login => "/login",
            Page::Register => "/register",
            Page::MeasureList => "/measures",
        }
    }
}

} // verus!
