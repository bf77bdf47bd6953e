//! Contract-style detection by file extension and by content markers.
use vstd::prelude::*;
use crate::text::{chars_of, contains, contains_str, equals_str};

verus! {

/// The contract styles the scanner distinguishes.
#[derive(Debug, Clone, Copy, PartialEq, Eq)]
pub enum Language {
    Rust,
    Vyper,
    Soroban,
}

/// What `str::to_lowercase` returns for a string.
pub uninterp spec fn lower_of(s: Seq<char>) -> Seq<char>;

/// Relies on `str::to_lowercase`: the result depends on the characters alone.
#[verifier::external_body]
fn lowercase(s: &str) -> (r: String)
    ensures
        r@ == lower_of(s@),
{
    s.to_lowercase()
}

/// The style a lower-case file extension names.
pub open spec fn lang_of_extension(e: Seq<char>) -> Option<Language> {
    if e == "rs"@ {
        Some(Language::Rust)
    } else if e == "vy"@ {
        Some(Language::Vyper)
    } else {
        None
    }
}

/// Style markers, most specific first: the chain framework's import with
/// one of its annotations, then the domain language's version pragma or
/// interface keyword, then general-language idioms.
pub open spec fn lang_of_content(t: Seq<char>) -> Option<Language> {
    if contains(t, "soroban_sdk"@) && (contains(t, "#[contract]"@) || contains(
        t,
        "#[contractimpl]"@,
    ) || contains(t, "#[contracttype]"@)) {
        Some(Language::Soroban)
    } else if contains(t, "# @version"@) || contains(t, "interface "@) {
        Some(Language::Vyper)
    } else if contains(t, "fn main("@) || contains(t, "#[derive("@) {
        Some(Language::Rust)
    } else {
        None
    }
}

impl Language {
    /// The style a file extension names, ignoring case.
    pub fn from_extension(ext: &str) -> (r: Option<Language>)
        ensures
            r == lang_of_extension(lower_of(ext@)),
    {
        let lowered = lowercase(ext);
        Language::from_lowercase_extension(lowered.as_str())
    }

    /// The style an already lower-case extension names.
    pub fn from_lowercase_extension(ext: &str) -> (r: Option<Language>)
        ensures
            r == lang_of_extension(ext@),
    {
        let e = chars_of(ext);
        if equals_str(&e, "rs") {
            Some(Language::Rust)
        } else if equals_str(&e, "vy") {
            Some(Language::Vyper)
        } else {
            None
        }
    }

    /// The style to analyze with: an explicit tag wins, else the content's
    /// markers decide.
    pub fn resolve(tag: Option<Language>, content: &str) -> (r: Option<Language>)
        ensures
            r == (match tag {
                Some(l) => Some(l),
                None => lang_of_content(content@),
            }),
    {
        match tag {
            Some(l) => Some(l),
            None => Language::from_content(content),
        }
    }

    /// The style the content's markers point to, if any.
    pub fn from_content(content: &str) -> (r: Option<Language>)
        ensures
            r == lang_of_content(content@),
    {
        let t = chars_of(content);
        if contains_str(&t, "soroban_sdk") && (contains_str(&t, "#[contract]") || contains_str(
            &t,
            "#[contractimpl]",
        ) || contains_str(&t, "#[contracttype]")) {
            Some(Language::Soroban)
        } else if contains_str(&t, "# @version") || contains_str(&t, "interface ") {
            Some(Language::Vyper)
        } else if contains_str(&t, "fn main(") || contains_str(&t, "#[derive(") {
            Some(Language::Rust)
        } else {
            None
        }
    }
}

} // verus!
