//! The language table: maps a two-letter language code to the Snowball
//! stemming algorithm that handles it.  The set of codes is closed;
//! every other code is rejected at filter construction time.

use vstd::prelude::*;
use vstd::string::StringExecFns;

verus! {

/// `rust_stemmers::Algorithm` is a public field-less enum, so it is declared
/// transparently: verified code can construct and compare its variants.
#[verifier::external_type_specification]
pub struct ExAlgorithm(rust_stemmers::Algorithm);

/// The error a filter construction can return: the language code is not in
/// the table.  The payload is the offending code.
#[derive(Debug)]
pub enum FilterError {
    UnsupportedLanguage(String),
}

/// The authoritative table: which algorithm serves a given language code.
/// Matching is exact, case-sensitive and byte-for-byte; `du` (Dutch) and
/// `ge` (German) are kept as-is for compatibility with existing callers.
pub open spec fn algo_for(code: Seq<char>) -> Option<rust_stemmers::Algorithm> {
    if code == "en"@ {
        Some(rust_stemmers::Algorithm::English)
    } else if code == "ar"@ {
        Some(rust_stemmers::Algorithm::Arabic)
    } else if code == "da"@ {
        Some(rust_stemmers::Algorithm::Danish)
    } else if code == "du"@ {
        Some(rust_stemmers::Algorithm::Dutch)
    } else if code == "fi"@ {
        Some(rust_stemmers::Algorithm::Finnish)
    } else if code == "fr"@ {
        Some(rust_stemmers::Algorithm::French)
    } else if code == "ge"@ {
        Some(rust_stemmers::Algorithm::German)
    } else if code == "gr"@ {
        Some(rust_stemmers::Algorithm::Greek)
    } else if code == "hu"@ {
        Some(rust_stemmers::Algorithm::Hungarian)
    } else if code == "it"@ {
        Some(rust_stemmers::Algorithm::Italian)
    } else if code == "no"@ {
        Some(rust_stemmers::Algorithm::Norwegian)
    } else if code == "po"@ {
        Some(rust_stemmers::Algorithm::Portuguese)
    } else if code == "ro"@ {
        Some(rust_stemmers::Algorithm::Romanian)
    } else if code == "ru"@ {
        Some(rust_stemmers::Algorithm::Russian)
    } else if code == "sp"@ {
        Some(rust_stemmers::Algorithm::Spanish)
    } else if code == "sw"@ {
        Some(rust_stemmers::Algorithm::Swedish)
    } else if code == "ta"@ {
        Some(rust_stemmers::Algorithm::Tamil)
    } else if code == "tu"@ {
        Some(rust_stemmers::Algorithm::Turkish)
    } else {
        None
    }
}

/// A language code is supported exactly when the table maps it.
pub open spec fn supported_language(code: Seq<char>) -> bool {
    algo_for(code) is Some
}

/// Relies on `str`'s `PartialEq`: two string slices compare equal exactly
/// when their character sequences are equal.
#[verifier::external_body]
fn str_eq(a: &str, b: &str) -> (r: bool)
    ensures
        r == (a@ == b@),
{
    a == b
}

/// Look a language code up in the table.  Returns the algorithm for a
/// supported code and `UnsupportedLanguage` carrying the code otherwise.
pub fn lang_name_to_algo(name: &str) -> (r: Result<rust_stemmers::Algorithm, FilterError>)
    ensures
        match r {
            Ok(algo) => algo_for(name@) == Some(algo),
            Err(e) => !supported_language(name@) && (e matches FilterError::UnsupportedLanguage(
                code,
            ) && code@ == name@),
        },
{
    if str_eq(name, "en") {
        Ok(rust_stemmers::Algorithm::English)
    } else if str_eq(name, "ar") {
        Ok(rust_stemmers::Algorithm::Arabic)
    } else if str_eq(name, "da") {
        Ok(rust_stemmers::Algorithm::Danish)
    } else if str_eq(name, "du") {
        Ok(rust_stemmers::Algorithm::Dutch)
    } else if str_eq(name, "fi") {
        Ok(rust_stemmers::Algorithm::Finnish)
    } else if str_eq(name, "fr") {
        Ok(rust_stemmers::Algorithm::French)
    } else if str_eq(name, "ge") {
        Ok(rust_stemmers::Algorithm::German)
    } else if str_eq(name, "gr") {
        Ok(rust_stemmers::Algorithm::Greek)
    } else if str_eq(name, "hu") {
        Ok(rust_stemmers::Algorithm::Hungarian)
    } else if str_eq(name, "it") {
        Ok(rust_stemmers::Algorithm::Italian)
    } else if str_eq(name, "no") {
        Ok(rust_stemmers::Algorithm::Norwegian)
    } else if str_eq(name, "po") {
        Ok(rust_stemmers::Algorithm::Portuguese)
    } else if str_eq(name, "ro") {
        Ok(rust_stemmers::Algorithm::Romanian)
    } else if str_eq(name, "ru") {
        Ok(rust_stemmers::Algorithm::Russian)
    } else if str_eq(name, "sp") {
        Ok(rust_stemmers::Algorithm::Spanish)
    } else if str_eq(name, "sw") {
        Ok(rust_stemmers::Algorithm::Swedish)
    } else if str_eq(name, "ta") {
        Ok(rust_stemmers::Algorithm::Tamil)
    } else if str_eq(name, "tu") {
        Ok(rust_stemmers::Algorithm::Turkish)
    } else {
        Err(FilterError::UnsupportedLanguage(name.to_owned()))
    }
}

impl FilterError {
    /// A human-readable description that includes the offending code.
    pub fn message(&self) -> (r: String)
        ensures
            match self {
                FilterError::UnsupportedLanguage(code) => r@ == "stemming language not supported: "@
                    + code@,
            },
    {
        match self {
            FilterError::UnsupportedLanguage(code) => {
                let mut m = String::from_str("stemming language not supported: ");
                m.append(code.as_str());
                m
            },
        }
    }
}

} // verus!
