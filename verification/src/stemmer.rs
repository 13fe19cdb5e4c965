//! The stemming boundary.  Stemming is delegated entirely to the
//! `rust_stemmers` Snowball implementations; a [`Stem`] pairs one stemmer
//! instance with the language code it was built for, so that contracts can
//! speak of the (deterministic) result as a function of that code and the
//! input word.  Case folding through `str::to_lowercase` lives here too.

use crate::lang::algo_for;
use vstd::prelude::*;

verus! {

/// `rust_stemmers::Stemmer` is an opaque handle; verified code only carries
/// it through [`Stem`].
#[verifier::external_type_specification]
#[verifier::external_body]
pub struct ExStemmer(rust_stemmers::Stemmer);

/// What `str::to_lowercase` returns: the locale-independent Unicode
/// lowercase form of a character sequence.
pub uninterp spec fn lower_of(s: Seq<char>) -> Seq<char>;

/// What the Snowball algorithm for language code `lang` returns on `word`.
/// `rust_stemmers::Stemmer::stem` runs a pure function of the algorithm and
/// the word, so naming the result by `(lang, word)` is sound.
pub uninterp spec fn stem_of(lang: Seq<char>, word: Seq<char>) -> Seq<char>;

/// Relies on `str::to_lowercase`: the result depends on the characters of
/// the input alone (no locale, no context beyond the string itself).
#[verifier::external_body]
pub(crate) fn lowercase(s: &str) -> (r: String)
    ensures
        r@ == lower_of(s@),
{
    s.to_lowercase()
}

/// Relies on `rust_stemmers::Stemmer::create`: it builds the Snowball
/// stemmer instance for the given algorithm.  The handle is opaque, so
/// nothing is stated here; [`Stem::create`] records which algorithm it was
/// built for.
#[verifier::external_body]
fn stemmer_create(algo: rust_stemmers::Algorithm) -> rust_stemmers::Stemmer {
    rust_stemmers::Stemmer::create(algo)
}

/// One stemmer instance, tagged (in ghost state) with the language code
/// whose algorithm it runs.  Both fields are private and only
/// [`Stem::create`] constructs a value, with a precondition tying the
/// algorithm to the code, so the tag always matches the instance.
pub struct Stem {
    inner: rust_stemmers::Stemmer,
    code: Ghost<Seq<char>>,
}

impl Stem {
    /// The language code whose algorithm this stemmer runs.
    pub closed spec fn lang(&self) -> Seq<char> {
        self.code@
    }

    /// Build the stemmer for `code`, whose table entry is `algo`.
    pub(crate) fn create(code: &str, algo: rust_stemmers::Algorithm) -> (s: Stem)
        requires
            algo_for(code@) == Some(algo),
        ensures
            s.lang() == code@,
    {
        Stem { inner: stemmer_create(algo), code: Ghost(code@) }
    }

    /// Relies on `rust_stemmers::Stemmer::stem`: it runs the algorithm this
    /// stemmer was created with, a pure function of algorithm and word, and
    /// the result is returned verbatim.
    #[verifier::external_body]
    pub(crate) fn stem(&self, word: &str) -> (r: String)
        ensures
            r@ == stem_of(self.lang(), word@),
    {
        self.inner.stem(word).to_string()
    }
}

} // verus!
