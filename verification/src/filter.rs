//! The filter resource and its three transformation operations.
//!
//! A [`Filter`] owns one stemmer and one stop-word set, both frozen after
//! construction.  Each operation lowercases every token exactly once, then
//! (depending on the operation) drops tokens whose lowercase form is a stop
//! word and stems the survivors.  Stop-word removal always happens before
//! stemming, and the stop-word set is matched against the lowercased input,
//! never the stemmed form.

use crate::lang::{lang_name_to_algo, supported_language, FilterError};
use crate::stemmer::{lower_of, lowercase, stem_of, Stem};
use crate::stopwords::{lowered_set, stop_set, StopWordsSet};
use vstd::prelude::*;

verus! {

/// The lowercase forms of a token sequence, in input order.
pub open spec fn lowered(words: Seq<Seq<char>>) -> Seq<Seq<char>> {
    words.map_values(|w: Seq<char>| lower_of(w))
}

/// What `filter_stem` returns: every token lowercased and then stemmed for
/// language `lang`.
pub open spec fn stem_all(lang: Seq<char>, words: Seq<Seq<char>>) -> Seq<Seq<char>> {
    lowered(words).map_values(|w: Seq<char>| stem_of(lang, w))
}

/// What `filter_remove_stopwords` returns: the lowercase forms that are not
/// in `stops`, keeping their input order.
pub open spec fn kept(stops: Set<Seq<char>>, words: Seq<Seq<char>>) -> Seq<Seq<char>> {
    lowered(words).filter(|w: Seq<char>| !stops.contains(w))
}

/// What `filter_remove_stopwords_and_stem` returns: the surviving lowercase
/// forms, each stemmed for language `lang`.  Membership is decided on the
/// lowercase form, before and regardless of stemming.
pub open spec fn kept_stemmed(lang: Seq<char>, stops: Set<Seq<char>>, words: Seq<Seq<char>>) -> Seq<
    Seq<char>,
> {
    kept(stops, words).map_values(|w: Seq<char>| stem_of(lang, w))
}

/// The filter resource: one stemmer and one stop-word set, frozen after
/// construction and freely shareable for concurrent reads.
pub struct Filter {
    stemmer: Stem,
    stopwords: StopWordsSet,
}

impl Filter {
    /// The language code this filter stems for.
    pub closed spec fn lang(&self) -> Seq<char> {
        self.stemmer.lang()
    }

    /// The stop words this filter removes (already lowercased).
    pub closed spec fn stops(&self) -> Set<Seq<char>> {
        stop_set(self.stopwords)
    }
}

/// Extending a token sequence by one token appends its lowercase form.
proof fn lemma_lowered_take_step(words: Seq<Seq<char>>, i: int)
    requires
        0 <= i < words.len(),
    ensures
        lowered(words.take(i + 1)) == lowered(words.take(i)).push(lower_of(words[i])),
{
    assert(lowered(words.take(i + 1)) =~= lowered(words.take(i)).push(lower_of(words[i])));
}

/// One unfolding of `kept`: the last token either survives (appended
/// lowercased) or is dropped.
proof fn lemma_kept_step(stops: Set<Seq<char>>, words: Seq<Seq<char>>, i: int)
    requires
        0 <= i < words.len(),
    ensures
        kept(stops, words.take(i + 1)) == if stops.contains(lower_of(words[i])) {
            kept(stops, words.take(i))
        } else {
            kept(stops, words.take(i)).push(lower_of(words[i]))
        },
{
    reveal(Seq::filter);
    lemma_lowered_take_step(words, i);
    let prev = lowered(words.take(i));
    let cur = lowered(words.take(i + 1));
    assert(cur.drop_last() =~= prev);
    assert(cur.last() == lower_of(words[i]));
}

/// Construct a filter for language `name` with the given stop-word list.
/// Succeeds exactly when `name` is one of the 18 supported codes; the
/// resulting filter stems for that language and treats the lowercase form
/// of every listed word as a stop word.  Any list is accepted, including an
/// empty one and one with duplicates or mixed case.
pub fn new_filter(name: &str, stopwords: Vec<String>) -> (r: Result<Filter, FilterError>)
    ensures
        match r {
            Ok(f) => supported_language(name@) && f.lang() == name@ && f.stops() == lowered_set(
                stopwords.deep_view(),
            ),
            Err(e) => !supported_language(name@) && (e matches FilterError::UnsupportedLanguage(
                code,
            ) && code@ == name@),
        },
{
    let algo = match lang_name_to_algo(name) {
        Ok(algo) => algo,
        Err(e) => {
            return Err(e);
        },
    };
    let stemmer = Stem::create(name, algo);
    let set = StopWordsSet::from_words(stopwords);
    Ok(Filter { stemmer, stopwords: set })
}

/// Lowercase every token and stem it.  Returns one output token per input
/// token, in order.
pub fn filter_stem(filt: &Filter, words: Vec<String>) -> (r: Vec<String>)
    ensures
        r.deep_view() == stem_all(filt.lang(), words.deep_view()),
        r@.len() == words@.len(),
{
    let mut out: Vec<String> = Vec::new();
    let n = words.len();
    let mut i: usize = 0;
    while i < n
        invariant
            n == words@.len(),
            i <= n,
            out@.len() == i,
            out.deep_view() == stem_all(filt.lang(), words.deep_view().take(i as int)),
        decreases n - i,
    {
        let lower_word = lowercase(words[i].as_str());
        let stemmed = filt.stemmer.stem(lower_word.as_str());
        out.push(stemmed);
        proof {
            let dv = words.deep_view();
            let lang = filt.lang();
            assert(dv[i as int] == words@[i as int]@);
            lemma_lowered_take_step(dv, i as int);
            assert(stem_all(lang, dv.take(i + 1)) =~= stem_all(lang, dv.take(i as int)).push(
                stem_of(lang, lower_of(dv[i as int])),
            ));
            assert(out.deep_view() =~= stem_all(lang, dv.take(i as int)).push(
                stem_of(lang, lower_of(dv[i as int])),
            ));
        }
        i += 1;
    }
    proof {
        assert(words.deep_view().take(n as int) =~= words.deep_view());
    }
    out
}

/// Lowercase every token and drop the ones whose lowercase form is a stop
/// word; survivors keep their input order.
pub fn filter_remove_stopwords(filt: &Filter, words: Vec<String>) -> (r: Vec<String>)
    ensures
        r.deep_view() == kept(filt.stops(), words.deep_view()),
        r@.len() <= words@.len(),
{
    broadcast use vstd::seq_lib::group_filter_ensures;

    let mut out: Vec<String> = Vec::new();
    let n = words.len();
    let mut i: usize = 0;
    while i < n
        invariant
            n == words@.len(),
            i <= n,
            out@.len() <= i,
            out.deep_view() == kept(filt.stops(), words.deep_view().take(i as int)),
        decreases n - i,
    {
        let lower_word = lowercase(words[i].as_str());
        proof {
            lemma_kept_step(filt.stops(), words.deep_view(), i as int);
        }
        if !filt.stopwords.contains(lower_word.as_str()) {
            out.push(lower_word);
            proof {
                let dv = words.deep_view();
                assert(out.deep_view() =~= kept(filt.stops(), dv.take(i + 1)));
            }
        }
        i += 1;
    }
    proof {
        assert(words.deep_view().take(n as int) =~= words.deep_view());
    }
    out
}

/// Lowercase every token, drop the stop words, and stem the survivors, in
/// input order.  A token is stemmed only if its lowercase form is not a
/// stop word; membership is never tested on the stemmed form.
pub fn filter_remove_stopwords_and_stem(filt: &Filter, words: Vec<String>) -> (r: Vec<String>)
    ensures
        r.deep_view() == kept_stemmed(filt.lang(), filt.stops(), words.deep_view()),
        r@.len() <= words@.len(),
{
    broadcast use vstd::seq_lib::group_filter_ensures;

    let mut out: Vec<String> = Vec::new();
    let n = words.len();
    let mut i: usize = 0;
    while i < n
        invariant
            n == words@.len(),
            i <= n,
            out@.len() <= i,
            out.deep_view() == kept_stemmed(
                filt.lang(),
                filt.stops(),
                words.deep_view().take(i as int),
            ),
        decreases n - i,
    {
        let lower_word = lowercase(words[i].as_str());
        proof {
            lemma_kept_step(filt.stops(), words.deep_view(), i as int);
        }
        if !filt.stopwords.contains(lower_word.as_str()) {
            let stemmed = filt.stemmer.stem(lower_word.as_str());
            out.push(stemmed);
            proof {
                let dv = words.deep_view();
                let lang = filt.lang();
                let stops = filt.stops();
                assert(dv[i as int] == words@[i as int]@);
                assert(kept_stemmed(lang, stops, dv.take(i + 1)) =~= kept_stemmed(
                    lang,
                    stops,
                    dv.take(i as int),
                ).push(stem_of(lang, lower_of(dv[i as int]))));
                assert(out.deep_view() =~= kept_stemmed(lang, stops, dv.take(i as int)).push(
                    stem_of(lang, lower_of(dv[i as int])),
                ));
            }
        } else {
            proof {
                let dv = words.deep_view();
                assert(out.deep_view() =~= kept_stemmed(filt.lang(), filt.stops(), dv.take(i + 1)));
            }
        }
        i += 1;
    }
    proof {
        assert(words.deep_view().take(n as int) =~= words.deep_view());
    }
    out
}

} // verus!
