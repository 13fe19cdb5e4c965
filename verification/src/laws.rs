//! Laws of the transformation pipeline, stated over the same spec functions
//! that the operations' contracts use and proved for all inputs.

use crate::filter::{kept, kept_stemmed, lowered, stem_all};
use crate::stopwords::lowered_set;
use crate::stemmer::lower_of;
use vstd::prelude::*;

verus! {

/// Length invariants: stemming keeps the token count, and stop-word
/// removal, with or without stemming, never grows it.
pub proof fn lemma_lengths(lang: Seq<char>, stops: Set<Seq<char>>, words: Seq<Seq<char>>)
    ensures
        stem_all(lang, words).len() == words.len(),
        kept(stops, words).len() <= words.len(),
        kept_stemmed(lang, stops, words).len() <= words.len(),
{
    broadcast use vstd::seq_lib::group_filter_ensures;

    assert(lowered(words).len() == words.len());
}

/// Empty input gives empty output for each of the three operations.
pub proof fn lemma_empty_input(lang: Seq<char>, stops: Set<Seq<char>>)
    ensures
        stem_all(lang, Seq::empty()) == Seq::<Seq<char>>::empty(),
        kept(stops, Seq::empty()) == Seq::<Seq<char>>::empty(),
        kept_stemmed(lang, stops, Seq::empty()) == Seq::<Seq<char>>::empty(),
{
    reveal(Seq::filter);
    assert(lowered(Seq::empty()) =~= Seq::<Seq<char>>::empty());
    assert(stem_all(lang, Seq::empty()) =~= Seq::<Seq<char>>::empty());
    assert(kept(stops, Seq::empty()) =~= Seq::<Seq<char>>::empty());
    assert(kept_stemmed(lang, stops, Seq::empty()) =~= Seq::<Seq<char>>::empty());
}

/// Stop words are removed before stemming: a token whose lowercase form is
/// a stop word produces no output from the combined operation, whatever the
/// stemmer would return for that token.
pub proof fn lemma_stop_before_stem(lang: Seq<char>, stops: Set<Seq<char>>, t: Seq<char>)
    requires
        stops.contains(lower_of(t)),
    ensures
        kept_stemmed(lang, stops, seq![t]) == Seq::<Seq<char>>::empty(),
{
    reveal_with_fuel(Seq::filter, 2);
    assert(lowered(seq![t]) =~= seq![lower_of(t)]);
    assert(seq![lower_of(t)].drop_last() =~= Seq::<Seq<char>>::empty());
    assert(kept(stops, seq![t]) =~= Seq::<Seq<char>>::empty());
    assert(kept_stemmed(lang, stops, seq![t]) =~= Seq::<Seq<char>>::empty());
}

/// Stop-word matching is insensitive to the case of both the token and the
/// stop-word list: a single token survives removal exactly when its
/// lowercase form is outside the lowercased list.
pub proof fn lemma_stopword_case(stop_src: Seq<Seq<char>>, t: Seq<char>)
    ensures
        kept(lowered_set(stop_src), seq![t]).len() == 0 <==> lowered_set(stop_src).contains(
            lower_of(t),
        ),
{
    reveal_with_fuel(Seq::filter, 2);
    let stops = lowered_set(stop_src);
    assert(lowered(seq![t]) =~= seq![lower_of(t)]);
    assert(seq![lower_of(t)].drop_last() =~= Seq::<Seq<char>>::empty());
    if stops.contains(lower_of(t)) {
        assert(kept(stops, seq![t]) =~= Seq::<Seq<char>>::empty());
    } else {
        assert(kept(stops, seq![t]) =~= seq![lower_of(t)]);
    }
}

/// The stop-word set built from a list holds exactly the lowercase forms of
/// the list's entries.
pub proof fn lemma_lowered_set_members(words: Seq<Seq<char>>, w: Seq<char>)
    ensures
        lowered_set(words).contains(w) <==> exists|i: int|
            0 <= i < words.len() && lower_of(#[trigger] words[i]) == w,
    decreases words.len(),
{
    if words.len() == 0 {
    } else {
        let prefix = words.drop_last();
        lemma_lowered_set_members(prefix, w);
        if lowered_set(words).contains(w) {
            if w == lower_of(words.last()) {
                assert(lower_of(words[words.len() - 1]) == w);
            } else {
                let i = choose|i: int| 0 <= i < prefix.len() && lower_of(#[trigger] prefix[i]) == w;
                assert(lower_of(words[i]) == w);
            }
        }
        if exists|i: int| 0 <= i < words.len() && lower_of(#[trigger] words[i]) == w {
            let i = choose|i: int| 0 <= i < words.len() && lower_of(#[trigger] words[i]) == w;
            if i < words.len() - 1 {
                assert(lower_of(prefix[i]) == w);
            }
        }
    }
}

/// `out` lists, in order, the lowercase forms of the input tokens found at
/// a strictly increasing sequence of input positions `picks`.
pub open spec fn selects_in_order(
    out: Seq<Seq<char>>,
    words: Seq<Seq<char>>,
    picks: Seq<int>,
) -> bool {
    &&& picks.len() == out.len()
    &&& (forall|k: int| 0 <= k < picks.len() ==> 0 <= #[trigger] picks[k] < words.len())
    &&& (forall|k: int| 0 <= k < picks.len() ==> out[k] == lower_of(words[#[trigger] picks[k]]))
    &&& (forall|k: int| 0 < k < picks.len() ==> picks[k - 1] < #[trigger] picks[k])
}

/// Order preservation: the tokens surviving stop-word removal appear in the
/// same relative order as in the input.
pub proof fn lemma_order_preserved(stops: Set<Seq<char>>, words: Seq<Seq<char>>)
    ensures
        exists|picks: Seq<int>| selects_in_order(kept(stops, words), words, picks),
    decreases words.len(),
{
    reveal(Seq::filter);
    if words.len() == 0 {
        assert(lowered(words) =~= Seq::<Seq<char>>::empty());
        assert(kept(stops, words) =~= Seq::<Seq<char>>::empty());
        assert(selects_in_order(kept(stops, words), words, Seq::<int>::empty()));
    } else {
        let prefix = words.drop_last();
        lemma_order_preserved(stops, prefix);
        let picks0 = choose|p: Seq<int>| selects_in_order(kept(stops, prefix), prefix, p);
        let lw = lower_of(words.last());
        assert(lowered(words).drop_last() =~= lowered(prefix));
        assert(lowered(words).last() == lw);
        if stops.contains(lw) {
            assert(kept(stops, words) == kept(stops, prefix));
            assert(selects_in_order(kept(stops, words), words, picks0));
        } else {
            let picks = picks0.push(words.len() - 1);
            assert(kept(stops, words) == kept(stops, prefix).push(lw));
            assert(selects_in_order(kept(stops, words), words, picks));
        }
    }
}

} // verus!
