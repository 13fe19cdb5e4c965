//! The stop-word set: an unordered membership set of lowercase strings with
//! O(1) average lookup, backed by `hashbrown::HashSet`.  The hash set itself
//! is opaque to the verifier; its contents are modeled by the abstract set
//! [`stop_set`], and each method the library uses is a trusted wrapper whose
//! contract states what `hashbrown`'s source shows.

use crate::stemmer::{lower_of, lowercase};
use vstd::prelude::*;

verus! {

/// The set of lowercase forms of a word list: what a filter built from that
/// list treats as stop words.  Duplicates collapse.
pub open spec fn lowered_set(words: Seq<Seq<char>>) -> Set<Seq<char>>
    decreases words.len(),
{
    if words.len() == 0 {
        Set::empty()
    } else {
        lowered_set(words.drop_last()).insert(lower_of(words.last()))
    }
}

/// A membership set of words.  [`StopWordsSet::from_words`] lowercases every
/// entry on the way in; lookups fold no case, so callers must pass an
/// already-lowercased word.
#[verifier::external_body]
pub struct StopWordsSet {
    set: hashbrown::HashSet<String>,
}

/// The words a [`StopWordsSet`] holds, as an abstract set of character
/// sequences.
pub uninterp spec fn stop_set(s: StopWordsSet) -> Set<Seq<char>>;

impl StopWordsSet {
    /// Relies on `hashbrown::HashSet::with_capacity`: a freshly created set
    /// is empty.
    #[verifier::external_body]
    pub(crate) fn with_capacity(capacity: usize) -> (s: StopWordsSet)
        ensures
            stop_set(s) == Set::<Seq<char>>::empty(),
    {
        StopWordsSet { set: hashbrown::HashSet::with_capacity(capacity) }
    }

    /// Relies on `hashbrown::HashSet::insert` with `String`'s `Eq` and
    /// `Hash`: afterwards the given word is a member and every other
    /// membership is unchanged.
    #[verifier::external_body]
    pub(crate) fn insert(&mut self, word: String)
        ensures
            stop_set(*final (self)) == stop_set(*old(self)).insert(word@),
    {
        self.set.insert(word);
    }

    /// Relies on `hashbrown::HashSet::shrink_to_fit`: it releases excess
    /// capacity and leaves the contents unchanged.
    #[verifier::external_body]
    pub(crate) fn shrink_to_fit(&mut self)
        ensures
            stop_set(*final (self)) == stop_set(*old(self)),
    {
        self.set.shrink_to_fit();
    }

    /// Relies on `hashbrown::HashSet::contains` with `String`'s `Eq` and
    /// `Hash`: true exactly when the word is a member.  No case folding
    /// happens here; callers pass an already-lowercased word.
    #[verifier::external_body]
    pub(crate) fn contains(&self, word: &str) -> (r: bool)
        ensures
            r == stop_set(*self).contains(word@),
    {
        self.set.contains(word)
    }

    /// Builds the set from a word list: the case-folded form of every entry,
    /// with capacity sized to the input and excess capacity released after
    /// the build.
    pub fn from_words(words: Vec<String>) -> (s: StopWordsSet)
        ensures
            stop_set(s) == lowered_set(words.deep_view()),
    {
        let mut set = StopWordsSet::with_capacity(words.len());
        let n = words.len();
        let mut i: usize = 0;
        while i < n
            invariant
                n == words@.len(),
                i <= n,
                stop_set(set) == lowered_set(words.deep_view().take(i as int)),
            decreases n - i,
        {
            let lower_word = lowercase(words[i].as_str());
            set.insert(lower_word);
            proof {
                let dv = words.deep_view();
                assert(dv.take(i + 1).drop_last() =~= dv.take(i as int));
                assert(dv.take(i + 1).last() == dv[i as int]);
            }
            i += 1;
        }
        proof {
            assert(words.deep_view().take(n as int) =~= words.deep_view());
        }
        set.shrink_to_fit();
        set
    }
}

} // verus!
