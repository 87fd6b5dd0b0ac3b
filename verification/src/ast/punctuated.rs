//! Punctuated sequences: ordered items interleaved with their separator
//! tokens, the one representation of every comma- or semicolon-delimited
//! list in the tree, so that separators survive reconstruction.

use vstd::prelude::*;

use crate::tokenizer::TokenReference;

verus! {

/// One entry of a punctuated sequence: an item, with or without the
/// separator token that follows it.
#[derive(Clone, Debug, PartialEq)]
pub enum Pair<T> {
    /// An item with no separator after it; only the last entry may be one.
    End(T),
    /// An item followed by its separator token.
    Punctuated(T, TokenReference),
}

impl<T> Pair<T> {
    /// Builds an entry from an item and an optional separator.
    pub fn new(item: T, punctuation: Option<TokenReference>) -> (r: Self)
        ensures
            match punctuation {
                Some(p) => r == Pair::Punctuated(item, p),
                None => r == Pair::<T>::End(item),
            },
    {
        match punctuation {
            Some(p) => Pair::Punctuated(item, p),
            None => Pair::End(item),
        }
    }

    /// The item of the entry.
    pub fn value(&self) -> (r: &T)
        ensures
            r == spec_pair_value(*self),
    {
        match self {
            Pair::End(item) => item,
            Pair::Punctuated(item, _) => item,
        }
    }

    /// The separator of the entry, if it has one.
    pub fn punctuation(&self) -> (r: Option<&TokenReference>)
        ensures
            match r {
                Some(p) => *self matches Pair::Punctuated(_, q) && p == q,
                None => *self matches Pair::End(_),
            },
    {
        match self {
            Pair::End(_) => None,
            Pair::Punctuated(_, p) => Some(p),
        }
    }
}

/// The item of an entry.
pub open spec fn spec_pair_value<T>(p: Pair<T>) -> T {
    match p {
        Pair::End(item) => item,
        Pair::Punctuated(item, _) => item,
    }
}

/// Whether an entry carries a separator.
pub open spec fn pair_has_separator<T>(p: Pair<T>) -> bool {
    p is Punctuated
}

/// How many of the entries carry a separator.
pub open spec fn separator_count<T>(s: Seq<Pair<T>>) -> int
    decreases s.len(),
{
    if s.len() == 0 {
        0
    } else {
        (if pair_has_separator(s[0]) {
            1int
        } else {
            0int
        }) + separator_count(s.drop_first())
    }
}

/// The structural invariant of a punctuated sequence: every entry except
/// possibly the last carries a separator.
pub open spec fn pairs_wf<T>(s: Seq<Pair<T>>) -> bool {
    forall|i: int| 0 <= i < s.len() - 1 ==> pair_has_separator(#[trigger] s[i])
}

/// An ordered sequence of items with their separator tokens.
#[derive(Clone, Debug, PartialEq)]
pub struct Punctuated<T> {
    pub pairs: Vec<Pair<T>>,
}

impl<T> Punctuated<T> {
    /// The structural invariant: every entry except possibly the last
    /// carries a separator.
    pub open spec fn wf(&self) -> bool {
        pairs_wf(self.pairs@)
    }

    /// An empty sequence.
    pub fn new() -> (r: Self)
        ensures
            r.pairs@.len() == 0,
            r.wf(),
    {
        Punctuated { pairs: Vec::new() }
    }

    /// How many items the sequence holds.
    pub fn len(&self) -> (r: usize)
        ensures
            r == self.pairs@.len(),
    {
        self.pairs.len()
    }

    /// Whether the sequence holds no item.
    pub fn is_empty(&self) -> (r: bool)
        ensures
            r == (self.pairs@.len() == 0),
    {
        self.pairs.is_empty()
    }

    /// The entries themselves.
    pub fn pairs(&self) -> (r: &Vec<Pair<T>>)
        ensures
            r == self.pairs,
    {
        &self.pairs
    }

    /// The entry at `i`.
    pub fn pair(&self, i: usize) -> (r: &Pair<T>)
        requires
            i < self.pairs@.len(),
        ensures
            r == self.pairs@[i as int],
    {
        &self.pairs[i]
    }

    /// Appends an entry.  To keep the invariant, the entry before it (if
    /// any) must carry a separator.
    pub fn push(&mut self, pair: Pair<T>)
        requires
            old(self).wf(),
            old(self).pairs@.len() > 0 ==> pair_has_separator(
                old(self).pairs@[old(self).pairs@.len() - 1],
            ),
        ensures
            final(self).pairs@ == old(self).pairs@.push(pair),
            final(self).wf(),
    {
        self.pairs.push(pair);
    }

    /// The items in order, the separators passed over.
    pub fn items(&self) -> (r: Vec<&T>)
        ensures
            r@.len() == self.pairs@.len(),
            forall|i: int|
                0 <= i < r@.len() ==> r@[i] == spec_pair_value(#[trigger] self.pairs@[i]),
    {
        let mut v: Vec<&T> = Vec::new();
        let mut i: usize = 0;
        while i < self.pairs.len()
            invariant
                i <= self.pairs@.len(),
                v@.len() == i,
                forall|k: int|
                    0 <= k < i ==> v@[k] == spec_pair_value(#[trigger] self.pairs@[k]),
            decreases self.pairs@.len() - i,
        {
            v.push(self.pairs[i].value());
            i = i + 1;
        }
        v
    }
}

/// The separator invariant: a well-formed punctuated sequence of `n > 0`
/// items carries either `n - 1` separators (no trailing separator) or `n`
/// (trailing separator present).
pub proof fn lemma_punctuated_separators<T>(s: Seq<Pair<T>>)
    requires
        pairs_wf(s),
        s.len() > 0,
    ensures
        separator_count(s) == s.len() - 1 || separator_count(s) == s.len(),
    decreases s.len(),
{
    lemma_separator_count_bounds(s);
    if s.len() == 1 {
    } else {
        assert(pair_has_separator(s[0]));
        assert(pairs_wf(s.drop_first())) by {
            assert(forall|i: int|
                0 <= i < s.drop_first().len() - 1 ==> #[trigger] s.drop_first()[i] == s[i + 1]
                    && pair_has_separator(s[i + 1]));
        }
        lemma_punctuated_separators(s.drop_first());
    }
}

/// A sequence never carries more separators than entries, nor a negative
/// count.
pub proof fn lemma_separator_count_bounds<T>(s: Seq<Pair<T>>)
    ensures
        0 <= separator_count(s) <= s.len(),
    decreases s.len(),
{
    if s.len() > 0 {
        lemma_separator_count_bounds(s.drop_first());
    }
}

} // verus!
