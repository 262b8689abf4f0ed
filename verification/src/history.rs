//! The in-memory set of previously drawn tokens, loaded from the store.

use vstd::prelude::*;
use crate::token::{to_token, token_of};

verus! {

/// The set of tokens already drawn. Membership is what drawing checks
/// against; the representation keeps one copy of each token.
pub struct History {
    tokens: Vec<String>,
}

impl View for History {
    type V = Set<Seq<char>>;

    closed spec fn view(&self) -> Set<Seq<char>> {
        self.token_seq().to_set()
    }
}

impl History {
    /// The tokens held, in insertion order.
    pub closed spec fn token_seq(&self) -> Seq<Seq<char>> {
        self.tokens@.map_values(|t: String| t@)
    }

    /// Well-formed: no token is held twice, so the count of tokens held
    /// is the cardinality of the set.
    pub open spec fn wf(&self) -> bool {
        self.token_seq().no_duplicates()
    }

    /// An empty history.
    pub fn new() -> (h: History)
        ensures
            h.wf(),
            h@ == Set::<Seq<char>>::empty(),
    {
        let h = History { tokens: Vec::new() };
        proof {
            assert(h.token_seq() =~= Seq::<Seq<char>>::empty());
            assert(h@ =~= Set::<Seq<char>>::empty());
        }
        h
    }

    /// How many distinct tokens have been recorded.
    pub fn len(&self) -> (n: usize)
        requires
            self.wf(),
        ensures
            n == self@.len(),
    {
        proof {
            self.token_seq().unique_seq_to_set();
        }
        self.tokens.len()
    }

    /// Whether `tok` has already been recorded.
    pub fn contains_token(&self, tok: &String) -> (b: bool)
        ensures
            b == self@.contains(tok@),
    {
        let n = self.tokens.len();
        let mut i: usize = 0;
        while i < n
            invariant
                n == self.tokens.len(),
                i <= n,
                forall|j: int| 0 <= j < i ==> self.token_seq()[j] != tok@,
            decreases n - i,
        {
            if self.tokens[i] == *tok {
                assert(self.token_seq()[i as int] == tok@);
                assert(self.token_seq().contains(tok@));
                return true;
            }
            i = i + 1;
        }
        assert(!self.token_seq().contains(tok@));
        false
    }

    /// Records `tok` if it is not already held.
    pub fn insert(&mut self, tok: String)
        requires
            old(self).wf(),
        ensures
            final(self).wf(),
            final(self)@ == old(self)@.insert(tok@),
    {
        if !self.contains_token(&tok) {
            let ghost pre = self.token_seq();
            self.tokens.push(tok);
            proof {
                assert(self.token_seq() =~= pre.push(tok@));
                pre.lemma_push_to_set_commute(tok@);
                assert(self@ =~= old(self)@.insert(tok@));
            }
        } else {
            proof {
                assert(self@ =~= old(self)@.insert(tok@));
            }
        }
    }
}

/// The history covers the whole range `[min, max]`: every value in it has
/// already been drawn. Drawing from such a range is impossible.
pub open spec fn covers(s: Set<Seq<char>>, min: int, max: int) -> bool {
    forall|v: int| min <= v <= max ==> s.contains(#[trigger] token_of(v))
}

/// Whether every value in `[min, max]` has already been drawn. The guard a
/// caller checks before drawing from that range.
pub fn range_covered(history: &History, min: i8, max: i8) -> (b: bool)
    requires
        min <= max,
    ensures
        b == covers(history@, min as int, max as int),
{
    let mut v: i16 = min as i16;
    while v <= max as i16
        invariant
            min as int <= v as int <= max as int + 1,
            forall|w: int| min as int <= w < v as int ==> history@.contains(#[trigger] token_of(w)),
        decreases max as int + 1 - v as int,
    {
        let tok = to_token(v as i8);
        if !history.contains_token(&tok) {
            proof {
                assert(!history@.contains(token_of(v as int)));
            }
            return false;
        }
        v = v + 1;
    }
    true
}

} // verus!
