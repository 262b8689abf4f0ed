//! The persisted store of past draws, modeled as the lines it holds.
//!
//! The durable file itself is read and written outside the library; here the
//! store is its content: one raw line per past append. All logic on that
//! content — trimming, deduplication, counting, appending — is verified
//! against [`history_set`], the set of distinct non-empty trimmed lines.

use vstd::prelude::*;
use crate::history::History;
use crate::token::{trim_line, trimmed};

verus! {

/// The content of the persisted store: one entry per raw line. A store whose
/// file does not exist yet is the empty content, a normal initial state.
pub struct Store {
    lines: Vec<String>,
}

impl View for Store {
    type V = Seq<Seq<char>>;

    closed spec fn view(&self) -> Seq<Seq<char>> {
        line_views(self.lines@)
    }
}

/// The views of a sequence of lines.
pub open spec fn line_views(lines: Seq<String>) -> Seq<Seq<char>> {
    lines.map_values(|l: String| l@)
}

/// Each line trimmed.
pub open spec fn trimmed_views(lines: Seq<Seq<char>>) -> Seq<Seq<char>> {
    lines.map_values(|l: Seq<char>| trimmed(l))
}

/// The history a store's lines denote: the set of distinct non-empty
/// trimmed lines. This de-duplicated set is the canonical definition used
/// both for membership and for the quota count.
pub open spec fn history_set(lines: Seq<Seq<char>>) -> Set<Seq<char>> {
    trimmed_views(lines).to_set().remove(Seq::<char>::empty())
}

impl Store {
    /// The store of a file that does not exist yet: empty content.
    pub fn missing() -> (s: Store)
        ensures
            s@ == Seq::<Seq<char>>::empty(),
    {
        let s = Store { lines: Vec::new() };
        proof {
            assert(s@ =~= Seq::<Seq<char>>::empty());
        }
        s
    }

    /// A store holding the given raw lines.
    pub fn from_lines(lines: Vec<String>) -> (s: Store)
        ensures
            s@ == line_views(lines@),
    {
        Store { lines }
    }

    /// How many raw lines the store holds.
    pub fn line_count(&self) -> (n: usize)
        ensures
            n == self@.len(),
    {
        self.lines.len()
    }
}

/// A token's membership in the history of a store: it is there exactly when
/// it is non-empty and some line trims to it.
pub proof fn lemma_history_set_contains(lines: Seq<Seq<char>>, t: Seq<char>)
    ensures
        history_set(lines).contains(t) <==> (t.len() > 0 && exists|i: int|
            0 <= i < lines.len() && trimmed(#[trigger] lines[i]) == t),
{
    if t.len() == 0 {
        assert(t =~= Seq::<char>::empty());
    }
    if exists|i: int| 0 <= i < lines.len() && trimmed(#[trigger] lines[i]) == t {
        let i = choose|i: int| 0 <= i < lines.len() && trimmed(#[trigger] lines[i]) == t;
        assert(trimmed_views(lines)[i] == t);
        assert(trimmed_views(lines).contains(t));
    }
    if trimmed_views(lines).contains(t) {
        let i = choose|i: int| 0 <= i < trimmed_views(lines).len() && trimmed_views(lines)[i] == t;
        assert(trimmed(lines[i]) == t);
    }
}

/// Appending one line grows the history by the line's trimmed token, unless
/// that token is empty, in which case the history is unchanged.
pub proof fn lemma_history_set_push(lines: Seq<Seq<char>>, l: Seq<char>)
    ensures
        history_set(lines.push(l)) == if trimmed(l).len() == 0 {
            history_set(lines)
        } else {
            history_set(lines).insert(trimmed(l))
        },
{
    assert(trimmed_views(lines.push(l)) =~= trimmed_views(lines).push(trimmed(l)));
    trimmed_views(lines).lemma_push_to_set_commute(trimmed(l));
    if trimmed(l).len() == 0 {
        assert(trimmed(l) =~= Seq::<char>::empty());
        assert(history_set(lines.push(l)) =~= history_set(lines));
    } else {
        assert(history_set(lines.push(l)) =~= history_set(lines).insert(trimmed(l)));
    }
}

/// Appending tokens that are non-empty and already trimmed — as drawn
/// tokens are — to an empty store yields a history holding exactly the
/// distinct values among them.
pub proof fn lemma_appends_yield_distinct(toks: Seq<Seq<char>>)
    requires
        forall|i: int| 0 <= i < toks.len() ==> trimmed(#[trigger] toks[i]) == toks[i] && toks[i].len()
            > 0,
    ensures
        history_set(toks) == toks.to_set(),
    decreases toks.len(),
{
    if toks.len() == 0 {
        assert(trimmed_views(toks).to_set() =~= Set::<Seq<char>>::empty());
        assert(history_set(toks) =~= toks.to_set());
    } else {
        let pre = toks.drop_last();
        lemma_appends_yield_distinct(pre);
        assert(pre.push(toks.last()) =~= toks);
        lemma_history_set_push(pre, toks.last());
        pre.lemma_push_to_set_commute(toks.last());
        assert(history_set(toks) =~= toks.to_set());
    }
}

/// Loads the history: the set of distinct non-empty trimmed lines of the
/// store. An empty store — in particular one whose file does not exist —
/// yields the empty set.
pub fn read_extracted_numbers(store: &Store) -> (h: History)
    ensures
        h.wf(),
        h@ == history_set(store@),
        store@.len() == 0 ==> h@ == Set::<Seq<char>>::empty(),
{
    let mut h = History::new();
    let n = store.lines.len();
    proof {
        assert(store@.take(0) =~= Seq::<Seq<char>>::empty());
        assert(trimmed_views(Seq::<Seq<char>>::empty()).to_set() =~= Set::<Seq<char>>::empty());
        assert(history_set(store@.take(0)) =~= Set::<Seq<char>>::empty());
    }
    let mut i: usize = 0;
    while i < n
        invariant
            n == store.lines.len(),
            n == store@.len(),
            i <= n,
            h.wf(),
            h@ == history_set(store@.take(i as int)),
        decreases n - i,
    {
        let t = trim_line(store.lines[i].as_str());
        proof {
            assert(store@[i as int] == store.lines@[i as int]@);
            assert(store@.take(i + 1) =~= store@.take(i as int).push(store@[i as int]));
            lemma_history_set_push(store@.take(i as int), store@[i as int]);
        }
        if !t.as_str().is_empty() {
            h.insert(t);
        }
        i = i + 1;
    }
    proof {
        assert(store@.take(n as int) =~= store@);
    }
    h
}

/// Counts the history: the number of distinct non-empty trimmed lines. This
/// is the quantity the quota is checked against.
pub fn count_extracted_numbers(store: &Store) -> (n: usize)
    ensures
        n == history_set(store@).len(),
{
    let h = read_extracted_numbers(store);
    h.len()
}

/// Appends one token to the store as a new raw line, creating the store if
/// it was absent. The sole mutation path: existing lines are never rewritten.
pub fn append_history(store: &mut Store, token: &str)
    ensures
        final(store)@ == old(store)@.push(token@),
{
    store.lines.push(token.to_owned());
    proof {
        assert(store@ =~= old(store)@.push(token@));
    }
}

} // verus!
