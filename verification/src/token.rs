//! Tokens: the textual form of drawn values, and the trimming applied to
//! lines read back from the store.

use vstd::prelude::*;

verus! {

/// The characters stripped by trimming: the Unicode white-space characters.
pub open spec fn is_ws_char(c: char) -> bool {
    ||| c == ' '
    ||| c == '\t'
    ||| c == '\n'
    ||| c == '\u{000B}'
    ||| c == '\u{000C}'
    ||| c == '\r'
    ||| c == '\u{0085}'
    ||| c == '\u{00A0}'
    ||| c == '\u{1680}'
    ||| c == '\u{2000}'
    ||| c == '\u{2001}'
    ||| c == '\u{2002}'
    ||| c == '\u{2003}'
    ||| c == '\u{2004}'
    ||| c == '\u{2005}'
    ||| c == '\u{2006}'
    ||| c == '\u{2007}'
    ||| c == '\u{2008}'
    ||| c == '\u{2009}'
    ||| c == '\u{200A}'
    ||| c == '\u{2028}'
    ||| c == '\u{2029}'
    ||| c == '\u{202F}'
    ||| c == '\u{205F}'
    ||| c == '\u{3000}'
}

fn is_ws(c: char) -> (b: bool)
    ensures
        b == is_ws_char(c),
{
    c == ' ' || c == '\t' || c == '\n' || c == '\u{000B}' || c == '\u{000C}' || c == '\r'
        || c == '\u{0085}' || c == '\u{00A0}' || c == '\u{1680}' || c == '\u{2000}'
        || c == '\u{2001}' || c == '\u{2002}' || c == '\u{2003}' || c == '\u{2004}'
        || c == '\u{2005}' || c == '\u{2006}' || c == '\u{2007}' || c == '\u{2008}'
        || c == '\u{2009}' || c == '\u{200A}' || c == '\u{2028}' || c == '\u{2029}'
        || c == '\u{202F}' || c == '\u{205F}' || c == '\u{3000}'
}

/// The sequence with all leading white space removed.
pub open spec fn ltrimmed(s: Seq<char>) -> Seq<char>
    decreases s.len(),
{
    if s.len() > 0 && is_ws_char(s[0]) {
        ltrimmed(s.drop_first())
    } else {
        s
    }
}

/// The sequence with all trailing white space removed.
pub open spec fn rtrimmed(s: Seq<char>) -> Seq<char>
    decreases s.len(),
{
    if s.len() > 0 && is_ws_char(s[s.len() - 1]) {
        rtrimmed(s.drop_last())
    } else {
        s
    }
}

/// The sequence with leading and trailing white space removed.
pub open spec fn trimmed(s: Seq<char>) -> Seq<char> {
    rtrimmed(ltrimmed(s))
}

proof fn lemma_ltrimmed_subrange(s: Seq<char>, k: int)
    requires
        0 <= k <= s.len(),
        forall|j: int| 0 <= j < k ==> is_ws_char(s[j]),
        k == s.len() || !is_ws_char(s[k]),
    ensures
        ltrimmed(s) == s.subrange(k, s.len() as int),
    decreases k,
{
    if k == 0 {
        assert(s.subrange(0, s.len() as int) =~= s);
    } else {
        let rest = s.drop_first();
        lemma_ltrimmed_subrange(rest, k - 1);
        assert(rest.subrange(k - 1, rest.len() as int) =~= s.subrange(k, s.len() as int));
    }
}

proof fn lemma_rtrimmed_subrange(s: Seq<char>, e: int)
    requires
        0 <= e <= s.len(),
        forall|j: int| e <= j < s.len() ==> is_ws_char(s[j]),
        e == 0 || !is_ws_char(s[e - 1]),
    ensures
        rtrimmed(s) == s.subrange(0, e),
    decreases s.len(),
{
    if e == s.len() {
        if s.len() == 0 {
            assert(s.subrange(0, 0) =~= s);
        } else {
            assert(!is_ws_char(s[s.len() - 1]));
            assert(s.subrange(0, s.len() as int) =~= s);
        }
    } else {
        let rest = s.drop_last();
        lemma_rtrimmed_subrange(rest, e);
        assert(rest.subrange(0, e) =~= s.subrange(0, e));
    }
}

/// Trims leading and trailing white space from a line, as a fresh string.
pub fn trim_line(s: &str) -> (t: String)
    ensures
        t@ == trimmed(s@),
{
    let n = s.unicode_len();
    let mut start: usize = 0;
    while start < n && is_ws(s.get_char(start))
        invariant
            n == s@.len(),
            start <= n,
            forall|j: int| 0 <= j < start ==> is_ws_char(s@[j]),
        decreases n - start,
    {
        start = start + 1;
    }
    let mut end: usize = n;
    while end > start && is_ws(s.get_char(end - 1))
        invariant
            n == s@.len(),
            start <= end <= n,
            forall|j: int| 0 <= j < start ==> is_ws_char(s@[j]),
            start == n || !is_ws_char(s@[start as int]),
            forall|j: int| end <= j < n ==> is_ws_char(s@[j]),
        decreases end,
    {
        end = end - 1;
    }
    let sub = s.substring_char(start, end);
    proof {
        lemma_ltrimmed_subrange(s@, start as int);
        let mid = s@.subrange(start as int, n as int);
        lemma_rtrimmed_subrange(mid, end - start);
        assert(mid.subrange(0, end - start) =~= s@.subrange(start as int, end as int));
    }
    sub.to_owned()
}

/// The decimal digit character for `d` in `0..=9`.
pub open spec fn digit_char(d: int) -> char {
    if d == 0 {
        '0'
    } else if d == 1 {
        '1'
    } else if d == 2 {
        '2'
    } else if d == 3 {
        '3'
    } else if d == 4 {
        '4'
    } else if d == 5 {
        '5'
    } else if d == 6 {
        '6'
    } else if d == 7 {
        '7'
    } else if d == 8 {
        '8'
    } else {
        '9'
    }
}

/// The decimal digits of a magnitude `n` in `0..=999`, most significant first,
/// without leading zeros.
pub open spec fn magnitude_chars(n: int) -> Seq<char> {
    if n < 10 {
        seq![digit_char(n)]
    } else if n < 100 {
        seq![digit_char(n / 10), digit_char(n % 10)]
    } else {
        seq![digit_char(n / 100), digit_char((n / 10) % 10), digit_char(n % 10)]
    }
}

/// The decimal token for a value `v` in `-999..=999`: an optional minus sign
/// followed by the digits of its magnitude. This is the form `i8` values are
/// displayed in and persisted as.
pub open spec fn token_of(v: int) -> Seq<char> {
    if v < 0 {
        seq!['-'] + magnitude_chars(-v)
    } else {
        magnitude_chars(v)
    }
}

/// Decimal tokens are non-empty and carry no surrounding white space:
/// trimming a token gives it back unchanged. This is what lets a drawn
/// token be appended to the store and read back as itself.
pub proof fn lemma_token_trimmed(v: int)
    ensures
        token_of(v).len() > 0,
        trimmed(token_of(v)) == token_of(v),
{
    let t = token_of(v);
    assert(forall|d: int| !is_ws_char(#[trigger] digit_char(d)));
    assert(!is_ws_char(t[0]));
    assert(!is_ws_char(t[t.len() - 1]));
    assert(ltrimmed(t) == t);
    assert(rtrimmed(t) == t);
}

fn push_digit(s: &mut String, d: u16)
    requires
        d <= 9,
    ensures
        final(s)@ == old(s)@.push(digit_char(d as int)),
{
    let ds: &'static str = if d == 0 {
        "0"
    } else if d == 1 {
        "1"
    } else if d == 2 {
        "2"
    } else if d == 3 {
        "3"
    } else if d == 4 {
        "4"
    } else if d == 5 {
        "5"
    } else if d == 6 {
        "6"
    } else if d == 7 {
        "7"
    } else if d == 8 {
        "8"
    } else {
        "9"
    };
    proof {
        reveal_strlit("0");
        reveal_strlit("1");
        reveal_strlit("2");
        reveal_strlit("3");
        reveal_strlit("4");
        reveal_strlit("5");
        reveal_strlit("6");
        reveal_strlit("7");
        reveal_strlit("8");
        reveal_strlit("9");
    }
    s.append(ds);
    proof {
        assert(s@ =~= old(s)@.push(digit_char(d as int)));
    }
}

/// Renders a value as its decimal token, the exact string `i8` values are
/// displayed as.
pub fn to_token(v: i8) -> (s: String)
    ensures
        s@ == token_of(v as int),
{
    let mut s = String::new();
    let n: u16;
    if v < 0 {
        proof {
            reveal_strlit("-");
        }
        s.append("-");
        n = (-(v as i16)) as u16;
    } else {
        n = v as u16;
    }
    if n >= 100 {
        push_digit(&mut s, n / 100);
        push_digit(&mut s, (n / 10) % 10);
        push_digit(&mut s, n % 10);
    } else if n >= 10 {
        push_digit(&mut s, n / 10);
        push_digit(&mut s, n % 10);
    } else {
        push_digit(&mut s, n);
    }
    proof {
        assert(s@ =~= token_of(v as int));
    }
    s
}

} // verus!
