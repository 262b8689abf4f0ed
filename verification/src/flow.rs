//! One invocation of the interactive flow: quota check, menu choice, guard,
//! draw, append.

use vstd::prelude::*;
use crate::draw::extract_number;
use crate::history::{covers, range_covered};
use crate::store::{append_history, count_extracted_numbers, history_set, read_extracted_numbers,
    Store};
use crate::token::{token_of, trim_line, trimmed};

verus! {

/// The most distinct values ever drawn; once the history holds this many,
/// the flow refuses to draw and reports completion.
pub const QUOTA: usize = 100;

/// What one invocation of the flow did.
#[derive(Debug)]
pub enum Outcome {
    /// The quota of distinct draws is already met; nothing was drawn.
    AllExtracted,
    /// The input selected no known range; nothing was drawn.
    InvalidChoice,
    /// Every value of the selected range was already drawn; nothing was
    /// drawn. The explicit guard against a draw that could not terminate.
    RangeExhausted,
    /// A fresh token was drawn and appended to the store.
    Drawn(String),
}

/// The inclusive range each recognized menu choice selects.
pub open spec fn spec_choice_range(c: Seq<char>) -> Option<(i8, i8)> {
    if c == seq!['1'] {
        Some((1i8, 49i8))
    } else if c == seq!['2'] {
        Some((50i8, 100i8))
    } else if c == seq!['3'] {
        Some((1i8, 100i8))
    } else {
        None
    }
}

fn choice_range(choice: &String) -> (r: Option<(i8, i8)>)
    ensures
        r == spec_choice_range(choice@),
{
    proof {
        reveal_strlit("1");
        reveal_strlit("2");
        reveal_strlit("3");
        assert("1"@ =~= seq!['1']);
        assert("2"@ =~= seq!['2']);
        assert("3"@ =~= seq!['3']);
    }
    let one: String = "1".to_owned();
    let two: String = "2".to_owned();
    let three: String = "3".to_owned();
    if *choice == one {
        Some((1, 49))
    } else if *choice == two {
        Some((50, 100))
    } else if *choice == three {
        Some((1, 100))
    } else {
        None
    }
}

/// What [`run_flow`] guarantees, relating the store before (`lines0`) and
/// after (`lines1`) to the raw input line and the reported outcome: every
/// refusal leaves the store unchanged, and a draw appends exactly the fresh
/// in-range token that is reported.
pub open spec fn flow_spec(
    lines0: Seq<Seq<char>>,
    input: Seq<char>,
    lines1: Seq<Seq<char>>,
    out: Outcome,
) -> bool {
    let s0 = history_set(lines0);
    if s0.len() >= QUOTA {
        out == Outcome::AllExtracted && lines1 == lines0
    } else {
        match spec_choice_range(trimmed(input)) {
            None => out == Outcome::InvalidChoice && lines1 == lines0,
            Some((min, max)) => {
                if covers(s0, min as int, max as int) {
                    out == Outcome::RangeExhausted && lines1 == lines0
                } else {
                    match out {
                        Outcome::Drawn(tok) => {
                            &&& lines1 == lines0.push(tok@)
                            &&& !s0.contains(tok@)
                            &&& exists|v: int| min <= v <= max && tok@ == token_of(v)
                        },
                        _ => false,
                    }
                }
            },
        }
    }
}

/// One full pass of the flow against a loaded store: refuse once the quota
/// is met, map the input line to a range, refuse an exhausted range, else
/// draw a fresh token and append it.
pub fn run_flow(store: &mut Store, input: &str) -> (out: Outcome)
    ensures
        flow_spec(old(store)@, input@, final(store)@, out),
{
    let count = count_extracted_numbers(store);
    if count >= QUOTA {
        return Outcome::AllExtracted;
    }
    let choice = trim_line(input);
    match choice_range(&choice) {
        None => Outcome::InvalidChoice,
        Some((min, max)) => {
            let h = read_extracted_numbers(store);
            if range_covered(&h, min, max) {
                Outcome::RangeExhausted
            } else {
                let tok = extract_number(min, max, &h);
                append_history(store, tok.as_str());
                Outcome::Drawn(tok)
            }
        },
    }
}

} // verus!
