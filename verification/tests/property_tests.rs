use drawer::draw::extract_number;
use drawer::flow::{run_flow, Outcome};
use drawer::history::range_covered;
use drawer::store::{append_history, count_extracted_numbers, read_extracted_numbers, Store};
use drawer::token::{to_token, trim_line};

#[test]
fn test_load_history_trims_and_dedups() {
    let lines = vec![
        "  7 ".to_string(),
        "".to_string(),
        "7".to_string(),
        " \t ".to_string(),
        "8\t".to_string(),
    ];
    let store = Store::from_lines(lines);
    let history = read_extracted_numbers(&store);
    assert!(history.contains_token(&"7".to_string()));
    assert!(history.contains_token(&"8".to_string()));
    assert!(!history.contains_token(&"  7 ".to_string()));
    assert!(!history.contains_token(&"".to_string()));
    assert_eq!(history.len(), 2);
}

#[test]
fn test_load_missing_store_is_empty() {
    let store = Store::missing();
    let history = read_extracted_numbers(&store);
    assert_eq!(history.len(), 0);
    assert_eq!(count_extracted_numbers(&store), 0);
}

#[test]
fn test_draw_fresh_and_in_range() {
    let mut store = Store::missing();
    append_history(&mut store, "1");
    append_history(&mut store, "2");
    let history = read_extracted_numbers(&store);
    let tok = extract_number(1, 3, &history);
    assert_eq!(tok, "3");
}

#[test]
fn test_append_then_load_distinct() {
    let mut store = Store::missing();
    append_history(&mut store, "3");
    append_history(&mut store, "7");
    append_history(&mut store, "3");
    let history = read_extracted_numbers(&store);
    assert!(history.contains_token(&"3".to_string()));
    assert!(history.contains_token(&"7".to_string()));
    assert_eq!(history.len(), 2);
    assert_eq!(count_extracted_numbers(&store), 2);
}

#[test]
fn test_empty_store_first_draw() {
    let mut store = Store::missing();
    let history = read_extracted_numbers(&store);
    let tok = extract_number(1, 49, &history);
    let value: i8 = tok.parse().unwrap();
    assert!((1..=49).contains(&value));
    assert_eq!(tok, value.to_string());
    append_history(&mut store, &tok);
    assert_eq!(count_extracted_numbers(&store), 1);
}

#[test]
fn test_quota_reached_refuses() {
    let mut store = Store::missing();
    for i in 1..=100 {
        append_history(&mut store, &i.to_string());
    }
    assert_eq!(count_extracted_numbers(&store), 100);
    let out = run_flow(&mut store, "1");
    assert!(matches!(out, Outcome::AllExtracted));
    assert_eq!(store.line_count(), 100);
    assert_eq!(count_extracted_numbers(&store), 100);
}

#[test]
fn test_invalid_choice_no_draw() {
    let mut store = Store::missing();
    append_history(&mut store, "5");
    let out = run_flow(&mut store, "9");
    assert!(matches!(out, Outcome::InvalidChoice));
    assert_eq!(store.line_count(), 1);
    assert_eq!(count_extracted_numbers(&store), 1);
}

#[test]
fn test_flow_draws_and_appends() {
    let mut store = Store::missing();
    let out = run_flow(&mut store, "2");
    let tok = match out {
        Outcome::Drawn(tok) => tok,
        other => panic!("expected a draw, got {:?}", other),
    };
    let value: i8 = tok.parse().unwrap();
    assert!((50..=100).contains(&value));
    assert_eq!(store.line_count(), 1);
    assert_eq!(count_extracted_numbers(&store), 1);
    let history = read_extracted_numbers(&store);
    assert!(history.contains_token(&tok));
}

#[test]
fn test_flow_trims_input() {
    let mut store = Store::missing();
    let out = run_flow(&mut store, " 3 \n");
    let tok = match out {
        Outcome::Drawn(tok) => tok,
        other => panic!("expected a draw, got {:?}", other),
    };
    let value: i8 = tok.parse().unwrap();
    assert!((1..=100).contains(&value));
}

#[test]
fn test_flow_range_exhausted() {
    let mut store = Store::missing();
    for i in 1..=49 {
        append_history(&mut store, &i.to_string());
    }
    let history = read_extracted_numbers(&store);
    assert!(range_covered(&history, 1, 49));
    let out = run_flow(&mut store, "1");
    assert!(matches!(out, Outcome::RangeExhausted));
    assert_eq!(store.line_count(), 49);
}

#[test]
fn test_single_value_range() {
    let store = Store::missing();
    let history = read_extracted_numbers(&store);
    let tok = extract_number(5, 5, &history);
    assert_eq!(tok, "5");
}

#[test]
fn test_token_formatting() {
    assert_eq!(to_token(0), "0");
    assert_eq!(to_token(7), "7");
    assert_eq!(to_token(49), "49");
    assert_eq!(to_token(100), "100");
    assert_eq!(to_token(127), "127");
    assert_eq!(to_token(-5), "-5");
    assert_eq!(to_token(-100), "-100");
    assert_eq!(to_token(-128), "-128");
    for v in i8::MIN..=i8::MAX {
        assert_eq!(to_token(v), v.to_string());
    }
}

#[test]
fn test_trim_line_matches_str_trim() {
    assert_eq!(trim_line("  a b \t"), "a b");
    assert_eq!(trim_line(" \t\r\n"), "");
    assert_eq!(trim_line("x"), "x");
    assert_eq!(trim_line(""), "");
    assert_eq!(trim_line("\u{00A0}x\u{3000}"), "x");
    let samples = ["  49 ", "\thello world\r\n", "\u{2003}a\u{2009}", "a  b", "-7 "];
    for s in samples {
        assert_eq!(trim_line(s), s.trim());
    }
}
