use drawer::draw::extract_number;
use drawer::store::{append_history, count_extracted_numbers, read_extracted_numbers, Store};

#[test]
fn test_write_read_extracted_numbers() {
    let mut store = Store::missing();
    append_history(&mut store, "hello world");
    let numbers = read_extracted_numbers(&store);
    assert!(numbers.contains_token(&"hello world".to_string()));
}

#[test]
fn test_count_extracted_numbers() {
    let mut store = Store::missing();
    append_history(&mut store, "line1");
    append_history(&mut store, "line2");
    assert_eq!(count_extracted_numbers(&store), 2);
}

#[test]
fn test_read_extracted_numbers() {
    let mut store = Store::missing();
    append_history(&mut store, "1");
    append_history(&mut store, "2");
    let numbers = read_extracted_numbers(&store);
    assert!(numbers.contains_token(&"1".to_string()));
    assert!(numbers.contains_token(&"2".to_string()));
    assert_eq!(numbers.len(), 2);
}

#[test]
fn test_extract_number_logic() {
    let mut store = Store::missing();
    // Every number from 1 to 48 has been drawn already.
    for i in 1..49 {
        append_history(&mut store, &i.to_string());
    }
    let history = read_extracted_numbers(&store);
    // The only number that can be extracted is 49.
    let number = extract_number(1, 49, &history);
    assert_eq!(number, "49");
}
