use brane_vm::text::{decimal_string, quoted_list_string};

#[test]
fn decimal_writes_numbers() {
    assert_eq!(decimal_string(0), "0");
    assert_eq!(decimal_string(7), "7");
    assert_eq!(decimal_string(10), "10");
    assert_eq!(decimal_string(90210), "90210");
    assert_eq!(decimal_string(u64::MAX), "18446744073709551615");
}

#[test]
fn quoted_list_separates_with_commas() {
    assert_eq!(quoted_list_string(&vec![]), "");
    assert_eq!(quoted_list_string(&vec!["a".to_string()]), "'a'");
    assert_eq!(quoted_list_string(&vec!["a".to_string(), "bc".to_string(), "d".to_string()]), "'a', 'bc', 'd'");
}
