use data_handler::text::{decimal, join};

#[test]
fn decimal_of_small_and_large_numbers() {
    assert_eq!(decimal(0), "0");
    assert_eq!(decimal(7), "7");
    assert_eq!(decimal(10), "10");
    assert_eq!(decimal(65535), "65535");
    assert_eq!(decimal(u64::MAX), u64::MAX.to_string());
}

#[test]
fn join_puts_separator_between_neighbours() {
    let parts = vec!["a".to_string(), "bc".to_string(), "".to_string(), "d".to_string()];
    assert_eq!(join(&parts, ';'), "a;bc;;d");
    assert_eq!(join(&vec!["x".to_string()], ';'), "x");
    assert_eq!(join(&Vec::new(), ';'), "");
}
