use cart_clones::label::{cart_label, parse_label};
use cart_clones::text::{
    chars_of, copy_bytes, decimal_text, find_first, find_last, same_bytes, same_text, take_before,
};

#[test]
fn decimal_text_writes_signed_numbers() {
    assert_eq!(decimal_text(0), "0");
    assert_eq!(decimal_text(7), "7");
    assert_eq!(decimal_text(10), "10");
    assert_eq!(decimal_text(1000), "1000");
    assert_eq!(decimal_text(-42), "-42");
    assert_eq!(decimal_text(i64::MAX), "9223372036854775807");
    assert_eq!(decimal_text(i64::MIN), "-9223372036854775808");
}

#[test]
fn decimal_text_agrees_with_the_standard_rendering() {
    for n in [-1_000_001i64, -10, -9, -1, 1, 9, 99, 100, 1_700_000_000_000_000] {
        assert_eq!(decimal_text(n), format!("{}", n));
    }
}

#[test]
fn take_before_cuts_at_the_first_occurrence() {
    assert_eq!(take_before("1970-01-01T00:00:00.001Z", '.'), "1970-01-01T00:00:00");
    assert_eq!(take_before("a.b.c", '.'), "a");
    assert_eq!(take_before(".x", '.'), "");
    assert_eq!(take_before("no dot", '.'), "no dot");
    assert_eq!(take_before("", '.'), "");
    assert_eq!(take_before("(5μs).", '.'), "(5μs)");
}

#[test]
fn find_first_and_last_report_positions() {
    let chars = chars_of("a_b_c");
    assert_eq!(chars, vec!['a', '_', 'b', '_', 'c']);
    assert_eq!(find_first(&chars, '_'), 1);
    assert_eq!(find_last(&chars, '_'), Some(3));
    assert_eq!(find_first(&chars, 'x'), 5);
    assert_eq!(find_last(&chars, 'x'), None);
    let empty = chars_of("");
    assert_eq!(find_first(&empty, '_'), 0);
    assert_eq!(find_last(&empty, '_'), None);
}

#[test]
fn same_text_and_same_bytes_compare_contents() {
    assert!(same_text("cart", "cart"));
    assert!(!same_text("cart", "Cart"));
    assert!(!same_text("cart", "carts"));
    assert!(same_text("", ""));
    assert!(same_text("μs", "μs"));
    assert!(same_bytes(&[1, 2, 3], &[1, 2, 3]));
    assert!(!same_bytes(&[1, 2, 3], &[1, 2, 4]));
    assert!(!same_bytes(&[1, 2, 3], &[1, 2]));
    assert_eq!(copy_bytes(&[9, 8, 7]), vec![9, 8, 7]);
}

#[test]
fn cart_label_joins_partition_and_time() {
    assert_eq!(cart_label("uhC0kabc", 1000), "Cart_uhC0kabc_1000");
    assert_eq!(cart_label("", 0), "Cart__0");
    assert_eq!(cart_label("a_b", -5), "Cart_a_b_-5");
}

#[test]
fn parse_label_reads_from_both_ends() {
    assert_eq!(
        parse_label("Cart_uhC0kabc_1000"),
        Some(("uhC0kabc".to_string(), "1000".to_string()))
    );
    assert_eq!(
        parse_label("Cart_uhC0k_with_under_scores_17"),
        Some(("uhC0k_with_under_scores".to_string(), "17".to_string()))
    );
    assert_eq!(parse_label("Cart__5"), Some(("".to_string(), "5".to_string())));
    assert_eq!(parse_label("Cart_5"), Some(("".to_string(), "5".to_string())));
    assert_eq!(parse_label("_"), Some(("".to_string(), "".to_string())));
    assert_eq!(parse_label("Cart_x_"), Some(("x".to_string(), "".to_string())));
}

#[test]
fn parse_label_refuses_a_label_without_underscore() {
    assert_eq!(parse_label("Cart"), None);
    assert_eq!(parse_label(""), None);
    assert_eq!(parse_label("Cart-abc-1000"), None);
}

#[test]
fn a_written_label_reads_back() {
    for partition in ["uhC0kabc", "a_b_c", "", "_", "μ_μ"] {
        for created_at in [0i64, 1000, -1, i64::MAX, i64::MIN] {
            let label = cart_label(partition, created_at);
            assert_eq!(
                parse_label(&label),
                Some((partition.to_string(), decimal_text(created_at)))
            );
        }
    }
}
