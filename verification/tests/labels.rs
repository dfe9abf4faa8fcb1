use fltk_table::labels::{col_header_label, decimal_string, row_header_label};

#[test]
fn col_labels_single_letters() {
    assert_eq!(col_header_label(0), "A");
    assert_eq!(col_header_label(1), "B");
    assert_eq!(col_header_label(25), "Z");
}

#[test]
fn col_labels_double_letters() {
    assert_eq!(col_header_label(26), "AA");
    assert_eq!(col_header_label(27), "AB");
    assert_eq!(col_header_label(51), "AZ");
    assert_eq!(col_header_label(52), "BA");
    assert_eq!(col_header_label(77), "BZ");
    assert_eq!(col_header_label(701), "ZZ");
}

#[test]
fn col_labels_decimal_fallback() {
    assert_eq!(col_header_label(702), "702");
    assert_eq!(col_header_label(1000), "1000");
}

#[test]
fn row_labels_are_one_based() {
    assert_eq!(row_header_label(0), "1");
    assert_eq!(row_header_label(1), "2");
    assert_eq!(row_header_label(29), "30");
}

#[test]
fn decimal_strings() {
    assert_eq!(decimal_string(0), "0");
    assert_eq!(decimal_string(7), "7");
    assert_eq!(decimal_string(10), "10");
    assert_eq!(decimal_string(12345), "12345");
    assert_eq!(decimal_string(u32::MAX), "4294967295");
}
