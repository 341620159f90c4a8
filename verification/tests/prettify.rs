use pair_monitor::prettify::{prettify_decimal, prettify_dollars};

#[test]
fn test_prettify() {
    assert_eq!(
        prettify_decimal(0.9999999999999832.to_string()),
        "0.99".to_string()
    );
    assert_eq!(
        prettify_decimal(7.461748091112812.to_string()),
        "7.46".to_string()
    );
    assert_eq!(prettify_decimal(0.to_string()), "0".to_string());
    assert_eq!(
        prettify_decimal(2.001240998420113656.to_string()),
        "2.00".to_string()
    );
}

#[test]
fn test_prettify_dollars() {
    assert_eq!(prettify_dollars("19123".to_string()), "19 123".to_string());
    assert_eq!(prettify_dollars(696.to_string()), 696.to_string());
    assert_eq!(prettify_dollars(1234.to_string()), "1 234".to_string());
}

#[test]
fn decimal_single_byte_texts_come_back_whole() {
    assert_eq!(prettify_decimal("7".to_string()), "7");
    assert_eq!(prettify_decimal(".".to_string()), ".");
    assert_eq!(prettify_decimal(String::new()), "");
}

#[test]
fn decimal_without_dot_keeps_three_characters() {
    assert_eq!(prettify_decimal("19123".to_string()), "191");
    assert_eq!(prettify_decimal("12".to_string()), "12");
    assert_eq!(prettify_decimal("é".to_string()), "é");
}

#[test]
fn decimal_cuts_after_first_dot() {
    assert_eq!(prettify_decimal("1.5".to_string()), "1.5");
    assert_eq!(prettify_decimal(".123".to_string()), ".12");
    assert_eq!(prettify_decimal("12.3.45".to_string()), "12.3.");
    assert_eq!(prettify_decimal("150.000000000000000000".to_string()), "150.00");
}

#[test]
fn decimal_is_idempotent_on_examples() {
    for s in ["0.9999999999999832", "19123", "7", ".123", "12.3.45", "2.00", ""] {
        let once = prettify_decimal(s.to_string());
        assert_eq!(prettify_decimal(once.clone()), once);
        assert!(s.starts_with(once.as_str()));
    }
}

#[test]
fn dollars_groups_from_the_right() {
    assert_eq!(prettify_dollars(String::new()), "");
    assert_eq!(prettify_dollars("5".to_string()), "5");
    assert_eq!(prettify_dollars("123456".to_string()), "123 456");
    assert_eq!(prettify_dollars("1234567".to_string()), "1 234 567");
    assert_eq!(prettify_dollars("12345678".to_string()), "12 345 678");
}

#[test]
fn dollars_only_inserts_spaces() {
    for s in ["1", "12", "123", "1234", "98765432101"] {
        let grouped = prettify_dollars(s.to_string());
        assert_eq!(grouped.replace(' ', ""), s);
        let n = s.chars().count();
        assert_eq!(grouped.chars().count(), n + (n - 1) / 3);
    }
}
