use daic_contracts::text::{clone_texts, decimal_text, position};

fn s(text: &str) -> String {
    text.to_string()
}

#[test]
fn decimal_text_writes_numbers_as_std_does() {
    for n in [0u64, 1, 9, 10, 11, 99, 100, 101, 12_345, 1_000_000, u64::MAX - 1, u64::MAX] {
        assert_eq!(decimal_text(n), n.to_string());
    }
    assert_eq!(decimal_text(0), "0");
    assert_eq!(decimal_text(907), "907");
    assert_eq!(decimal_text(u64::MAX), "18446744073709551615");
}

#[test]
fn position_finds_the_first_place() {
    let keys = vec![s("a"), s("b"), s("a"), s("")];
    assert_eq!(position(&keys, &s("a")), Some(0));
    assert_eq!(position(&keys, &s("b")), Some(1));
    assert_eq!(position(&keys, &s("")), Some(3));
    assert_eq!(position(&keys, &s("c")), None);
    assert_eq!(position(&vec![], &s("a")), None);
}

#[test]
fn clone_texts_copies_every_text() {
    let texts = vec![s("x"), s(""), s("yz")];
    assert_eq!(clone_texts(&texts), texts);
    assert!(clone_texts(&vec![]).is_empty());
}
