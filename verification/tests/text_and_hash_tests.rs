use rust_banking::audit::generate_hash;
use rust_banking::text::{int_to_text, push_money, str_eq};

#[test]
fn decimal_text_matches_display() {
    for n in [0, 7, 10, 42, -1, -905, 2147483647, -2147483648, 1000000] {
        assert_eq!(int_to_text(n), n.to_string());
    }
}

#[test]
fn money_text_has_two_decimals() {
    let mut s = String::new();
    push_money(&mut s, 150075);
    assert_eq!(s, "1500.75");
    let mut s = String::new();
    push_money(&mut s, 5);
    assert_eq!(s, "0.05");
    let mut s = String::from("amount ");
    push_money(&mut s, 100000);
    assert_eq!(s, "amount 1000.00");
}

#[test]
fn string_equality() {
    assert!(str_eq("manager", "manager"));
    assert!(!str_eq("manager", "manager "));
    assert!(!str_eq("", "a"));
    assert!(str_eq("héllo", "héllo"));
}

#[test]
fn hash_is_lower_hex_sha256() {
    assert_eq!(
        generate_hash("abc"),
        "ba7816bf8f01cfea414140de5dae2223b00361a396177a9cb410ff61f20015ad"
    );
    assert_eq!(
        generate_hash(""),
        "e3b0c44298fc1c149afbf4c8996fb92427ae41e4649b934ca495991b7852b855"
    );
    let h = generate_hash("hello");
    assert_eq!(h.len(), 64);
    assert!(h.chars().all(|c| c.is_ascii_digit() || ('a'..='f').contains(&c)));
    assert_ne!(generate_hash("hello"), "hello");
}
