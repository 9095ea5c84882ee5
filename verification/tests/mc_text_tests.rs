use xcp_lite::mc_text::{check_identifier, to_identifier, McIdentifier, McText};

fn is_copy<T: Sized + Copy>() {}
fn is_send<T: Sized + Send>() {}
fn is_sync<T: Sized + Sync>() {}
fn is_clone<T: Sized + Clone>() {}

#[test]
fn test_mc_text() {
    // Check markers
    is_sync::<McText>();
    is_copy::<McText>();
    is_send::<McText>();
    is_clone::<McText>();

    let t1 = McText::new("Hello");
    assert_eq!(t1.as_str(), "Hello");
    let t2 = t1;
    assert_eq!(t2.as_str(), "Hello");

    let t = McText::new("Hello");
    assert!(t.eq_str("Hello"));

    let s1 = McText::from_string("String".to_string());
    let s2: &'static str = s1.as_str();
    assert!(s1.eq_str(s2));
    assert!(s2 == "String");

    let s3 = McText::new("String");
    assert!(s3.eq_str("String"));

    let s4 = McText::from_string("String".to_string());
    assert!(s4.eq_str("String"));
    let s5: String = s4.as_str().to_string();
    assert_eq!(s5, "String");

    let a = McText::new("A");
    let b = McText::new("B");
    assert!(!a.eq_str(b.as_str()));
    assert!(a.eq_str("A"));
    assert!(a.compare(&b) < 0)
}

#[test]
fn test_mc_identifier() {
    // Check markers
    is_sync::<McIdentifier>();
    is_copy::<McIdentifier>();
    is_send::<McIdentifier>();
    is_clone::<McIdentifier>();

    let t1 = McIdentifier::new("Identifier");
    assert_eq!(t1.as_str(), "Identifier");
    let t2 = t1;
    assert_eq!(t2.as_str(), "Identifier");
    let t = McIdentifier::new("Identifier");
    assert!(t.eq_str("Identifier"));

    // An identifier with characters that are not allowed is refused
    assert!(!check_identifier("Illegal Identifier"));

    let s1 = McIdentifier::from_string("&Legal .Identifier ".to_string());
    assert_eq!(s1.as_str(), "_Legal_.Identifier_");
}

#[test]
fn identifier_from_string_replaces_each_byte() {
    // A character of several bytes in UTF-8 gives one '_' per byte
    let s = McIdentifier::from_string("a\u{e4}b".to_string());
    assert_eq!(s.as_str(), "a__b");
    let mut t = String::from("x y");
    to_identifier(&mut t);
    assert_eq!(t, "x_y");
    // An identifier is left as it is
    let u = McIdentifier::from_string("calseg.a_1".to_string());
    assert_eq!(u.as_str(), "calseg.a_1");
    assert!(check_identifier("calseg.a_1"));
}

#[test]
fn text_empty_and_order() {
    assert!(McText::empty().is_empty());
    assert!(McIdentifier::empty().is_empty());
    assert!(!McText::new("x").is_empty());
    assert_eq!(McText::new("ab").compare(&McText::new("ab")), 0);
    assert_eq!(McText::new("b").compare(&McText::new("ab")), 1);
    assert_eq!(McText::new("a").compare(&McText::new("ab")), -1);
    assert!(McIdentifier::new("a").eq(&McIdentifier::new("a")));
    assert!(!McIdentifier::new("a").eq(&McIdentifier::new("b")));
}
