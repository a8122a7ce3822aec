use ascii_caseless::fold::{fold_char_ascii, fold_chars, str_caseless_cmp, str_caseless_eq};
use ascii_caseless::{AsciiCaselessStr, AsciiCaselessString};
use core::cmp::Ordering;
use std::collections::hash_map::DefaultHasher;
use std::collections::HashSet;
use std::hash::{Hash, Hasher};

#[test]
fn it_works() {
    assert_eq!(
        AsciiCaselessString::new("foo"),
        AsciiCaselessString::new("FOO")
    );
}

#[test]
fn hashset_works() {
    let mut set = HashSet::new();
    set.insert(AsciiCaselessString::new("FoO".to_owned()));
    let query = AsciiCaselessStr::new("foo");
    assert!(set.contains(&AsciiCaselessString::new(query.as_str().to_owned())));
}

#[test]
fn fold_equality() {
    assert!(str_caseless_eq("FoO", "foo"));
    assert!(str_caseless_eq("", ""));
    assert!(!str_caseless_eq("foo", "foot"));
    assert!(!str_caseless_eq("Stra\u{df}e", "STRASSE"));
}

#[test]
fn fold_char_maps_only_ascii_uppercase() {
    assert_eq!(fold_char_ascii('A'), 'a');
    assert_eq!(fold_char_ascii('Z'), 'z');
    assert_eq!(fold_char_ascii('a'), 'a');
    assert_eq!(fold_char_ascii('@'), '@');
    assert_eq!(fold_char_ascii('['), '[');
    assert_eq!(fold_char_ascii('\u{c9}'), '\u{c9}');
    assert_eq!(fold_chars("FoO3\u{c9}"), vec!['f', 'o', 'o', '3', '\u{c9}']);
}

#[test]
fn owned_owned_equality() {
    assert!(AsciiCaselessString::new("FoO") == AsciiCaselessString::new("foo"));
    assert!(AsciiCaselessString::new("FoO") != AsciiCaselessString::new("bar"));
}

#[test]
fn view_view_equality() {
    assert!(AsciiCaselessStr::new("FoO") == AsciiCaselessStr::new("foo"));
    assert!(AsciiCaselessStr::new("FoO") != AsciiCaselessStr::new("fo"));
}

#[test]
fn cross_type_hash_agreement() {
    let owned = AsciiCaselessString::new("FoO".to_owned());
    let view = AsciiCaselessStr::new("foo");
    let mut h1 = DefaultHasher::new();
    owned.hash(&mut h1);
    let mut h2 = DefaultHasher::new();
    view.hash(&mut h2);
    assert_eq!(h1.finish(), h2.finish());
}

#[test]
fn total_order() {
    assert!(AsciiCaselessString::new("Apple") < AsciiCaselessString::new("banana"));
    assert!(AsciiCaselessString::new("banana") > AsciiCaselessString::new("Apple"));
    assert_eq!(str_caseless_cmp("Apple", "banana"), Ordering::Less);
    assert_eq!(str_caseless_cmp("banana", "Apple"), Ordering::Greater);
    assert_eq!(str_caseless_cmp("foo", "FOO"), Ordering::Equal);
    assert_eq!(str_caseless_cmp("ab", "abc"), Ordering::Less);
    assert_eq!(str_caseless_cmp("abc", "ab"), Ordering::Greater);
    assert_eq!(
        AsciiCaselessString::new("Apple").partial_cmp(&AsciiCaselessString::new("APPLE")),
        Some(Ordering::Equal)
    );
    assert_eq!(
        AsciiCaselessStr::new("B").partial_cmp(&AsciiCaselessStr::new("a")),
        Some(Ordering::Greater)
    );
}

#[test]
fn round_trip() {
    let s = AsciiCaselessString::new("FoO".to_owned());
    assert_eq!(s.into_inner(), "FoO");
    assert_eq!(AsciiCaselessString::new("FoO").into_inner(), "FoO");
}

#[test]
fn accessors_preserve_case() {
    let s = AsciiCaselessString::new("FoO".to_owned());
    assert_eq!(s.as_str(), "FoO");
    assert_eq!(s.as_inner_ref(), "FoO");
    let v = AsciiCaselessStr::new("FoO");
    assert_eq!(v.as_str(), "FoO");
}

#[test]
fn non_ascii_passthrough() {
    assert!(str_caseless_eq("caf\u{e9}", "caf\u{e9}"));
    assert!(!str_caseless_eq("caf\u{e9}", "CAF\u{c9}"));
    assert!(AsciiCaselessString::new("caf\u{e9}") != AsciiCaselessString::new("CAF\u{c9}"));
    assert!(AsciiCaselessString::new("caf\u{e9}") == AsciiCaselessString::new("CAF\u{e9}"));
}

#[test]
fn mutation_visibility() {
    let mut s = AsciiCaselessString::new("foo".to_owned());
    assert!(s == AsciiCaselessString::new("FOO".to_owned()));
    *s.as_inner_mut() = "Bar".to_owned();
    assert!(s == AsciiCaselessString::new("bar".to_owned()));
    assert!(s != AsciiCaselessString::new("FOO".to_owned()));
    assert_eq!(s.as_str(), "Bar");

    let mut set = HashSet::new();
    set.insert(s);
    assert!(set.contains(&AsciiCaselessString::new("BAR".to_owned())));
    assert!(!set.contains(&AsciiCaselessString::new("foo".to_owned())));
}

#[test]
fn borrow_relation() {
    let owned = AsciiCaselessString::new("FoO".to_owned());
    let view = owned.as_caseless_str();
    assert_eq!(view.as_str(), "FoO");
    assert!(view == AsciiCaselessStr::new("foo"));
}

#[test]
fn from_conversions() {
    let owned: AsciiCaselessString<&str> = AsciiCaselessString::from("FoO");
    assert_eq!(owned.as_str(), "FoO");
    let view: AsciiCaselessStr = AsciiCaselessStr::from("FoO");
    assert_eq!(view.as_str(), "FoO");
    assert!(view == AsciiCaselessStr::new("FOO"));
}
