use swash::canon::{canonicalize, canonicalize_all, replace_spaces};
use swash::html::decode_factbook;
use swash::lists::{colon_list, comma_list, split_list};

#[test]
fn canonical_name_of_nation() {
    assert_eq!(canonicalize("Crazy girl"), "crazy_girl");
}

#[test]
fn canonical_name_of_region() {
    assert_eq!(canonicalize("The North Pacific"), "the_north_pacific");
    assert_eq!(canonicalize("the Plains of Perdition"), "the_plains_of_perdition");
}

#[test]
fn canonical_name_keeps_other_characters() {
    assert_eq!(canonicalize("Already_Canon-1"), "already_canon-1");
    assert_eq!(canonicalize(""), "");
    assert_eq!(canonicalize("  "), "__");
}

#[test]
fn replace_spaces_only_touches_spaces() {
    assert_eq!(replace_spaces("A b\tC "), "A_b\tC_");
}

#[test]
fn embassies_are_canonicalized() {
    let out = canonicalize_all(vec!["Testregionia".to_string(), "The Rejected Realms".to_string()]);
    assert_eq!(out, vec!["testregionia".to_string(), "the_rejected_realms".to_string()]);
    assert!(canonicalize_all(Vec::new()).is_empty());
}

#[test]
fn endorsements_are_split_on_commas() {
    assert_eq!(comma_list(Some("testlandia,maxtopia")), vec!["testlandia", "maxtopia"]);
}

#[test]
fn nations_are_split_on_colons() {
    assert_eq!(colon_list(Some("testlandia:maxtopia")), vec!["testlandia", "maxtopia"]);
}

#[test]
fn list_items_are_trimmed_and_blank_items_dropped() {
    assert_eq!(comma_list(Some(" a , ,b ,\u{3000}c\u{a0},")), vec!["a", "b", "c"]);
    assert_eq!(colon_list(Some("::x y::")), vec!["x y"]);
}

#[test]
fn absent_or_blank_list_gives_no_names() {
    assert!(comma_list(None).is_empty());
    assert!(colon_list(None).is_empty());
    assert!(comma_list(Some("")).is_empty());
    assert!(comma_list(Some("   \t\n")).is_empty());
}

#[test]
fn list_separator_is_taken_literally() {
    assert_eq!(split_list("a:b,c", ','), vec!["a:b", "c"]);
    assert_eq!(split_list("a:b,c", ':'), vec!["a", "b,c"]);
}

#[test]
fn factbook_entities_are_decoded() {
    assert_eq!(decode_factbook("Hello &lt;world&gt;"), "Hello <world>");
    assert_eq!(decode_factbook("Fish &amp; chips &#65;"), "Fish & chips A");
}

#[test]
fn factbook_without_entities_is_unchanged() {
    assert_eq!(decode_factbook("Plain text; nothing to decode"), "Plain text; nothing to decode");
    assert_eq!(decode_factbook("&unknown; stays"), "&unknown; stays");
}

#[test]
fn canonical_name_lowercases_beyond_ascii() {
    assert_eq!(canonicalize("ÉCOLE Normale"), "école_normale");
}

#[test]
fn joined_clean_names_split_back() {
    let names = vec!["testlandia".to_string(), "max topia".to_string(), "the_east_pacific".to_string()];
    assert_eq!(comma_list(Some(&names.join(","))), names);
    assert_eq!(colon_list(Some(&names.join(":"))), names);
    assert!(comma_list(Some(&Vec::<String>::new().join(","))).is_empty());
}
