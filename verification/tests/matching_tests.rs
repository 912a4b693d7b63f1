use vanity_search::matching::matches_prefix;

const SEGWIT: &str = "bc1qalwlmdxd2ggue4290ekzxl9tetg56neexr6amw";
const LEGACY: &str = "14BsRPbmx8geebmp9RxyzHbvR3cYe6CY6T";

#[test]
fn prefix_is_compared_behind_the_lead_in() {
    assert!(matches_prefix(SEGWIT, 4, "alw"));
    assert!(matches_prefix(SEGWIT, 4, "a"));
    assert!(matches_prefix(LEGACY, 1, "4Bs"));
    assert!(!matches_prefix(SEGWIT, 4, "bc1"));
    assert!(!matches_prefix(SEGWIT, 4, "alx"));
    assert!(!matches_prefix(SEGWIT, 4, "lw"));
    assert!(!matches_prefix(LEGACY, 1, "14B"));
}

#[test]
fn comparison_is_case_sensitive() {
    assert!(!matches_prefix(LEGACY, 1, "4bs"));
    assert!(!matches_prefix(SEGWIT, 4, "ALW"));
}

#[test]
fn skip_of_zero_compares_from_the_start() {
    assert!(matches_prefix(SEGWIT, 0, "bc1q"));
    assert!(!matches_prefix(SEGWIT, 0, "alw"));
}

#[test]
fn whole_remainder_can_be_the_prefix() {
    assert!(matches_prefix(SEGWIT, 4, "alwlmdxd2ggue4290ekzxl9tetg56neexr6amw"));
    assert!(!matches_prefix(SEGWIT, 4, "alwlmdxd2ggue4290ekzxl9tetg56neexr6amwq"));
}

#[test]
fn empty_prefix_matches_where_the_lead_in_fits() {
    assert!(matches_prefix(SEGWIT, 4, ""));
    assert!(matches_prefix("bc1q", 4, ""));
    assert!(matches_prefix("", 0, ""));
    assert!(!matches_prefix("bc1", 4, ""));
}

#[test]
fn too_short_candidate_does_not_match() {
    assert!(!matches_prefix("bc1qal", 4, "alw"));
    assert!(!matches_prefix("bc", 4, "a"));
    assert!(!matches_prefix("", 4, "a"));
    assert!(!matches_prefix("", 1, ""));
}

#[test]
fn prefix_longer_than_the_address_does_not_match() {
    let long: String = "q".repeat(200);
    assert!(!matches_prefix(SEGWIT, 4, &long));
    assert!(!matches_prefix(SEGWIT, 0, &long));
}

#[test]
fn huge_skip_does_not_match() {
    assert!(!matches_prefix(SEGWIT, usize::MAX, ""));
    assert!(!matches_prefix(SEGWIT, usize::MAX, "a"));
    assert!(!matches_prefix(SEGWIT, 43, ""));
    assert!(matches_prefix(SEGWIT, 42, ""));
}

#[test]
fn characters_are_counted_not_bytes() {
    assert!(matches_prefix("\u{00e9}\u{00e9}abc", 2, "ab"));
    assert!(matches_prefix("\u{00e9}\u{00e9}abc", 4, "c"));
    assert!(!matches_prefix("\u{00e9}\u{00e9}abc", 4, "a"));
    assert!(matches_prefix("ab\u{00e9}c", 2, "\u{00e9}c"));
}
