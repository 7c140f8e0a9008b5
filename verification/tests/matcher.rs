use vanity_keys::matcher::contains_subsequence_xor;
use vanity_keys::matcher::match_indices;
use vanity_keys::matcher::starts_with_variant;
use vanity_keys::matcher::MatchMode;
use vanity_keys::pattern::expand;

#[test]
fn prefix_scenario() {
    let variants = expand("abc", false);
    let hit = b"abcXYZqqq".to_vec();
    let wrong_case = b"ABCxyzqqq".to_vec();
    let not_at_start = b"xyzabcqqq".to_vec();
    assert!(vanity_keys::matcher::matches(&hit, &variants, MatchMode::Prefix));
    assert!(!vanity_keys::matcher::matches(&wrong_case, &variants, MatchMode::Prefix));
    assert!(!vanity_keys::matcher::matches(&not_at_start, &variants, MatchMode::Prefix));
}

#[test]
fn prefix_needs_full_variant() {
    let variants = expand("abc", false);
    assert!(vanity_keys::matcher::matches(&b"abc".to_vec(), &variants, MatchMode::Prefix));
    assert!(!vanity_keys::matcher::matches(&b"ab".to_vec(), &variants, MatchMode::Prefix));
    assert!(!vanity_keys::matcher::matches(&Vec::new(), &variants, MatchMode::Prefix));
}

#[test]
fn prefix_case_insensitive_scenario() {
    let variants = expand("aB", true);
    assert!(vanity_keys::matcher::matches(&b"ABqqq".to_vec(), &variants, MatchMode::Prefix));
    assert!(vanity_keys::matcher::matches(&b"abqqq".to_vec(), &variants, MatchMode::Prefix));
    assert!(!vanity_keys::matcher::matches(&b"ba".to_vec(), &variants, MatchMode::Prefix));
}

#[test]
fn substring_scenario() {
    let variants = expand("xyz", false);
    assert!(vanity_keys::matcher::matches(&b"qqxyzqq".to_vec(), &variants, MatchMode::Substring));
    assert!(!vanity_keys::matcher::matches(&b"qqxyqzq".to_vec(), &variants, MatchMode::Substring));
}

#[test]
fn substring_at_the_edges() {
    let variants = expand("xyz", false);
    assert!(vanity_keys::matcher::matches(&b"xyzqq".to_vec(), &variants, MatchMode::Substring));
    assert!(vanity_keys::matcher::matches(&b"qqxyz".to_vec(), &variants, MatchMode::Substring));
    assert!(vanity_keys::matcher::matches(&b"xyz".to_vec(), &variants, MatchMode::Substring));
    assert!(!vanity_keys::matcher::matches(&b"xy".to_vec(), &variants, MatchMode::Substring));
}

#[test]
fn starts_with_variant_is_exact() {
    assert!(starts_with_variant(&b"abcd".to_vec(), &b"abc".to_vec()));
    assert!(!starts_with_variant(&b"aXcd".to_vec(), &b"abc".to_vec()));
    assert!(starts_with_variant(&b"abcd".to_vec(), &Vec::new()));
}

#[test]
fn xor_window_search_is_exact_equality() {
    assert!(contains_subsequence_xor(&b"aqxyzb".to_vec(), &b"xyz".to_vec()));
    assert!(!contains_subsequence_xor(&b"aqxzyb".to_vec(), &b"xyz".to_vec()));
    // An empty needle occurs in every haystack.
    assert!(contains_subsequence_xor(&b"aq".to_vec(), &Vec::new()));
}

#[test]
fn match_indices_reports_once_per_variant() {
    let variants: Vec<Vec<u8>> = vec![b"a".to_vec(), b"ab".to_vec(), b"zz".to_vec()];
    let candidate = b"abc".to_vec();
    assert_eq!(match_indices(&candidate, &variants, MatchMode::Prefix), vec![0usize, 1usize]);
    assert_eq!(
        match_indices(&b"zzz".to_vec(), &variants, MatchMode::Prefix),
        vec![2usize]
    );
    assert_eq!(
        match_indices(&b"qqq".to_vec(), &variants, MatchMode::Prefix),
        Vec::<usize>::new()
    );
}
