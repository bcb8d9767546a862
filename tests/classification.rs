use commit_rarity::commit::Commit;
use commit_rarity::rarity::{contains_pattern, RareExpl, RarityTier, UncommonExpl};

fn check(hash: &str, tier: RarityTier, explanation: &str, per_mille: u32) {
    let r = Commit::get_rarity(hash);
    assert_eq!(r.tier, tier, "tier of {hash:?}");
    assert_eq!(r.explanation, explanation, "explanation of {hash:?}");
    assert_eq!(r.frequency_per_mille, per_mille, "weight of {hash:?}");
}

#[test]
fn starts_with_nine_digits() {
    check("123456789abcdef", RarityTier::Uncommon, "Starts with nine digits", 10);
}

#[test]
fn digit_start_wins_over_later_rules() {
    check("123456789abcdefghi", RarityTier::Uncommon, "Starts with nine digits", 10);
    check("000000000", RarityTier::Uncommon, "Starts with nine digits", 10);
}

#[test]
fn ends_with_nine_digits() {
    check("abcdef123456789", RarityTier::Uncommon, "Ends with nine digits", 10);
}

#[test]
fn nine_nines_inside() {
    check("a1999999999b2", RarityTier::Uncommon, "Contains nine continuous digits", 10);
    check("x999999999abc", RarityTier::Uncommon, "Contains nine continuous digits", 10);
}

#[test]
fn leading_nine_nines_start_with_nine_digits() {
    check("999999999abc", RarityTier::Uncommon, "Starts with nine digits", 10);
}

#[test]
fn nine_equal_letters_start() {
    check("aaaaaaaaa", RarityTier::Rare, "Starts with nine letters", 1);
}

#[test]
fn upper_case_letters_count() {
    check("ABCDEFGHI1", RarityTier::Rare, "Starts with nine letters", 1);
}

#[test]
fn ends_with_nine_letters() {
    check("1a2b3c4d5eqwertyuio", RarityTier::Rare, "Ends with nine letters", 1);
}

#[test]
fn alphabet_run_inside() {
    check("1a2abcdefghi3b", RarityTier::Rare, "Contains nine continuous letters", 1);
}

#[test]
fn ordinary_hash_is_common() {
    check("e83c5163316f89bfbde7d9ab23ca2e25604af290", RarityTier::Common, "", 990);
    check("abc123", RarityTier::Common, "", 990);
}

#[test]
fn short_hashes_match_vacuously() {
    check("", RarityTier::Uncommon, "Starts with nine digits", 10);
    check("123", RarityTier::Uncommon, "Starts with nine digits", 10);
    check("abc", RarityTier::Rare, "Starts with nine letters", 1);
    check("a1", RarityTier::Common, "", 990);
}

#[test]
fn classification_is_repeatable() {
    let a = Commit::get_rarity("999999999abc");
    let b = Commit::get_rarity("999999999abc");
    assert_eq!(a.tier, b.tier);
    assert_eq!(a.explanation, b.explanation);
    assert_eq!(a.frequency_per_mille, b.frequency_per_mille);
}

#[test]
fn explanation_texts() {
    assert_eq!(UncommonExpl::StartsNineDigits.text(), "Starts with nine digits");
    assert_eq!(UncommonExpl::EndsNineDigits.text(), "Ends with nine digits");
    assert_eq!(UncommonExpl::ContainsNineContDigits.text(), "Contains nine continuous digits");
    assert_eq!(RareExpl::StartsNineLetters.text(), "Starts with nine letters");
    assert_eq!(RareExpl::EndsNineLetters.text(), "Ends with nine letters");
    assert_eq!(RareExpl::ContainsNineContLetters.text(), "Contains nine continuous letters");
}

#[test]
fn tier_names_and_weights() {
    assert_eq!(RarityTier::Common.name(), "Common");
    assert_eq!(RarityTier::Uncommon.name(), "Uncommon");
    assert_eq!(RarityTier::Rare.name(), "Rare");
    assert_eq!(RarityTier::Common.frequency_per_mille(), 990);
    assert_eq!(RarityTier::Uncommon.frequency_per_mille(), 10);
    assert_eq!(RarityTier::Rare.frequency_per_mille(), 1);
}

#[test]
fn pattern_search() {
    let h: Vec<char> = "xx999".chars().collect();
    assert!(contains_pattern(&h, &vec!['9', '9']));
    assert!(!contains_pattern(&h, &vec!['9', 'x']));
    assert!(contains_pattern(&h, &vec![]));
    assert!(!contains_pattern(&vec!['9'], &vec!['9', '9']));
}
