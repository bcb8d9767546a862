use commit_rarity::collection::{filter_by_tier, filter_not_common, summarize};
use commit_rarity::commit::{Commit, Timestamp};
use commit_rarity::rarity::RarityTier;

fn commit(hash: &str, author: &str) -> Commit {
    let t = Timestamp { unix_seconds: 1727545547, subsec_nanos: 0, utc_offset_seconds: 0 };
    Commit::new(hash.to_string(), author.to_string(), t)
}

fn sample() -> Vec<Commit> {
    vec![
        commit("e83c5163316f89bfbde7d9ab23ca2e25604af290", "a"),
        commit("123456789f", "b"),
        commit("aaaaaaaaa1", "c"),
        commit("f00d1e5b3", "d"),
        commit("1a2abcdefghi3b", "e"),
        commit("abcdef123456789", "f"),
    ]
}

fn authors(cs: &[Commit]) -> Vec<String> {
    cs.iter().map(|c| c.author().clone()).collect()
}

#[test]
fn filter_keeps_tier_in_order() {
    let cs = sample();
    assert_eq!(authors(&filter_by_tier(&cs, RarityTier::Common)), vec!["a", "d"]);
    assert_eq!(authors(&filter_by_tier(&cs, RarityTier::Uncommon)), vec!["b", "f"]);
    assert_eq!(authors(&filter_by_tier(&cs, RarityTier::Rare)), vec!["c", "e"]);
}

#[test]
fn not_common_keeps_order() {
    let cs = sample();
    assert_eq!(authors(&filter_not_common(&cs)), vec!["b", "c", "e", "f"]);
}

#[test]
fn not_common_is_uncommon_and_rare_interleaved() {
    let cs = sample();
    let nc = filter_not_common(&cs);
    assert_eq!(
        authors(&filter_by_tier(&nc, RarityTier::Uncommon)),
        authors(&filter_by_tier(&cs, RarityTier::Uncommon))
    );
    assert_eq!(
        authors(&filter_by_tier(&nc, RarityTier::Rare)),
        authors(&filter_by_tier(&cs, RarityTier::Rare))
    );
    assert!(filter_by_tier(&nc, RarityTier::Common).is_empty());
}

#[test]
fn summary_counts() {
    let cs = sample();
    let s = summarize(&cs);
    assert_eq!((s.total, s.common, s.uncommon, s.rare), (6, 2, 2, 2));
    assert_eq!(s.total, s.common + s.uncommon + s.rare);
    for t in [RarityTier::Common, RarityTier::Uncommon, RarityTier::Rare] {
        let n = filter_by_tier(&cs, t).len();
        let expected = match t {
            RarityTier::Common => s.common,
            RarityTier::Uncommon => s.uncommon,
            RarityTier::Rare => s.rare,
        };
        assert_eq!(n, expected);
        assert!(filter_by_tier(&cs, t).iter().all(|c| c.rarity().tier == t));
    }
}

#[test]
fn empty_collection() {
    let cs: Vec<Commit> = Vec::new();
    let s = summarize(&cs);
    assert_eq!((s.total, s.common, s.uncommon, s.rare), (0, 0, 0, 0));
    assert!(filter_by_tier(&cs, RarityTier::Rare).is_empty());
    assert!(filter_not_common(&cs).is_empty());
}

#[test]
fn only_common_commits() {
    let cs = vec![commit("abc123", "x"), commit("e83c5163316f", "y")];
    assert!(filter_not_common(&cs).is_empty());
    assert_eq!(summarize(&cs).common, 2);
}
