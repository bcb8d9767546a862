use commit_rarity::collection::summarize;
use commit_rarity::commit::{parse_commit, parse_log, Commit, Timestamp};
use commit_rarity::rarity::RarityTier;

#[test]
fn parses_a_log_line() {
    let c = parse_commit("abc123 2024-09-28T17:45:47+00:00 John Doe").unwrap();
    assert_eq!(c.hash(), "abc123");
    assert_eq!(c.author(), "John Doe");
    assert_eq!(
        c.datetime(),
        Timestamp { unix_seconds: 1727545547, subsec_nanos: 0, utc_offset_seconds: 0 }
    );
    assert_eq!(c.rarity().tier, RarityTier::Common);
    assert_eq!(c.rarity().explanation, "");
}

#[test]
fn missing_timestamp_gives_nothing() {
    assert!(parse_commit("abc123").is_none());
    assert!(parse_commit("").is_none());
    assert!(parse_commit("   ").is_none());
}

#[test]
fn bad_timestamp_gives_nothing() {
    assert!(parse_commit("abc123 yesterday John Doe").is_none());
    assert!(parse_commit("abc123 2024-13-28T17:45:47+00:00 John Doe").is_none());
    assert!(parse_commit("abc123 2024-09-28 John Doe").is_none());
}

#[test]
fn keeps_offset_and_fraction() {
    let c = parse_commit("123456789f 2024-09-28T19:45:47.5+02:00 Jane").unwrap();
    assert_eq!(
        c.datetime(),
        Timestamp { unix_seconds: 1727545547, subsec_nanos: 500_000_000, utc_offset_seconds: 7200 }
    );
    assert_eq!(c.author(), "Jane");
    assert_eq!(c.rarity().tier, RarityTier::Uncommon);
}

#[test]
fn author_words_rejoined_with_single_spaces() {
    let c = parse_commit("  abc\t2024-09-28T17:45:47Z   John \t Q  Doe \r").unwrap();
    assert_eq!(c.hash(), "abc");
    assert_eq!(c.author(), "John Q Doe");
    assert_eq!(c.rarity().tier, RarityTier::Rare);
}

#[test]
fn author_may_be_missing_or_non_ascii() {
    let c = parse_commit("abc123 2024-09-28T17:45:47Z").unwrap();
    assert_eq!(c.author(), "");
    let c = parse_commit("abc123 2024-09-28T17:45:47Z Zoë\u{3000}Ünal").unwrap();
    assert_eq!(c.author(), "Zoë Ünal");
}

#[test]
fn new_record_is_classified_by_its_hash() {
    let t = Timestamp { unix_seconds: 0, subsec_nanos: 0, utc_offset_seconds: 0 };
    let c = Commit::new("aaaaaaaaa".to_string(), "A".to_string(), t);
    assert_eq!(c.rarity().tier, RarityTier::Rare);
    assert_eq!(c.rarity().explanation, "Starts with nine letters");
    let d = c.duplicate();
    assert_eq!(d.hash(), "aaaaaaaaa");
    assert_eq!(d.author(), "A");
    assert_eq!(d.datetime(), t);
}

#[test]
fn three_line_log() {
    let text = "e83c5163316f89bfbde7d9ab23ca2e25604af290 2024-09-28T17:45:47+00:00 John Doe\n\
                123456789c316f89bfbde7d9ab23ca2e25604af2 2024-09-29T10:00:00+01:00 Jane Roe\n\
                abc123\n";
    let commits = parse_log(text);
    assert_eq!(commits.len(), 2);
    assert_eq!(commits[0].author(), "John Doe");
    assert_eq!(commits[1].author(), "Jane Roe");
    assert_eq!(commits[1].rarity().explanation, "Starts with nine digits");
    let count = summarize(&commits);
    assert_eq!(count.total, 2);
    assert_eq!(count.common, 1);
    assert_eq!(count.uncommon, 1);
    assert_eq!(count.rare, 0);
}

#[test]
fn empty_log() {
    assert!(parse_log("").is_empty());
    assert!(parse_log("\n\n").is_empty());
}

#[test]
fn windows_line_ends() {
    let commits = parse_log("aaaaaaaaa1 2024-09-28T17:45:47Z Ann\r\nbbb 2024-09-28T17:45:47Z Bo\r\n");
    assert_eq!(commits.len(), 2);
    assert_eq!(commits[0].author(), "Ann");
    assert_eq!(commits[1].hash(), "bbb");
}
