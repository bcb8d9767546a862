//! Commit records: building one from a log line, and its classification.

use vstd::prelude::*;

use crate::rarity::{
    rarity_of, RareExpl, Rarity, RarityView, UncommonExpl,
};
use crate::text::{
    chars_of, join_words, line_spans, lines, span_texts, spans_within, word_spans, words,
};

verus! {

/// A point in time with the UTC offset it was written in.
#[derive(Clone, Copy, Debug, PartialEq, Eq, Structural)]
pub struct Timestamp {
    /// Whole seconds since 1970-01-01T00:00:00Z.
    pub unix_seconds: i64,
    /// Nanoseconds past the second.
    pub subsec_nanos: u32,
    /// Local time minus UTC, in seconds.
    pub utc_offset_seconds: i32,
}

/// What chrono reads from an RFC 3339 date-and-time: the seconds since the
/// epoch, the nanoseconds past them and the offset, or nothing where the text
/// is not such a value.
pub uninterp spec fn rfc3339_fields(s: Seq<char>) -> Option<(i64, u32, i32)>;

/// Relies on chrono's `DateTime::parse_from_rfc3339`, read through
/// `timestamp`, `timestamp_subsec_nanos` and `FixedOffset::local_minus_utc`:
/// the outcome depends on the text alone.
#[verifier::external_body]
fn parse_rfc3339(s: &str) -> (r: Option<(i64, u32, i32)>)
    ensures
        r == rfc3339_fields(s@),
{
    match chrono::DateTime::parse_from_rfc3339(s) {
        Ok(d) => Some((d.timestamp(), d.timestamp_subsec_nanos(), d.offset().local_minus_utc())),
        Err(_) => None,
    }
}

pub open spec fn timestamp_of(f: (i64, u32, i32)) -> Timestamp {
    Timestamp { unix_seconds: f.0, subsec_nanos: f.1, utc_offset_seconds: f.2 }
}

/// One commit of the history with the classification of its hash.
#[derive(Debug)]
pub struct Commit {
    author: String,
    datetime: Timestamp,
    hash: String,
    rarity: Rarity,
}

pub struct CommitView {
    pub author: Seq<char>,
    pub datetime: Timestamp,
    pub hash: Seq<char>,
    pub rarity: RarityView,
}

impl View for Commit {
    type V = CommitView;

    closed spec fn view(&self) -> CommitView {
        CommitView {
            author: self.author@,
            datetime: self.datetime,
            hash: self.hash@,
            rarity: self.rarity@,
        }
    }
}

/// The record that a log line describes: its first word is the hash, its
/// second an RFC 3339 timestamp, and the rest, joined by single spaces, the
/// author. A line with fewer than two words, or whose timestamp does not
/// parse, describes none.
pub open spec fn commit_of_line(line: Seq<char>) -> Option<CommitView> {
    let ws = words(line);
    if ws.len() < 2 {
        None
    } else {
        match rfc3339_fields(ws[1]) {
            None => None,
            Some(f) => Some(
                CommitView {
                    author: join_words(ws.skip(2)),
                    datetime: timestamp_of(f),
                    hash: ws[0],
                    rarity: rarity_of(ws[0]),
                },
            ),
        }
    }
}

impl Commit {
    /// The classification is always the one that the hash gives.
    pub open spec fn wf(&self) -> bool {
        self@.rarity == rarity_of(self@.hash)
    }

    pub fn new(hash: String, author: String, datetime: Timestamp) -> (r: Commit)
        ensures
            r@.hash == hash@,
            r@.author == author@,
            r@.datetime == datetime,
            r@.rarity == rarity_of(hash@),
            r.wf(),
    {
        let rarity = Self::get_rarity(hash.as_str());
        Commit { author, datetime, hash, rarity }
    }

    /// Classifies a hash by the first of the rarity rules that it matches.
    pub fn get_rarity(hash: &str) -> (r: Rarity)
        ensures
            r@ == rarity_of(hash@),
    {
        let cs = chars_of(hash);
        if UncommonExpl::is_starts_nine_digits(&cs) {
            Rarity::uncommon(UncommonExpl::StartsNineDigits)
        } else if UncommonExpl::is_ends_nine_digits(&cs) {
            Rarity::uncommon(UncommonExpl::EndsNineDigits)
        } else if UncommonExpl::is_contains_nine_continuous_digits(&cs) {
            Rarity::uncommon(UncommonExpl::ContainsNineContDigits)
        } else if RareExpl::is_starts_nine_letters(&cs) {
            Rarity::rare(RareExpl::StartsNineLetters)
        } else if RareExpl::is_ends_nine_letters(&cs) {
            Rarity::rare(RareExpl::EndsNineLetters)
        } else if RareExpl::is_contains_nine_continuous_letters(&cs) {
            Rarity::rare(RareExpl::ContainsNineContLetters)
        } else {
            Rarity::common()
        }
    }

    pub fn hash(&self) -> (r: &String)
        ensures
            r@ == self@.hash,
    {
        &self.hash
    }

    pub fn author(&self) -> (r: &String)
        ensures
            r@ == self@.author,
    {
        &self.author
    }

    pub fn datetime(&self) -> (r: Timestamp)
        ensures
            r == self@.datetime,
    {
        self.datetime
    }

    pub fn rarity(&self) -> (r: &Rarity)
        ensures
            r@ == self@.rarity,
    {
        &self.rarity
    }

    /// A copy of the record, equal to it in every field.
    pub fn duplicate(&self) -> (r: Commit)
        ensures
            r == *self,
    {
        Commit {
            author: self.author.clone(),
            datetime: self.datetime,
            hash: self.hash.clone(),
            rarity: self.rarity.duplicate(),
        }
    }
}

/// Two well-formed records with the same hash carry the same classification,
/// wherever and whenever each was built.
pub proof fn lemma_same_hash_same_rarity(a: Commit, b: Commit)
    requires
        a.wf(),
        b.wf(),
        a@.hash == b@.hash,
    ensures
        a@.rarity == b@.rarity,
{
}

/// The records that the lines describe, in order, leaving out the lines that
/// describe none.
pub open spec fn commits_of_lines(ls: Seq<Seq<char>>) -> Seq<CommitView>
    decreases ls.len(),
{
    if ls.len() == 0 {
        Seq::empty()
    } else {
        let before = commits_of_lines(ls.drop_last());
        match commit_of_line(ls.last()) {
            Some(c) => before.push(c),
            None => before,
        }
    }
}

/// Reads a whole log, one commit per line; lines that describe no commit are
/// left out.
pub fn parse_log(text: &str) -> (r: Vec<Commit>)
    ensures
        r@.map_values(|c: Commit| c@) == commits_of_lines(lines(text@)),
        forall|i: int| 0 <= i < r@.len() ==> (#[trigger] r@[i]).wf(),
{
    let cs = chars_of(text);
    let spans = line_spans(&cs);
    let ghost ls = lines(text@);
    let mut r: Vec<Commit> = Vec::new();
    let mut k: usize = 0;
    while k < spans.len()
        invariant
            cs@ == text@,
            spans_within(spans@, cs@.len() as int),
            k <= spans@.len(),
            ls == span_texts(cs@, spans@),
            r@.map_values(|c: Commit| c@) == commits_of_lines(ls.subrange(0, k as int)),
            forall|i: int| 0 <= i < r@.len() ==> (#[trigger] r@[i]).wf(),
        decreases spans@.len() - k,
    {
        let (a, b) = spans[k];
        assert(span_texts(cs@, spans@)[k as int] == ls[k as int]);
        assert(ls.subrange(0, k + 1).drop_last() =~= ls.subrange(0, k as int));
        let ghost prev = r@;
        match parse_commit(text.substring_char(a, b)) {
            Some(c) => {
                r.push(c);
                assert(r@.map_values(|c: Commit| c@) =~= prev.map_values(|c: Commit| c@).push(
                    r@.last()@,
                ));
            },
            None => {},
        }
        k = k + 1;
    }
    assert(ls.subrange(0, spans@.len() as int) =~= ls);
    r
}

/// Reads one line of the log: `<hash> <timestamp> <author...>`.
pub fn parse_commit(line: &str) -> (r: Option<Commit>)
    ensures
        match r {
            None => commit_of_line(line@) is None,
            Some(c) => commit_of_line(line@) == Some(c@) && c.wf(),
        },
{
    let cs = chars_of(line);
    let spans = word_spans(&cs);
    let ghost ws = words(line@);
    if spans.len() < 2 {
        return None;
    }
    let (hash_start, hash_end) = spans[0];
    let (time_start, time_end) = spans[1];
    assert(span_texts(cs@, spans@)[0] == ws[0]);
    assert(span_texts(cs@, spans@)[1] == ws[1]);
    let stamp = parse_rfc3339(line.substring_char(time_start, time_end));
    match stamp {
        None => None,
        Some(f) => {
            let hash = String::from_str(line.substring_char(hash_start, hash_end));
            let mut author = String::new();
            let mut k: usize = 2;
            while k < spans.len()
                invariant
                    cs@ == line@,
                    spans_within(spans@, cs@.len() as int),
                    2 <= k <= spans@.len(),
                    ws == span_texts(cs@, spans@),
                    author@ == join_words(ws.subrange(2, k as int)),
                decreases spans@.len() - k,
            {
                let (a, b) = spans[k];
                assert(span_texts(cs@, spans@)[k as int] == ws[k as int]);
                let ghost prev = author@;
                if k > 2 {
                    author.append(" ");
                    proof {
                        reveal_strlit(" ");
                    }
                }
                author.append(line.substring_char(a, b));
                let ghost sub = ws.subrange(2, k + 1);
                assert(sub.drop_last() =~= ws.subrange(2, k as int));
                if k == 2 {
                    assert(author@ =~= ws[2]);
                } else {
                    assert(author@ =~= prev + seq![' '] + ws[k as int]);
                }
                k = k + 1;
            }
            assert(ws.subrange(2, spans@.len() as int) =~= ws.skip(2));
            let ts = Timestamp { unix_seconds: f.0, subsec_nanos: f.1, utc_offset_seconds: f.2 };
            Some(Commit::new(hash, author, ts))
        },
    }
}

} // verus!
