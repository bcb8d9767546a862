//! The rarity rules: which hash patterns make a commit uncommon or rare.

use vstd::prelude::*;

verus! {

/// How unusual a commit hash looks, from least to most unusual.
#[derive(Clone, Copy, Debug, PartialEq, Eq, Structural)]
pub enum RarityTier {
    Common,
    Uncommon,
    Rare,
}

pub open spec fn is_digit(c: char) -> bool {
    '0' <= c && c <= '9'
}

pub open spec fn is_letter(c: char) -> bool {
    ('a' <= c && c <= 'z') || ('A' <= c && c <= 'Z')
}

/// Every one of the first nine characters (all of them, if fewer) is a digit.
pub open spec fn starts_nine_digits(h: Seq<char>) -> bool {
    forall|i: int| 0 <= i < h.len() && i < 9 ==> is_digit(#[trigger] h[i])
}

/// Every one of the last nine characters (all of them, if fewer) is a digit.
pub open spec fn ends_nine_digits(h: Seq<char>) -> bool {
    forall|i: int| 0 <= i < h.len() && h.len() - 9 <= i ==> is_digit(#[trigger] h[i])
}

/// Every one of the first nine characters (all of them, if fewer) is an ASCII letter.
pub open spec fn starts_nine_letters(h: Seq<char>) -> bool {
    forall|i: int| 0 <= i < h.len() && i < 9 ==> is_letter(#[trigger] h[i])
}

/// Every one of the last nine characters (all of them, if fewer) is an ASCII letter.
pub open spec fn ends_nine_letters(h: Seq<char>) -> bool {
    forall|i: int| 0 <= i < h.len() && h.len() - 9 <= i ==> is_letter(#[trigger] h[i])
}

/// `pat` occurs in `h` as a run of consecutive characters.
pub open spec fn contains_run(h: Seq<char>, pat: Seq<char>) -> bool {
    exists|i: int| 0 <= i && i + pat.len() <= h.len() && #[trigger] h.subrange(i, i + pat.len()) == pat
}

pub open spec fn nine_nines() -> Seq<char> {
    seq!['9', '9', '9', '9', '9', '9', '9', '9', '9']
}

pub open spec fn first_nine_letters() -> Seq<char> {
    seq!['a', 'b', 'c', 'd', 'e', 'f', 'g', 'h', 'i']
}

pub open spec fn contains_nine_nines(h: Seq<char>) -> bool {
    contains_run(h, nine_nines())
}

pub open spec fn contains_first_nine_letters(h: Seq<char>) -> bool {
    contains_run(h, first_nine_letters())
}

/// Why a hash counts as uncommon.
#[derive(Clone, Copy, Debug, PartialEq, Eq, Structural)]
pub enum UncommonExpl {
    StartsNineDigits,
    EndsNineDigits,
    ContainsNineContDigits,
}

/// Why a hash counts as rare.
#[derive(Clone, Copy, Debug, PartialEq, Eq, Structural)]
pub enum RareExpl {
    StartsNineLetters,
    EndsNineLetters,
    ContainsNineContLetters,
}

/// The classification of one hash: its tier, why, and the tier's weight.
#[derive(Debug)]
pub struct Rarity {
    pub explanation: String,
    pub frequency_per_mille: u32,
    pub tier: RarityTier,
}

pub struct RarityView {
    pub tier: RarityTier,
    pub explanation: Seq<char>,
    pub frequency_per_mille: u32,
}

impl View for Rarity {
    type V = RarityView;

    open spec fn view(&self) -> RarityView {
        RarityView {
            tier: self.tier,
            explanation: self.explanation@,
            frequency_per_mille: self.frequency_per_mille,
        }
    }
}

pub open spec fn uncommon_because(e: UncommonExpl) -> RarityView {
    RarityView {
        tier: RarityTier::Uncommon,
        explanation: e.spec_text(),
        frequency_per_mille: RarityTier::Uncommon.spec_frequency_per_mille(),
    }
}

pub open spec fn rare_because(e: RareExpl) -> RarityView {
    RarityView {
        tier: RarityTier::Rare,
        explanation: e.spec_text(),
        frequency_per_mille: RarityTier::Rare.spec_frequency_per_mille(),
    }
}

pub open spec fn common() -> RarityView {
    RarityView {
        tier: RarityTier::Common,
        explanation: Seq::empty(),
        frequency_per_mille: RarityTier::Common.spec_frequency_per_mille(),
    }
}

/// The classification of a hash: the first rule that matches decides.
pub open spec fn rarity_of(h: Seq<char>) -> RarityView {
    if starts_nine_digits(h) {
        uncommon_because(UncommonExpl::StartsNineDigits)
    } else if ends_nine_digits(h) {
        uncommon_because(UncommonExpl::EndsNineDigits)
    } else if contains_nine_nines(h) {
        uncommon_because(UncommonExpl::ContainsNineContDigits)
    } else if starts_nine_letters(h) {
        rare_because(RareExpl::StartsNineLetters)
    } else if ends_nine_letters(h) {
        rare_because(RareExpl::EndsNineLetters)
    } else if contains_first_nine_letters(h) {
        rare_because(RareExpl::ContainsNineContLetters)
    } else {
        common()
    }
}

/// A hash whose first nine characters (all of them, if fewer) are digits is
/// uncommon because it starts with nine digits: no rule comes before that one.
pub proof fn lemma_digit_start_is_uncommon(h: Seq<char>)
    requires
        forall|i: int| 0 <= i < h.len() && i < 9 ==> is_digit(#[trigger] h[i]),
    ensures
        rarity_of(h) == uncommon_because(UncommonExpl::StartsNineDigits),
        rarity_of(h).tier == RarityTier::Uncommon,
        rarity_of(h).explanation == "Starts with nine digits"@,
{
}

/// A hash that none of the digit or letter patterns matches is common, with an
/// empty explanation and a weight of 990 thousandths.
pub proof fn lemma_no_pattern_is_common(h: Seq<char>)
    requires
        !starts_nine_digits(h),
        !ends_nine_digits(h),
        !contains_nine_nines(h),
        !starts_nine_letters(h),
        !ends_nine_letters(h),
        !contains_first_nine_letters(h),
    ensures
        rarity_of(h).tier == RarityTier::Common,
        rarity_of(h).explanation == Seq::<char>::empty(),
        rarity_of(h).frequency_per_mille == 990,
{
}

/// The classification depends on the hash's characters alone: equal hashes
/// are classified alike.
pub proof fn lemma_classification_depends_on_hash_alone(a: Seq<char>, b: Seq<char>)
    requires
        a == b,
    ensures
        rarity_of(a) == rarity_of(b),
{
}

impl Rarity {
    pub fn uncommon(e: UncommonExpl) -> (r: Rarity)
        ensures
            r@ == uncommon_because(e),
    {
        Rarity {
            explanation: e.text(),
            frequency_per_mille: RarityTier::Uncommon.frequency_per_mille(),
            tier: RarityTier::Uncommon,
        }
    }

    pub fn rare(e: RareExpl) -> (r: Rarity)
        ensures
            r@ == rare_because(e),
    {
        Rarity {
            explanation: e.text(),
            frequency_per_mille: RarityTier::Rare.frequency_per_mille(),
            tier: RarityTier::Rare,
        }
    }

    pub fn common() -> (r: Rarity)
        ensures
            r@ == common(),
    {
        Rarity {
            explanation: String::new(),
            frequency_per_mille: RarityTier::Common.frequency_per_mille(),
            tier: RarityTier::Common,
        }
    }

    pub fn duplicate(&self) -> (r: Rarity)
        ensures
            r == *self,
    {
        Rarity {
            explanation: self.explanation.clone(),
            frequency_per_mille: self.frequency_per_mille,
            tier: self.tier,
        }
    }
}

impl RarityTier {
    /// The illustrative weight of the tier, in thousandths.
    pub open spec fn spec_frequency_per_mille(self) -> u32 {
        match self {
            RarityTier::Common => 990,
            RarityTier::Uncommon => 10,
            RarityTier::Rare => 1,
        }
    }

    pub fn frequency_per_mille(&self) -> (r: u32)
        ensures
            r == self.spec_frequency_per_mille(),
    {
        match self {
            RarityTier::Common => 990,
            RarityTier::Uncommon => 10,
            RarityTier::Rare => 1,
        }
    }

    pub open spec fn spec_name(self) -> Seq<char> {
        match self {
            RarityTier::Common => "Common"@,
            RarityTier::Uncommon => "Uncommon"@,
            RarityTier::Rare => "Rare"@,
        }
    }

    /// The tier's name as shown to users.
    pub fn name(&self) -> (r: String)
        ensures
            r@ == self.spec_name(),
    {
        match self {
            RarityTier::Common => String::from_str("Common"),
            RarityTier::Uncommon => String::from_str("Uncommon"),
            RarityTier::Rare => String::from_str("Rare"),
        }
    }
}

impl UncommonExpl {
    pub open spec fn spec_text(self) -> Seq<char> {
        match self {
            UncommonExpl::StartsNineDigits => "Starts with nine digits"@,
            UncommonExpl::EndsNineDigits => "Ends with nine digits"@,
            UncommonExpl::ContainsNineContDigits => "Contains nine continuous digits"@,
        }
    }

    pub fn text(&self) -> (r: String)
        ensures
            r@ == self.spec_text(),
    {
        match self {
            UncommonExpl::StartsNineDigits => String::from_str("Starts with nine digits"),
            UncommonExpl::EndsNineDigits => String::from_str("Ends with nine digits"),
            UncommonExpl::ContainsNineContDigits => String::from_str(
                "Contains nine continuous digits",
            ),
        }
    }

    pub fn is_starts_nine_digits(hash: &Vec<char>) -> (r: bool)
        ensures
            r == starts_nine_digits(hash@),
    {
        let n: usize = if hash.len() < 9 { hash.len() } else { 9 };
        let mut i: usize = 0;
        while i < n
            invariant
                n <= hash@.len(),
                n == hash@.len() || n == 9,
                n <= 9,
                i <= n,
                forall|k: int| 0 <= k < i ==> is_digit(#[trigger] hash@[k]),
            decreases n - i,
        {
            if !char_is_digit(hash[i]) {
                assert(!is_digit(hash@[i as int]));
                return false;
            }
            i = i + 1;
        }
        true
    }

    pub fn is_ends_nine_digits(hash: &Vec<char>) -> (r: bool)
        ensures
            r == ends_nine_digits(hash@),
    {
        let start: usize = if hash.len() < 9 { 0 } else { hash.len() - 9 };
        let mut i: usize = start;
        while i < hash.len()
            invariant
                start <= i <= hash@.len(),
                start == 0 || start == hash@.len() - 9,
                hash@.len() >= 9 ==> start == hash@.len() - 9,
                forall|k: int| start <= k < i ==> is_digit(#[trigger] hash@[k]),
            decreases hash@.len() - i,
        {
            if !char_is_digit(hash[i]) {
                assert(!is_digit(hash@[i as int]));
                return false;
            }
            i = i + 1;
        }
        true
    }

    pub fn is_contains_nine_continuous_digits(hash: &Vec<char>) -> (r: bool)
        ensures
            r == contains_nine_nines(hash@),
    {
        let pat: Vec<char> = vec!['9', '9', '9', '9', '9', '9', '9', '9', '9'];
        assert(pat@ =~= nine_nines());
        contains_pattern(hash, &pat)
    }
}

impl RareExpl {
    pub open spec fn spec_text(self) -> Seq<char> {
        match self {
            RareExpl::StartsNineLetters => "Starts with nine letters"@,
            RareExpl::EndsNineLetters => "Ends with nine letters"@,
            RareExpl::ContainsNineContLetters => "Contains nine continuous letters"@,
        }
    }

    pub fn text(&self) -> (r: String)
        ensures
            r@ == self.spec_text(),
    {
        match self {
            RareExpl::StartsNineLetters => String::from_str("Starts with nine letters"),
            RareExpl::EndsNineLetters => String::from_str("Ends with nine letters"),
            RareExpl::ContainsNineContLetters => String::from_str(
                "Contains nine continuous letters",
            ),
        }
    }

    pub fn is_starts_nine_letters(hash: &Vec<char>) -> (r: bool)
        ensures
            r == starts_nine_letters(hash@),
    {
        let n: usize = if hash.len() < 9 { hash.len() } else { 9 };
        let mut i: usize = 0;
        while i < n
            invariant
                n <= hash@.len(),
                n == hash@.len() || n == 9,
                n <= 9,
                i <= n,
                forall|k: int| 0 <= k < i ==> is_letter(#[trigger] hash@[k]),
            decreases n - i,
        {
            if !char_is_letter(hash[i]) {
                assert(!is_letter(hash@[i as int]));
                return false;
            }
            i = i + 1;
        }
        true
    }

    pub fn is_ends_nine_letters(hash: &Vec<char>) -> (r: bool)
        ensures
            r == ends_nine_letters(hash@),
    {
        let start: usize = if hash.len() < 9 { 0 } else { hash.len() - 9 };
        let mut i: usize = start;
        while i < hash.len()
            invariant
                start <= i <= hash@.len(),
                start == 0 || start == hash@.len() - 9,
                hash@.len() >= 9 ==> start == hash@.len() - 9,
                forall|k: int| start <= k < i ==> is_letter(#[trigger] hash@[k]),
            decreases hash@.len() - i,
        {
            if !char_is_letter(hash[i]) {
                assert(!is_letter(hash@[i as int]));
                return false;
            }
            i = i + 1;
        }
        true
    }

    pub fn is_contains_nine_continuous_letters(hash: &Vec<char>) -> (r: bool)
        ensures
            r == contains_first_nine_letters(hash@),
    {
        let pat: Vec<char> = vec!['a', 'b', 'c', 'd', 'e', 'f', 'g', 'h', 'i'];
        assert(pat@ =~= first_nine_letters());
        contains_pattern(hash, &pat)
    }
}

fn char_is_digit(c: char) -> (r: bool)
    ensures
        r == is_digit(c),
{
    '0' <= c && c <= '9'
}

fn char_is_letter(c: char) -> (r: bool)
    ensures
        r == is_letter(c),
{
    ('a' <= c && c <= 'z') || ('A' <= c && c <= 'Z')
}

/// Searches `hash` for `pat` as a run of consecutive characters.
pub fn contains_pattern(hash: &Vec<char>, pat: &Vec<char>) -> (r: bool)
    ensures
        r == contains_run(hash@, pat@),
{
    if pat.len() > hash.len() {
        return false;
    }
    let hlen: usize = hash.len();
    let last: usize = hlen - pat.len();
    let mut i: usize = 0;
    loop
        invariant
            last == hash@.len() - pat@.len(),
            hlen == hash@.len(),
            i <= last,
            forall|j: int| 0 <= j < i ==> #[trigger] hash@.subrange(j, j + pat@.len()) != pat@,
        decreases last - i,
    {
        let mut k: usize = 0;
        let mut same: bool = true;
        while k < pat.len()
            invariant
                i <= last,
                last == hash@.len() - pat@.len(),
                k <= pat@.len(),
                i + pat@.len() <= hash@.len(),
                hlen == hash@.len(),
                same ==> forall|m: int| 0 <= m < k ==> hash@[i + m] == pat@[m],
                !same ==> hash@.subrange(i as int, i + pat@.len()) != pat@,
            decreases pat@.len() - k,
        {
            if hash[i + k] != pat[k] {
                assert(hash@.subrange(i as int, i + pat@.len())[k as int] != pat@[k as int]);
                same = false;
            }
            k = k + 1;
        }
        if same {
            assert(hash@.subrange(i as int, i + pat@.len()) =~= pat@);
            return true;
        }
        if i == last {
            assert forall|j: int|
                0 <= j && j + pat@.len() <= hash@.len() implies #[trigger] hash@.subrange(
                j,
                j + pat@.len(),
            ) != pat@ by {
                assert(j <= i);
            }
            return false;
        }
        i = i + 1;
    }
}

} // verus!
