//! Views over a collection of commits: filters by tier and the count summary.

use vstd::prelude::*;

use crate::commit::Commit;
use crate::rarity::RarityTier;

verus! {

/// How many commits there are in all and in each tier.
#[derive(Clone, Copy, Debug, PartialEq, Eq, Structural)]
pub struct Count {
    pub total: usize,
    pub common: usize,
    pub uncommon: usize,
    pub rare: usize,
}

pub open spec fn in_tier(tier: RarityTier) -> spec_fn(Commit) -> bool {
    |c: Commit| c@.rarity.tier == tier
}

pub open spec fn not_common() -> spec_fn(Commit) -> bool {
    |c: Commit| c@.rarity.tier != RarityTier::Common
}

/// The number of commits of `cs` in the tier.
pub open spec fn tier_count(cs: Seq<Commit>, tier: RarityTier) -> nat {
    cs.filter(in_tier(tier)).len()
}

/// Filtering a prefix that is one commit longer adds that commit exactly when
/// `p` accepts it.
proof fn lemma_filter_step(cs: Seq<Commit>, p: spec_fn(Commit) -> bool, i: int)
    requires
        0 <= i < cs.len(),
    ensures
        cs.subrange(0, i + 1).filter(p) == if p(cs[i]) {
            cs.subrange(0, i).filter(p).push(cs[i])
        } else {
            cs.subrange(0, i).filter(p)
        },
{
    reveal(Seq::filter);
    assert(cs.subrange(0, i + 1).drop_last() =~= cs.subrange(0, i));
}

/// The commits of the tier, in their order.
pub fn filter_by_tier(commits: &Vec<Commit>, tier: RarityTier) -> (r: Vec<Commit>)
    ensures
        r@ == commits@.filter(in_tier(tier)),
{
    let mut r: Vec<Commit> = Vec::new();
    let mut i: usize = 0;
    while i < commits.len()
        invariant
            i <= commits@.len(),
            r@ == commits@.subrange(0, i as int).filter(in_tier(tier)),
        decreases commits@.len() - i,
    {
        proof {
            lemma_filter_step(commits@, in_tier(tier), i as int);
        }
        if commits[i].rarity().tier == tier {
            r.push(commits[i].duplicate());
        }
        i = i + 1;
    }
    assert(commits@.subrange(0, i as int) =~= commits@);
    r
}

/// The commits that are uncommon or rare, in their order.
pub fn filter_not_common(commits: &Vec<Commit>) -> (r: Vec<Commit>)
    ensures
        r@ == commits@.filter(not_common()),
{
    let mut r: Vec<Commit> = Vec::new();
    let mut i: usize = 0;
    while i < commits.len()
        invariant
            i <= commits@.len(),
            r@ == commits@.subrange(0, i as int).filter(not_common()),
        decreases commits@.len() - i,
    {
        proof {
            lemma_filter_step(commits@, not_common(), i as int);
        }
        if commits[i].rarity().tier != RarityTier::Common {
            r.push(commits[i].duplicate());
        }
        i = i + 1;
    }
    assert(commits@.subrange(0, i as int) =~= commits@);
    r
}

/// Counts the commits, in all and by tier, in one pass.
pub fn summarize(commits: &Vec<Commit>) -> (r: Count)
    ensures
        r.total == commits@.len(),
        r.common == tier_count(commits@, RarityTier::Common),
        r.uncommon == tier_count(commits@, RarityTier::Uncommon),
        r.rare == tier_count(commits@, RarityTier::Rare),
{
    let mut common: usize = 0;
    let mut uncommon: usize = 0;
    let mut rare: usize = 0;
    let mut i: usize = 0;
    while i < commits.len()
        invariant
            i <= commits@.len(),
            common == tier_count(commits@.subrange(0, i as int), RarityTier::Common),
            uncommon == tier_count(commits@.subrange(0, i as int), RarityTier::Uncommon),
            rare == tier_count(commits@.subrange(0, i as int), RarityTier::Rare),
            common + uncommon + rare == i,
        decreases commits@.len() - i,
    {
        proof {
            lemma_filter_step(commits@, in_tier(RarityTier::Common), i as int);
            lemma_filter_step(commits@, in_tier(RarityTier::Uncommon), i as int);
            lemma_filter_step(commits@, in_tier(RarityTier::Rare), i as int);
        }
        match commits[i].rarity().tier {
            RarityTier::Common => common = common + 1,
            RarityTier::Uncommon => uncommon = uncommon + 1,
            RarityTier::Rare => rare = rare + 1,
        }
        i = i + 1;
    }
    assert(commits@.subrange(0, i as int) =~= commits@);
    Count { total: commits.len(), common, uncommon, rare }
}

/// Filtering by `p` and then by a narrower `q` keeps what filtering by `q`
/// alone keeps.
proof fn lemma_filter_narrower(cs: Seq<Commit>, p: spec_fn(Commit) -> bool, q: spec_fn(Commit) -> bool)
    requires
        forall|c: Commit| #[trigger] q(c) ==> p(c),
    ensures
        cs.filter(p).filter(q) == cs.filter(q),
    decreases cs.len(),
{
    reveal(Seq::filter);
    if cs.len() > 0 {
        lemma_filter_narrower(cs.drop_last(), p, q);
        let c = cs.last();
        if p(c) {
            assert(cs.filter(p).drop_last() =~= cs.drop_last().filter(p));
        }
    }
}

/// Every commit lies in exactly one tier, so the three tier counts add up to
/// the number of commits.
pub proof fn lemma_tier_counts_add_up(cs: Seq<Commit>)
    ensures
        tier_count(cs, RarityTier::Common) + tier_count(cs, RarityTier::Uncommon) + tier_count(
            cs,
            RarityTier::Rare,
        ) == cs.len(),
    decreases cs.len(),
{
    reveal(Seq::filter);
    if cs.len() > 0 {
        lemma_tier_counts_add_up(cs.drop_last());
    }
}

/// Every commit that the filter by a tier keeps is of that tier, and it keeps
/// as many as the summary counts for the tier.
pub proof fn lemma_tier_filter_agrees_with_count(cs: Seq<Commit>, tier: RarityTier)
    ensures
        forall|i: int|
            0 <= i < cs.filter(in_tier(tier)).len() ==> (#[trigger] cs.filter(in_tier(tier))[i])@.rarity.tier
                == tier,
        cs.filter(in_tier(tier)).len() == tier_count(cs, tier),
{
    broadcast use Seq::lemma_filter_pred;
}

/// The commits that are not common are the uncommon ones and the rare ones,
/// each in their original order: filtering them by either tier gives what
/// filtering all commits by it gives, none of them is common, and there are as
/// many as the uncommon and rare counts together.
pub proof fn lemma_not_common_splits(cs: Seq<Commit>)
    ensures
        cs.filter(not_common()).filter(in_tier(RarityTier::Uncommon)) == cs.filter(
            in_tier(RarityTier::Uncommon),
        ),
        cs.filter(not_common()).filter(in_tier(RarityTier::Rare)) == cs.filter(
            in_tier(RarityTier::Rare),
        ),
        tier_count(cs.filter(not_common()), RarityTier::Common) == 0,
        cs.filter(not_common()).len() == tier_count(cs, RarityTier::Uncommon) + tier_count(
            cs,
            RarityTier::Rare,
        ),
{
    lemma_filter_narrower(cs, not_common(), in_tier(RarityTier::Uncommon));
    lemma_filter_narrower(cs, not_common(), in_tier(RarityTier::Rare));
    lemma_no_common_left(cs);
    lemma_tier_counts_add_up(cs.filter(not_common()));
}

proof fn lemma_no_common_left(cs: Seq<Commit>)
    ensures
        tier_count(cs.filter(not_common()), RarityTier::Common) == 0,
    decreases cs.len(),
{
    reveal(Seq::filter);
    if cs.len() > 0 {
        lemma_no_common_left(cs.drop_last());
        if not_common()(cs.last()) {
            assert(cs.filter(not_common()).drop_last() =~= cs.drop_last().filter(not_common()));
        }
    }
}

} // verus!
