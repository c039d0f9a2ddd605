//! The retention engine: given a listing of existing artifacts and a
//! keep count, decide which artifacts the rotation pass deletes.

use vstd::prelude::*;
use vstd::multiset::Multiset;
use crate::artifact::{Artifact, ArtifactModel, views_of};
use crate::listing::{line_views, parse_listing, spec_lines, split_listing_lines, valid_entries};

verus! {

broadcast use {vstd::seq_lib::group_to_multiset_ensures, vstd::multiset::group_multiset_axioms};

/// How many artifacts a rotation pass deletes out of `total` when the
/// policy keeps the `keep` most recent ones.
pub open spec fn deletion_count(total: nat, keep: nat) -> nat {
    if total > keep {
        (total - keep) as nat
    } else {
        0
    }
}

/// Weak ascending order by creation time.
pub open spec fn sorted_ascending(s: Seq<ArtifactModel>) -> bool {
    forall|i: int, j: int|
        0 <= i <= j < s.len() ==> #[trigger] s[i].created_at.le(#[trigger] s[j].created_at)
}

/// Decides which artifacts to delete: everything but the `keep_count`
/// most recent ones.  Ties in the creation time are broken
/// deterministically, by the order of the listing.  The victims come
/// back oldest first.
///
/// The contract pins the result down: it deletes exactly
/// `deletion_count` artifacts, each taken from the listing, no victim is
/// newer than any survivor, and a keep count of zero selects the whole
/// listing.
pub fn select_for_deletion(listing: Vec<Artifact>, keep_count: usize) -> (victims: Vec<Artifact>)
    ensures
        victims@.len() == deletion_count(listing@.len() as nat, keep_count as nat),
        views_of(victims@).to_multiset().subset_of(views_of(listing@).to_multiset()),
        sorted_ascending(views_of(victims@)),
        forall|d: ArtifactModel, s: ArtifactModel|
            views_of(victims@).to_multiset().count(d) > 0 && views_of(listing@).to_multiset().sub(
                views_of(victims@).to_multiset(),
            ).count(s) > 0 ==> #[trigger] d.created_at.le(#[trigger] s.created_at),
        keep_count == 0 ==> views_of(victims@).to_multiset() == views_of(listing@).to_multiset(),
{
    let ghost orig: Seq<ArtifactModel> = views_of(listing@);
    let total: usize = listing.len();
    let mut rest = listing;
    let mut sorted: Vec<Artifact> = Vec::new();
    while rest.len() > 0
        invariant
            sorted_ascending(views_of(sorted@)),
            views_of(sorted@).to_multiset().add(views_of(rest@).to_multiset()) == orig.to_multiset(),
            sorted@.len() + rest@.len() == orig.len(),
        decreases rest@.len(),
    {
        let ghost pre_rest = rest@;
        let a = rest.remove(0);
        proof {
            assert(views_of(pre_rest) =~= seq![a@] + views_of(rest@));
            vstd::seq_lib::lemma_multiset_commutative(seq![a@], views_of(rest@));
            assert(seq![a@] =~= Seq::<ArtifactModel>::empty().push(a@));
            assert(Seq::<ArtifactModel>::empty().to_multiset() =~= Multiset::<ArtifactModel>::empty());
            assert(seq![a@].to_multiset() =~= Multiset::<ArtifactModel>::empty().insert(a@));
            assert(views_of(pre_rest).to_multiset() =~= views_of(rest@).to_multiset().insert(a@));
        }
        let mut p: usize = 0;
        while p < sorted.len() && sorted[p].created_at.is_le(&a.created_at)
            invariant
                p <= sorted@.len(),
                forall|j: int| 0 <= j < p ==> #[trigger] sorted@[j].created_at.le(a.created_at),
            decreases sorted@.len() - p,
        {
            p = p + 1;
        }
        let ghost pre_sorted = sorted@;
        sorted.insert(p, a);
        proof {
            assert(sorted@ =~= pre_sorted.insert(p as int, a));
            assert(views_of(sorted@) =~= views_of(pre_sorted).insert(p as int, a@));
            assert(sorted_ascending(views_of(sorted@))) by {
                assert forall|i: int, j: int| 0 <= i <= j < views_of(sorted@).len() implies
                    views_of(sorted@)[i].created_at.le(views_of(sorted@)[j].created_at) by {
                    let vs = views_of(sorted@);
                    let old_vs = views_of(pre_sorted);
                    if i == j {
                    } else if j < p {
                        assert(vs[i] == old_vs[i] && vs[j] == old_vs[j]);
                    } else if i > p {
                        assert(vs[i] == old_vs[i - 1] && vs[j] == old_vs[j - 1]);
                    } else if i < p && j == p {
                        assert(vs[i] == old_vs[i]);
                        assert(old_vs[i].created_at == pre_sorted[i].created_at);
                    } else if i == p {
                        // a sits at p; everything at or after p in the old
                        // sequence is strictly newer than a
                        assert(vs[j] == old_vs[j - 1]);
                        if p < pre_sorted.len() {
                            assert(!pre_sorted[p as int].created_at.le(a.created_at));
                            assert(a.created_at.le(old_vs[p as int].created_at));
                            assert(old_vs[p as int].created_at.le(old_vs[j - 1].created_at));
                        }
                    } else {
                        // i < p < j
                        assert(vs[i] == old_vs[i] && vs[j] == old_vs[j - 1]);
                        assert(old_vs[i].created_at.le(a.created_at));
                        if p < pre_sorted.len() {
                            assert(a.created_at.le(old_vs[p as int].created_at));
                            assert(old_vs[p as int].created_at.le(old_vs[j - 1].created_at));
                        }
                    }
                }
            }
            assert(views_of(sorted@).to_multiset() =~= views_of(pre_sorted).to_multiset().insert(a@));
            assert(views_of(sorted@).to_multiset().add(views_of(rest@).to_multiset()) =~= orig.to_multiset());
        }
    }
    assert(views_of(rest@) =~= Seq::<ArtifactModel>::empty());
    assert(views_of(sorted@).to_multiset() =~= orig.to_multiset());
    let del: usize = if total > keep_count {
        total - keep_count
    } else {
        0
    };
    let ghost full = sorted@;
    let mut victims = sorted;
    victims.truncate(del);
    proof {
        let vf = views_of(full);
        let kept = vf.subrange(del as int, vf.len() as int);
        assert(views_of(victims@) =~= vf.subrange(0, del as int));
        assert(vf =~= vf.subrange(0, del as int) + kept);
        vstd::seq_lib::lemma_multiset_commutative(vf.subrange(0, del as int), kept);
        assert(views_of(victims@).to_multiset().add(kept.to_multiset()) == vf.to_multiset());
        assert forall|d: ArtifactModel, s: ArtifactModel|
            views_of(victims@).to_multiset().count(d) > 0 && views_of(listing@).to_multiset().sub(
                views_of(victims@).to_multiset(),
            ).count(s) > 0 implies d.created_at.le(s.created_at) by {
            assert(views_of(victims@).contains(d));
            let i = choose|i: int| 0 <= i < del && views_of(victims@)[i] == d;
            assert(kept.to_multiset().count(s) > 0);
            assert(kept.contains(s));
            let j = choose|j: int| 0 <= j < kept.len() && kept[j] == s;
            assert(vf[i] == d);
            assert(vf[del + j] == s);
            assert(sorted_ascending(vf));
        }
        if keep_count == 0 {
            assert(views_of(victims@) =~= vf);
        }
    }
    victims
}

/// One whole rotation decision, from the raw listing lines.
pub struct RotationPlan {
    /// The artifacts to delete, oldest first.
    pub victims: Vec<Artifact>,
    /// How many listing lines did not parse and were skipped.
    pub skipped: usize,
}

/// Decides a whole rotation pass from the raw lines of a storage
/// listing: lines that do not parse are skipped, never fatal, and never
/// selected; of the artifacts that parse, everything but the
/// `keep_count` most recent is selected for deletion.
pub fn plan_rotation(lines: &Vec<String>, keep_count: usize) -> (plan: RotationPlan)
    ensures
        plan.victims@.len() == deletion_count(
            valid_entries(line_views(lines@)).len(),
            keep_count as nat,
        ),
        views_of(plan.victims@).to_multiset().subset_of(
            valid_entries(line_views(lines@)).to_multiset(),
        ),
        sorted_ascending(views_of(plan.victims@)),
        forall|d: ArtifactModel, s: ArtifactModel|
            views_of(plan.victims@).to_multiset().count(d) > 0 && valid_entries(
                line_views(lines@),
            ).to_multiset().sub(views_of(plan.victims@).to_multiset()).count(s) > 0
                ==> #[trigger] d.created_at.le(#[trigger] s.created_at),
        plan.skipped + valid_entries(line_views(lines@)).len() == lines@.len(),
        keep_count == 0 ==> views_of(plan.victims@).to_multiset() == valid_entries(
            line_views(lines@),
        ).to_multiset(),
{
    let (arts, skipped) = parse_listing(lines);
    let victims = select_for_deletion(arts, keep_count);
    RotationPlan { victims, skipped }
}

/// Decides a whole rotation pass from the raw text of a storage
/// listing, as [`plan_rotation`] does after splitting it into lines.
pub fn plan_rotation_text(text: &str, keep_count: usize) -> (plan: RotationPlan)
    ensures
        plan.victims@.len() == deletion_count(
            valid_entries(spec_lines(text@)).len(),
            keep_count as nat,
        ),
        views_of(plan.victims@).to_multiset().subset_of(
            valid_entries(spec_lines(text@)).to_multiset(),
        ),
        sorted_ascending(views_of(plan.victims@)),
        forall|d: ArtifactModel, s: ArtifactModel|
            views_of(plan.victims@).to_multiset().count(d) > 0 && valid_entries(
                spec_lines(text@),
            ).to_multiset().sub(views_of(plan.victims@).to_multiset()).count(s) > 0
                ==> #[trigger] d.created_at.le(#[trigger] s.created_at),
        plan.skipped + valid_entries(spec_lines(text@)).len() == spec_lines(text@).len(),
        keep_count == 0 ==> views_of(plan.victims@).to_multiset() == valid_entries(
            spec_lines(text@),
        ).to_multiset(),
{
    let lines = split_listing_lines(text);
    plan_rotation(&lines, keep_count)
}

/// Rotation is idempotent.  A rotation pass over a listing of `total`
/// valid artifacts deletes `deletion_count(total, keep)` of them; once
/// those deletions have actually occurred, a second pass over what
/// remains, with the same keep count, selects nothing.
pub proof fn lemma_rotation_idempotent(total: nat, keep: nat)
    ensures
        deletion_count((total - deletion_count(total, keep)) as nat, keep) == 0,
{
}

} // verus!
