//! Display order of the candidates: oldest tip commit first, branches of
//! equal age in the order in which they were found.

use vstd::prelude::*;
use crate::candidate::{
    candidates_of, choice_of, choice_views, collect_candidates, eligible,
    lemma_candidates_are_eligible, BranchChoice, BranchRecord, ChoiceView,
};
use crate::text::texts;
use vstd::set_lib::{lemma_int_range, lemma_set_subset_finite, lemma_subset_equality, set_int_range};

verus! {

/// No candidate stands before an older one.
pub open spec fn ordered_by_time(s: Seq<ChoiceView>) -> bool {
    forall|i: int, j: int| 0 <= i < j < s.len() ==> s[i].commit_time <= s[j].commit_time
}

/// `dst` holds the candidates of `src` from position `lo` on, each once:
/// `dst[i]` is `src[p[i]]`, and candidates of equal time keep the order they
/// have in `src`.
pub open spec fn arranges_from(src: Seq<ChoiceView>, dst: Seq<ChoiceView>, p: Seq<int>, lo: int) -> bool {
    &&& 0 <= lo <= src.len()
    &&& p.len() == src.len() - lo
    &&& dst.len() == p.len()
    &&& forall|i: int| 0 <= i < p.len() ==> lo <= #[trigger] p[i] < src.len()
    &&& forall|i: int, j: int| 0 <= i < j < p.len() ==> p[i] != p[j]
    &&& forall|i: int| 0 <= i < p.len() ==> #[trigger] dst[i] == src[p[i]]
    &&& forall|i: int, j: int|
        0 <= i < j < p.len() && dst[i].commit_time == dst[j].commit_time ==> p[i] < p[j]
}

/// `dst` is `src` sorted by commit time, oldest first, ties in their first order.
pub open spec fn stable_sorted(src: Seq<ChoiceView>, dst: Seq<ChoiceView>) -> bool {
    &&& ordered_by_time(dst)
    &&& exists|p: Seq<int>| arranges_from(src, dst, p, 0)
}

/// Placing `src[lo - 1]` before the first candidate that is not older keeps
/// the order and the arrangement.
proof fn lemma_place(src: Seq<ChoiceView>, dst: Seq<ChoiceView>, p: Seq<int>, lo: int, pos: int)
    requires
        arranges_from(src, dst, p, lo),
        ordered_by_time(dst),
        lo > 0,
        0 <= pos <= dst.len(),
        forall|j: int| 0 <= j < pos ==> dst[j].commit_time < src[lo - 1].commit_time,
        pos < dst.len() ==> dst[pos].commit_time >= src[lo - 1].commit_time,
    ensures
        arranges_from(src, dst.insert(pos, src[lo - 1]), p.insert(pos, lo - 1), lo - 1),
        ordered_by_time(dst.insert(pos, src[lo - 1])),
{
    let x = src[lo - 1];
    let grown = dst.insert(pos, x);
    let placed = p.insert(pos, lo - 1);
    assert(grown.len() == dst.len() + 1);
    assert(placed.len() == p.len() + 1);
    assert forall|i: int| 0 <= i < grown.len() implies grown[i] == (if i < pos {
        dst[i]
    } else if i == pos {
        x
    } else {
        dst[i - 1]
    }) && placed[i] == (if i < pos {
        p[i]
    } else if i == pos {
        lo - 1
    } else {
        p[i - 1]
    }) by {}
    assert forall|i: int, j: int| 0 <= i < j < grown.len() implies grown[i].commit_time
        <= grown[j].commit_time by {
        if j == pos {
        } else if i == pos {
            assert(dst[pos].commit_time <= dst[j - 1].commit_time || pos == j - 1);
        } else {
            let a = if i < pos { i } else { i - 1 };
            let b = if j < pos { j } else { j - 1 };
            assert(dst[a].commit_time <= dst[b].commit_time);
        }
    }
    assert forall|i: int| 0 <= i < placed.len() implies lo - 1 <= #[trigger] placed[i] < src.len() by {
        if i < pos {
            assert(lo <= p[i]);
        } else if i > pos {
            assert(lo <= p[i - 1]);
        }
    }
    assert forall|i: int, j: int| 0 <= i < j < placed.len() implies placed[i] != placed[j] by {
        let a = if i < pos { i } else { i - 1 };
        let b = if j < pos { j } else { j - 1 };
        if i == pos {
            assert(lo <= p[b]);
        } else if j == pos {
            assert(lo <= p[a]);
        } else {
            assert(p[a] != p[b]);
        }
    }
    assert forall|i: int| 0 <= i < placed.len() implies #[trigger] grown[i] == src[placed[i]] by {
        if i < pos {
            assert(dst[i] == src[p[i]]);
        } else if i > pos {
            assert(dst[i - 1] == src[p[i - 1]]);
        }
    }
    assert forall|i: int, j: int|
        0 <= i < j < placed.len() && grown[i].commit_time == grown[j].commit_time implies placed[i] < placed[j] by {
        let a = if i < pos { i } else { i - 1 };
        let b = if j < pos { j } else { j - 1 };
        if i == pos {
            assert(lo <= p[b]);
        } else if j == pos {
            assert(dst[i].commit_time < x.commit_time);
        } else {
            assert(p[a] < p[b]);
        }
    }
}

/// An arrangement of all of `src` takes every position of `src`.
proof fn lemma_arrangement_reaches(src: Seq<ChoiceView>, dst: Seq<ChoiceView>, p: Seq<int>, x: int)
    requires
        arranges_from(src, dst, p, 0),
        0 <= x < src.len(),
    ensures
        exists|m: int| 0 <= m < p.len() && p[m] == x,
{
    let range = set_int_range(0, src.len() as int);
    assert(p.no_duplicates()) by {
        assert forall|i: int, j: int| 0 <= i < p.len() && 0 <= j < p.len() && i != j implies p[i]
            != p[j] by {
            if i < j {
                assert(p[i] != p[j]);
            } else {
                assert(p[j] != p[i]);
            }
        }
    }
    p.unique_seq_to_set();
    lemma_int_range(0, src.len() as int);
    assert(p.to_set().subset_of(range)) by {
        assert forall|a: int| p.to_set().contains(a) implies range.contains(a) by {
            assert(p.contains(a));
            let i = choose|i: int| 0 <= i < p.len() && p[i] == a;
            assert(0 <= p[i] < src.len());
        }
    }
    lemma_set_subset_finite(range, p.to_set());
    lemma_subset_equality(p.to_set(), range);
    assert(range.contains(x));
    assert(p.to_set().contains(x));
    assert(p.contains(x));
}

/// Two arrangements that sort the same candidates agree at every position.
proof fn lemma_same_place(
    src: Seq<ChoiceView>,
    a: Seq<ChoiceView>,
    b: Seq<ChoiceView>,
    pa: Seq<int>,
    pb: Seq<int>,
    i: int,
)
    requires
        arranges_from(src, a, pa, 0),
        arranges_from(src, b, pb, 0),
        ordered_by_time(a),
        ordered_by_time(b),
        0 <= i < src.len(),
    ensures
        pa[i] == pb[i],
    decreases i,
{
    assert forall|k: int| 0 <= k < i implies pa[k] == pb[k] by {
        lemma_same_place(src, a, b, pa, pb, k);
    }
    let x = pa[i];
    let y = pb[i];
    if x != y {
        assert(0 <= pa[i] < src.len());
        assert(0 <= pb[i] < src.len());
        lemma_arrangement_reaches(src, b, pb, x);
        let m = choose|m: int| 0 <= m < pb.len() && pb[m] == x;
        lemma_arrangement_reaches(src, a, pa, y);
        let n = choose|n: int| 0 <= n < pa.len() && pa[n] == y;
        if m < i {
            assert(pa[m] == pb[m]);
            assert(pa[m] != pa[i]);
        }
        if n < i {
            assert(pa[n] == pb[n]);
            assert(pb[n] != pb[i]);
        }
        assert(i < m && i < n);
        assert(b[i] == src[pb[i]] && b[m] == src[pb[m]]);
        assert(a[i] == src[pa[i]] && a[n] == src[pa[n]]);
        assert(b[i].commit_time <= b[m].commit_time);
        assert(a[i].commit_time <= a[n].commit_time);
        assert(pb[i] < pb[m]);
        assert(pa[i] < pa[n]);
    }
}

/// Sorting is determined: the same candidates have one stable order by time.
pub proof fn lemma_stable_sort_unique(src: Seq<ChoiceView>, a: Seq<ChoiceView>, b: Seq<ChoiceView>)
    requires
        stable_sorted(src, a),
        stable_sorted(src, b),
    ensures
        a == b,
{
    let pa = choose|p: Seq<int>| arranges_from(src, a, p, 0);
    let pb = choose|p: Seq<int>| arranges_from(src, b, p, 0);
    assert forall|i: int| 0 <= i < a.len() implies a[i] == b[i] by {
        lemma_same_place(src, a, b, pa, pb, i);
        assert(a[i] == src[pa[i]]);
        assert(b[i] == src[pb[i]]);
    }
    assert(a =~= b);
}

/// Sorts candidates by the time of their tip commit, oldest first. Candidates
/// of equal time keep their relative order.
pub fn sort_by_commit_time(choices: Vec<BranchChoice>) -> (sorted: Vec<BranchChoice>)
    ensures
        stable_sorted(choice_views(choices@), choice_views(sorted@)),
        sorted@.len() == choices@.len(),
{
    let ghost src = choice_views(choices@);
    let mut rest = choices;
    let mut sorted: Vec<BranchChoice> = Vec::new();
    let ghost mut p: Seq<int> = Seq::empty();
    while rest.len() > 0
        invariant
            choice_views(rest@) == src.take(rest@.len() as int),
            rest@.len() <= src.len(),
            arranges_from(src, choice_views(sorted@), p, rest@.len() as int),
            ordered_by_time(choice_views(sorted@)),
        decreases rest@.len(),
    {
        let ghost lo = rest@.len() as int;
        let ghost before = choice_views(sorted@);
        let ghost rest_before = rest@;
        let item = rest.pop().unwrap();
        proof {
            assert(item@ == choice_views(rest_before)[lo - 1]);
            assert(item@ == src[lo - 1]);
            assert(choice_views(rest@) =~= src.take(lo - 1));
        }
        let mut pos: usize = 0;
        while pos < sorted.len() && sorted[pos].commit_time < item.commit_time
            invariant
                pos <= sorted.len(),
                before == choice_views(sorted@),
                forall|j: int| 0 <= j < pos ==> before[j].commit_time < item.commit_time,
            decreases sorted.len() - pos,
        {
            assert(before[pos as int] == sorted@[pos as int]@);
            pos += 1;
        }
        proof {
            if pos < sorted.len() {
                assert(before[pos as int] == sorted@[pos as int]@);
            }
            lemma_place(src, before, p, lo, pos as int);
            p = p.insert(pos as int, lo - 1);
        }
        sorted.insert(pos, item);
        proof {
            assert(choice_views(sorted@) =~= before.insert(pos as int, item@));
        }
    }
    sorted
}

/// Lists the branches that may be offered for deletion, in display order.
///
/// A branch is left out where it is the one checked out, where its name is
/// unreadable or among `excludes`, or where its tip resolves to no commit.
/// The others come oldest first, those of equal age in the order of
/// `records`.
pub fn get_branch_choices(records: &Vec<BranchRecord>, excludes: &Vec<String>) -> (choices: Vec<BranchChoice>)
    ensures
        stable_sorted(candidates_of(records@, texts(excludes@)), choice_views(choices@)),
        choices@.len() == candidates_of(records@, texts(excludes@)).len(),
        forall|k: int|
            0 <= k < choices.len() ==> !texts(excludes@).contains((#[trigger] choices[k])@.branch_name),
        forall|k: int|
            0 <= k < choices.len() ==> exists|j: int|
                0 <= j < records.len() && eligible(#[trigger] records[j], texts(excludes@))
                    && (#[trigger] choices[k])@ == choice_of(records[j]),
{
    let found = collect_candidates(records, excludes);
    let choices = sort_by_commit_time(found);
    proof {
        let ex = texts(excludes@);
        let cands = candidates_of(records@, ex);
        let p = choose|p: Seq<int>| arranges_from(cands, choice_views(choices@), p, 0);
        assert forall|k: int| 0 <= k < choices.len() implies !ex.contains(
            (#[trigger] choices[k])@.branch_name,
        ) && exists|j: int|
            0 <= j < records.len() && eligible(#[trigger] records[j], ex) && choices[k]@
                == choice_of(records[j]) by {
            assert(choice_views(choices@)[k] == cands[p[k]]);
            lemma_candidates_are_eligible(records@, ex, p[k]);
        }
    }
    choices
}

} // verus!
