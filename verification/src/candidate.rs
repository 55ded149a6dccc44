//! Branch candidates: which local branches may be offered for deletion, and
//! what is recorded of each.

use vstd::prelude::*;
use vstd::string::*;
use crate::text::{
    copy_opt, find_first, first_position, head_to, is_listed, lemma_first_position_unique, opt_text,
    texts,
};

verus! {

/// What is known of the commit a branch points at.
#[derive(Clone, Debug, PartialEq, Eq)]
pub struct TipCommit {
    /// Commit time in seconds since the Unix epoch, as the repository stores it.
    pub seconds: i64,
    /// The author's display name, where the commit carries a readable one.
    pub author_name: Option<String>,
    /// The author's email address, where the commit carries a readable one.
    pub author_email: Option<String>,
}

/// One local branch, as the repository describes it.
#[derive(Clone, Debug, PartialEq, Eq)]
pub struct BranchRecord {
    /// The branch name, absent where it cannot be read as text.
    pub name: Option<String>,
    /// Whether this very branch is the one checked out. A detached or
    /// unresolvable HEAD marks no branch.
    pub is_head: bool,
    /// The name of the remote branch it tracks, absent where it tracks none
    /// or the tracking reference cannot be resolved. The name is empty where
    /// the branch tracks one whose name cannot be read as text.
    pub upstream_name: Option<String>,
    /// The tip commit, absent where the tip does not resolve to a commit.
    pub tip: Option<TipCommit>,
}

/// A local branch that may be offered for deletion.
#[derive(Clone, Debug, PartialEq, Eq)]
pub struct BranchChoice {
    pub branch_name: String,
    pub upstream_name: Option<String>,
    pub author_name: Option<String>,
    /// Time of the tip commit, in seconds since the Unix epoch.
    pub commit_time: u64,
}

/// The mathematical content of a `BranchChoice`.
pub struct ChoiceView {
    pub branch_name: Seq<char>,
    pub upstream_name: Option<Seq<char>>,
    pub author_name: Option<Seq<char>>,
    pub commit_time: u64,
}

impl View for BranchChoice {
    type V = ChoiceView;

    open spec fn view(&self) -> ChoiceView {
        ChoiceView {
            branch_name: self.branch_name@,
            upstream_name: opt_text(self.upstream_name),
            author_name: opt_text(self.author_name),
            commit_time: self.commit_time,
        }
    }
}

impl BranchChoice {
    /// A copy of this candidate.
    pub fn duplicate(&self) -> (r: BranchChoice)
        ensures
            r@ == self@,
    {
        BranchChoice {
            branch_name: self.branch_name.clone(),
            upstream_name: copy_opt(&self.upstream_name),
            author_name: copy_opt(&self.author_name),
            commit_time: self.commit_time,
        }
    }
}

/// The content of each candidate of a list.
pub open spec fn choice_views(s: Seq<BranchChoice>) -> Seq<ChoiceView> {
    s.map_values(|c: BranchChoice| c@)
}

/// The branch names that are never offered: `master`, `main`, `develop`,
/// `development`.
pub open spec fn protected_set() -> Seq<Seq<char>> {
    seq!["master"@, "main"@, "develop"@, "development"@]
}

/// The protected branch names, compared exactly and with case.
pub fn protected_names() -> (names: Vec<String>)
    ensures
        texts(names@) == protected_set(),
{
    let mut names: Vec<String> = Vec::new();
    names.push(String::from_str("master"));
    names.push(String::from_str("main"));
    names.push(String::from_str("develop"));
    names.push(String::from_str("development"));
    assert(texts(names@) =~= protected_set());
    names
}

/// A commit time as seconds since the epoch; a time before the epoch counts as the epoch.
pub open spec fn epoch_seconds(seconds: i64) -> u64 {
    if seconds < 0 {
        0
    } else {
        seconds as u64
    }
}

/// The part of an email address before its first `@`; all of it where it has none.
pub open spec fn local_part(email: Seq<char>) -> Seq<char> {
    email.take(choose|k: int| first_position(email, '@', k))
}

/// `local_part` cuts at the one position that `first_position` describes.
pub proof fn lemma_local_part(email: Seq<char>, k: int)
    requires
        first_position(email, '@', k),
    ensures
        local_part(email) == email.take(k),
{
    let c = choose|c: int| first_position(email, '@', c);
    lemma_first_position_unique(email, '@', c, k);
}

/// The author shown for a commit: its display name; failing that the local
/// part of its email address; failing both, none.
pub open spec fn author_of(name: Option<Seq<char>>, email: Option<Seq<char>>) -> Option<Seq<char>> {
    match name {
        Some(n) => Some(n),
        None => match email {
            Some(e) => Some(local_part(e)),
            None => None,
        },
    }
}

/// Whether a branch is offered: it is not the checked-out branch, its name
/// is readable and not excluded, and its tip resolves to a commit.
pub open spec fn eligible(record: BranchRecord, excludes: Seq<Seq<char>>) -> bool {
    &&& !record.is_head
    &&& record.name is Some
    &&& !excludes.contains(record.name->0@)
    &&& record.tip is Some
}

/// The candidate made of an eligible branch.
pub open spec fn choice_of(record: BranchRecord) -> ChoiceView {
    ChoiceView {
        branch_name: record.name->0@,
        upstream_name: opt_text(record.upstream_name),
        author_name: author_of(
            opt_text(record.tip->0.author_name),
            opt_text(record.tip->0.author_email),
        ),
        commit_time: epoch_seconds(record.tip->0.seconds),
    }
}

/// The candidates among `records`, in the order of `records`.
pub open spec fn candidates_of(records: Seq<BranchRecord>, excludes: Seq<Seq<char>>) -> Seq<ChoiceView> {
    records.filter(|r: BranchRecord| eligible(r, excludes)).map_values(|r: BranchRecord| choice_of(r))
}

/// Resolves the author shown for a commit.
pub fn resolve_author(name: &Option<String>, email: &Option<String>) -> (author: Option<String>)
    ensures
        opt_text(author) == author_of(opt_text(*name), opt_text(*email)),
{
    match name {
        Some(n) => Some(n.clone()),
        None => match email {
            Some(e) => {
                let k = find_first(e.as_str(), '@');
                proof {
                    lemma_local_part(e@, k as int);
                }
                Some(head_to(e.as_str(), k))
            },
            None => None,
        },
    }
}

/// The candidate for one branch, or none where the branch is not offered.
pub fn candidate_from(record: &BranchRecord, excludes: &Vec<String>) -> (choice: Option<BranchChoice>)
    ensures
        choice is Some <==> eligible(*record, texts(excludes@)),
        choice is Some ==> choice->0@ == choice_of(*record),
{
    if record.is_head {
        return None;
    }
    match &record.name {
        None => None,
        Some(name) => {
            if is_listed(excludes, name) {
                return None;
            }
            match &record.tip {
                None => None,
                Some(tip) => {
                    let commit_time: u64 = if tip.seconds < 0 {
                        0
                    } else {
                        tip.seconds as u64
                    };
                    Some(
                        BranchChoice {
                            branch_name: name.clone(),
                            upstream_name: copy_opt(&record.upstream_name),
                            author_name: resolve_author(&tip.author_name, &tip.author_email),
                            commit_time,
                        },
                    )
                },
            }
        },
    }
}

/// The candidates among `records`, in the order of `records`.
pub fn collect_candidates(records: &Vec<BranchRecord>, excludes: &Vec<String>) -> (choices: Vec<BranchChoice>)
    ensures
        choice_views(choices@) == candidates_of(records@, texts(excludes@)),
        choices@.len() == candidates_of(records@, texts(excludes@)).len(),
{
    let mut choices: Vec<BranchChoice> = Vec::new();
    let ghost ex = texts(excludes@);
    let ghost keep = |r: BranchRecord| eligible(r, ex);
    let ghost make = |r: BranchRecord| choice_of(r);
    let mut i: usize = 0;
    proof {
        reveal(Seq::filter);
        assert(records@.take(0).filter(keep) =~= Seq::<BranchRecord>::empty());
        assert(choice_views(choices@) =~= candidates_of(records@.take(0), ex));
    }
    while i < records.len()
        invariant
            i <= records.len(),
            ex == texts(excludes@),
            keep == (|r: BranchRecord| eligible(r, ex)),
            make == (|r: BranchRecord| choice_of(r)),
            choice_views(choices@) == records@.take(i as int).filter(keep).map_values(make),
        decreases records.len() - i,
    {
        let ghost before = records@.take(i as int);
        proof {
            assert(records@.take(i + 1) =~= before.push(records@[i as int]));
            before.lemma_filter_push(records@[i as int], keep);
        }
        match candidate_from(&records[i], excludes) {
            Some(c) => {
                let ghost old_choices = choices@;
                choices.push(c);
                proof {
                    assert(choice_views(choices@) =~= choice_views(old_choices).push(c@));
                    assert(before.filter(keep).push(records@[i as int]).map_values(make)
                        =~= before.filter(keep).map_values(make).push(choice_of(records@[i as int])));
                }
            },
            None => {},
        }
        i += 1;
    }
    proof {
        assert(records@.take(records.len() as int) =~= records@);
    }
    choices
}

/// No candidate bears an excluded name, and none is the checked-out branch:
/// each is made of a branch that is eligible.
pub proof fn lemma_candidates_are_eligible(records: Seq<BranchRecord>, excludes: Seq<Seq<char>>, k: int)
    requires
        0 <= k < candidates_of(records, excludes).len(),
    ensures
        !excludes.contains(candidates_of(records, excludes)[k].branch_name),
        exists|j: int|
            0 <= j < records.len() && eligible(#[trigger] records[j], excludes) && candidates_of(
                records,
                excludes,
            )[k] == choice_of(records[j]),
{
    let keep = |r: BranchRecord| eligible(r, excludes);
    let kept = records.filter(keep);
    let r = kept[k];
    records.lemma_filter_pred(keep, k);
    assert(kept.contains(r));
    records.lemma_filter_contains_rev(keep, r);
    let j = choose|j: int| 0 <= j < records.len() && records[j] == r;
    assert(eligible(records[j], excludes));
}

/// Where no two local branches share a name, the name of the checked-out
/// branch is the name of no candidate.
pub proof fn lemma_head_is_no_candidate(
    records: Seq<BranchRecord>,
    excludes: Seq<Seq<char>>,
    head: int,
    k: int,
)
    requires
        forall|a: int, b: int|
            0 <= a < b < records.len() && records[a].name is Some && records[b].name is Some
                ==> records[a].name->0@ != records[b].name->0@,
        0 <= head < records.len(),
        records[head].is_head,
        records[head].name is Some,
        0 <= k < candidates_of(records, excludes).len(),
    ensures
        candidates_of(records, excludes)[k].branch_name != records[head].name->0@,
{
    lemma_candidates_are_eligible(records, excludes, k);
    let j = choose|j: int|
        0 <= j < records.len() && eligible(#[trigger] records[j], excludes) && candidates_of(
            records,
            excludes,
        )[k] == choice_of(records[j]);
    assert(j != head);
    if j < head {
        assert(records[j].name->0@ != records[head].name->0@);
    } else {
        assert(records[head].name->0@ != records[j].name->0@);
    }
}

} // verus!
