//! Deleting a confirmed selection: which steps are taken for each chosen
//! branch, in which order, and what is reported of each.
//!
//! Deletion is best effort. The steps follow from the selection alone, so
//! that no failure keeps a later step from being taken, and nothing that was
//! deleted locally is restored where the remote deletion fails.

use vstd::prelude::*;
use vstd::string::*;
use crate::candidate::{choice_views, BranchChoice, ChoiceView};
use crate::report::{cause_of, line_of, line_views, LineView, ReportLine, Tone};
use crate::text::{opt_text, starts_with, tail_from, texts};

verus! {

/// What the operator chose, and how far they agreed to go.
#[derive(Clone, Debug, PartialEq, Eq)]
pub struct Selection {
    /// The chosen branches, in the order chosen.
    pub chosen: Vec<BranchChoice>,
    /// Whether the upstream of each chosen branch is deleted too.
    pub delete_upstream: bool,
    /// Whether the operator gave the final go-ahead.
    pub confirmed: bool,
}

/// The qualifier that the name of a branch on `remote` begins with: the
/// name of the remote and a slash.
pub open spec fn qualifier(remote: Seq<char>) -> Seq<char> {
    remote.push('/')
}

/// Whether `upstream` reads as the name of a branch on `remote`.
pub open spec fn on_remote(upstream: Seq<char>, remote: Seq<char>) -> bool {
    qualifier(remote).is_prefix_of(upstream)
}

/// `k` is the position of the first of `remotes` that `upstream` is on, or
/// the number of remotes where it is on none.
pub open spec fn first_remote(upstream: Seq<char>, remotes: Seq<Seq<char>>, k: int) -> bool {
    &&& 0 <= k <= remotes.len()
    &&& forall|j: int| 0 <= j < k ==> !on_remote(upstream, #[trigger] remotes[j])
    &&& k < remotes.len() ==> on_remote(upstream, remotes[k])
}

/// `first_remote` names one position.
pub proof fn lemma_first_remote_unique(upstream: Seq<char>, remotes: Seq<Seq<char>>, a: int, b: int)
    requires
        first_remote(upstream, remotes, a),
        first_remote(upstream, remotes, b),
    ensures
        a == b,
{
    if a < b {
        assert(!on_remote(upstream, remotes[a]));
    } else if b < a {
        assert(!on_remote(upstream, remotes[b]));
    }
}

/// An upstream name without the qualifier of its remote, taken off once.
/// The remote is the first of `remotes` whose qualifier the name begins
/// with; a name that begins with none is kept whole.
pub open spec fn stripped_name(upstream: Seq<char>, remotes: Seq<Seq<char>>) -> Seq<char> {
    let k = choose|k: int| first_remote(upstream, remotes, k);
    if k < remotes.len() {
        upstream.skip(qualifier(remotes[k]).len() as int)
    } else {
        upstream
    }
}

/// The name of the branch on the remote, or none where nothing is left of
/// the upstream name.
pub open spec fn short_name(upstream: Seq<char>, remotes: Seq<Seq<char>>) -> Option<Seq<char>> {
    if stripped_name(upstream, remotes).len() == 0 {
        None
    } else {
        Some(stripped_name(upstream, remotes))
    }
}

/// `stripped_name` cuts at the remote that `first_remote` describes.
pub proof fn lemma_stripped_at(upstream: Seq<char>, remotes: Seq<Seq<char>>, k: int)
    requires
        first_remote(upstream, remotes, k),
    ensures
        stripped_name(upstream, remotes) == if k < remotes.len() {
            upstream.skip(qualifier(remotes[k]).len() as int)
        } else {
            upstream
        },
{
    let c = choose|c: int| first_remote(upstream, remotes, c);
    lemma_first_remote_unique(upstream, remotes, c, k);
}

/// The qualifier of a remote is taken off exactly once: what follows it is
/// the short name, also where that begins with a qualifier again. This holds
/// of the first remote that the name is on.
pub proof fn lemma_prefix_stripped_once(remotes: Seq<Seq<char>>, k: int, rest: Seq<char>)
    requires
        0 <= k < remotes.len(),
        forall|j: int| 0 <= j < k ==> !on_remote(qualifier(remotes[k]) + rest, #[trigger] remotes[j]),
    ensures
        stripped_name(qualifier(remotes[k]) + rest, remotes) == rest,
        rest.len() > 0 ==> short_name(qualifier(remotes[k]) + rest, remotes) == Some(rest),
{
    let q = qualifier(remotes[k]);
    let full = q + rest;
    assert(full.subrange(0, q.len() as int) =~= q);
    assert(full.skip(q.len() as int) =~= rest);
    assert(first_remote(full, remotes, k));
    lemma_stripped_at(full, remotes, k);
}

/// A name that is on none of the remotes is its own short name.
pub proof fn lemma_unqualified_name_kept(upstream: Seq<char>, remotes: Seq<Seq<char>>)
    requires
        forall|j: int| 0 <= j < remotes.len() ==> !on_remote(upstream, #[trigger] remotes[j]),
    ensures
        stripped_name(upstream, remotes) == upstream,
{
    assert(first_remote(upstream, remotes, remotes.len() as int));
    lemma_stripped_at(upstream, remotes, remotes.len() as int);
}

/// The refspec that deletes branch `short` on the remote: an empty source
/// and the branch as destination.
pub open spec fn delete_refspec_text(short: Seq<char>) -> Seq<char> {
    ":refs/heads/"@ + short
}

/// Derives the name of the branch on the remote from an upstream name:
/// the name without the qualifier of the first of `remotes` it is on.
pub fn get_local_name(upstream_name: &str, remotes: &Vec<String>) -> (short: Option<String>)
    ensures
        opt_text(short) == short_name(upstream_name@, texts(remotes@)),
{
    let mut i: usize = 0;
    while i < remotes.len()
        invariant
            i <= remotes.len(),
            forall|j: int| 0 <= j < i ==> !on_remote(upstream_name@, #[trigger] texts(remotes@)[j]),
        decreases remotes.len() - i,
    {
        let mut q = remotes[i].clone();
        q.append("/");
        proof {
            reveal_strlit("/");
            assert(q@ =~= qualifier(remotes[i as int]@));
            assert(texts(remotes@)[i as int] == remotes[i as int]@);
        }
        if starts_with(upstream_name, q.as_str()) {
            let rest = tail_from(upstream_name, q.as_str().unicode_len());
            proof {
                lemma_stripped_at(upstream_name@, texts(remotes@), i as int);
            }
            if rest.as_str().unicode_len() == 0 {
                return None;
            }
            return Some(rest);
        }
        i += 1;
    }
    proof {
        lemma_stripped_at(upstream_name@, texts(remotes@), remotes.len() as int);
    }
    if upstream_name.unicode_len() == 0 {
        None
    } else {
        Some(String::from_str(upstream_name))
    }
}

/// The refspec that deletes branch `short` on the remote.
pub fn delete_refspec(short: &str) -> (refspec: String)
    ensures
        refspec@ == delete_refspec_text(short@),
{
    let mut refspec = String::from_str(":refs/heads/");
    refspec.append(short);
    refspec
}

/// One step of a batch of deletions.
#[derive(Clone, Debug, PartialEq, Eq)]
pub enum Step {
    /// Delete the local branch `branch_name`. Where `unclear_upstream` is
    /// set, the upstream of that name was to be deleted too and names no
    /// branch: nothing is deleted on the remote, and the step's report says so.
    DeleteLocal { branch_name: String, unclear_upstream: Option<String> },
    /// Push `refspec` to the remote, which deletes branch `short_name` there.
    PushDelete { branch_name: String, short_name: String, refspec: String },
    /// Drop the remote-tracking reference `upstream_name`.
    DropTracking { branch_name: String, upstream_name: String },
}

/// The mathematical content of a `Step`.
pub enum StepView {
    DeleteLocal { branch_name: Seq<char>, unclear_upstream: Option<Seq<char>> },
    PushDelete { branch_name: Seq<char>, short_name: Seq<char>, refspec: Seq<char> },
    DropTracking { branch_name: Seq<char>, upstream_name: Seq<char> },
}

impl View for Step {
    type V = StepView;

    open spec fn view(&self) -> StepView {
        match *self {
            Step::DeleteLocal { branch_name, unclear_upstream } => StepView::DeleteLocal {
                branch_name: branch_name@,
                unclear_upstream: opt_text(unclear_upstream),
            },
            Step::PushDelete { branch_name, short_name, refspec } => StepView::PushDelete {
                branch_name: branch_name@,
                short_name: short_name@,
                refspec: refspec@,
            },
            Step::DropTracking { branch_name, upstream_name } => StepView::DropTracking {
                branch_name: branch_name@,
                upstream_name: upstream_name@,
            },
        }
    }
}

/// The content of each step of a list.
pub open spec fn step_views(steps: Seq<Step>) -> Seq<StepView> {
    steps.map_values(|s: Step| s@)
}

/// The steps that delete upstream `upstream` of branch `branch`: a push of
/// the delete refspec, then the end of the tracking reference. None where
/// the upstream names no branch.
pub open spec fn remote_steps(branch: Seq<char>, upstream: Seq<char>, remotes: Seq<Seq<char>>) -> Seq<StepView> {
    match short_name(upstream, remotes) {
        Some(short) => seq![
            StepView::PushDelete {
                branch_name: branch,
                short_name: short,
                refspec: delete_refspec_text(short),
            },
            StepView::DropTracking { branch_name: branch, upstream_name: upstream },
        ],
        None => Seq::empty(),
    }
}

/// Whether the upstream of `choice` is to be deleted: upstream deletion is
/// in scope and the branch has an upstream.
pub open spec fn wants_remote(choice: ChoiceView, in_scope: bool) -> bool {
    in_scope && choice.upstream_name is Some
}

/// The first step for a chosen branch: its local deletion.
pub open spec fn local_step(choice: ChoiceView, in_scope: bool, remotes: Seq<Seq<char>>) -> StepView {
    StepView::DeleteLocal {
        branch_name: choice.branch_name,
        unclear_upstream: if wants_remote(choice, in_scope) && short_name(
            choice.upstream_name->0, remotes,
        ) is None {
            choice.upstream_name
        } else {
            None
        },
    }
}

/// The steps for one chosen branch: the local deletion first, then the
/// deletion of its upstream where that is wanted.
pub open spec fn steps_of(choice: ChoiceView, in_scope: bool, remotes: Seq<Seq<char>>) -> Seq<StepView> {
    if wants_remote(choice, in_scope) {
        seq![local_step(choice, in_scope, remotes)] + remote_steps(
            choice.branch_name,
            choice.upstream_name->0, remotes,
        )
    } else {
        seq![local_step(choice, in_scope, remotes)]
    }
}

/// The steps for a list of chosen branches, branch after branch.
pub open spec fn steps_of_all(chosen: Seq<ChoiceView>, in_scope: bool, remotes: Seq<Seq<char>>) -> Seq<StepView>
    decreases chosen.len(),
{
    if chosen.len() == 0 {
        Seq::empty()
    } else {
        steps_of_all(chosen.drop_last(), in_scope, remotes) + steps_of(chosen.last(), in_scope, remotes)
    }
}

/// The steps that follow from a selection. Without the final go-ahead there
/// are none. Upstreams are in scope where the operator asked for it and the
/// repository has a remote to push to. `remotes` are the names of the
/// repository's remotes, by which upstream names are read.
pub open spec fn plan_of(
    chosen: Seq<ChoiceView>,
    delete_upstream: bool,
    confirmed: bool,
    remote_available: bool, remotes: Seq<Seq<char>>,
) -> Seq<StepView> {
    if confirmed {
        steps_of_all(chosen, delete_upstream && remote_available, remotes)
    } else {
        Seq::empty()
    }
}

/// Plans the deletion of the upstream of a branch. The name of the branch
/// on the remote is read from the upstream name by the names of `remotes`.
pub fn delete_upstream_branch(branch_name: &str, upstream_name: &str, remotes: &Vec<String>) -> (steps: Vec<Step>)
    ensures
        step_views(steps@) == remote_steps(branch_name@, upstream_name@, texts(remotes@)),
        steps@.len() == remote_steps(branch_name@, upstream_name@, texts(remotes@)).len(),
{
    let mut steps: Vec<Step> = Vec::new();
    match get_local_name(upstream_name, remotes) {
        None => {
            assert(step_views(steps@) =~= remote_steps(branch_name@, upstream_name@, texts(remotes@)));
        },
        Some(short) => {
            let refspec = delete_refspec(short.as_str());
            steps.push(
                Step::PushDelete { branch_name: String::from_str(branch_name), short_name: short, refspec },
            );
            steps.push(
                Step::DropTracking {
                    branch_name: String::from_str(branch_name),
                    upstream_name: String::from_str(upstream_name),
                },
            );
            assert(step_views(steps@) =~= remote_steps(branch_name@, upstream_name@, texts(remotes@)));
        },
    }
    steps
}

/// Plans the steps for one chosen branch.
pub fn steps_for(choice: &BranchChoice, in_scope: bool, remotes: &Vec<String>) -> (steps: Vec<Step>)
    ensures
        step_views(steps@) == steps_of(choice@, in_scope, texts(remotes@)),
        steps@.len() == steps_of(choice@, in_scope, texts(remotes@)).len(),
{
    let mut steps: Vec<Step> = Vec::new();
    match &choice.upstream_name {
        Some(upstream) => {
            if in_scope {
                let mut remote = delete_upstream_branch(choice.branch_name.as_str(), upstream.as_str(), remotes);
                let unclear = if remote.len() == 0 {
                    Some(upstream.clone())
                } else {
                    None
                };
                steps.push(
                    Step::DeleteLocal { branch_name: choice.branch_name.clone(), unclear_upstream: unclear },
                );
                let ghost first = steps@;
                let ghost rest = remote@;
                steps.append(&mut remote);
                assert(step_views(steps@) =~= step_views(first) + step_views(rest));
                assert(step_views(first) =~= seq![local_step(choice@, in_scope, texts(remotes@))]);
            } else {
                steps.push(
                    Step::DeleteLocal { branch_name: choice.branch_name.clone(), unclear_upstream: None },
                );
                assert(step_views(steps@) =~= steps_of(choice@, in_scope, texts(remotes@)));
            }
        },
        None => {
            steps.push(
                Step::DeleteLocal { branch_name: choice.branch_name.clone(), unclear_upstream: None },
            );
            assert(step_views(steps@) =~= steps_of(choice@, in_scope, texts(remotes@)));
        },
    }
    steps
}

/// Plans the deletion of a selection: for each chosen branch, in the order
/// chosen, its local deletion and then that of its upstream where wanted.
/// A selection without the final go-ahead yields no step. `remotes` are the
/// names of the repository's remotes.
pub fn plan_batch(selection: &Selection, remote_available: bool, remotes: &Vec<String>) -> (steps: Vec<Step>)
    ensures
        step_views(steps@) == plan_of(
            choice_views(selection.chosen@),
            selection.delete_upstream,
            selection.confirmed,
            remote_available, texts(remotes@),
        ),
        steps@.len() == plan_of(
            choice_views(selection.chosen@),
            selection.delete_upstream,
            selection.confirmed,
            remote_available, texts(remotes@),
        ).len(),
{
    let mut steps: Vec<Step> = Vec::new();
    if !selection.confirmed {
        assert(step_views(steps@) =~= Seq::<StepView>::empty());
        return steps;
    }
    let in_scope = selection.delete_upstream && remote_available;
    let ghost chosen = choice_views(selection.chosen@);
    let mut i: usize = 0;
    assert(step_views(steps@) =~= steps_of_all(chosen.take(0), in_scope, texts(remotes@)));
    while i < selection.chosen.len()
        invariant
            i <= selection.chosen.len(),
            chosen == choice_views(selection.chosen@),
            step_views(steps@) == steps_of_all(chosen.take(i as int), in_scope, texts(remotes@)),
        decreases selection.chosen.len() - i,
    {
        let mut more = steps_for(&selection.chosen[i], in_scope, remotes);
        let ghost before = steps@;
        let ghost added = more@;
        steps.append(&mut more);
        proof {
            assert(step_views(steps@) =~= step_views(before) + step_views(added));
            assert(chosen.take(i + 1).drop_last() =~= chosen.take(i as int));
            assert(chosen.take(i + 1).last() == selection.chosen[i as int]@);
        }
        i += 1;
    }
    assert(chosen.take(selection.chosen.len() as int) =~= chosen);
    steps
}

/// The two lines told of a failure: its cause, and a warning that names the branch.
pub open spec fn failure_lines(detail: Tone, cause: Seq<char>, message: Seq<char>) -> Seq<LineView> {
    seq![LineView { tone: detail, text: cause }, LineView { tone: Tone::Warning, text: message }]
}

/// What is told of a failed step; nothing of one that succeeded.
pub open spec fn failure_report(detail: Tone, cause: Option<Seq<char>>, message: Seq<char>) -> Seq<
    LineView,
> {
    match cause {
        Some(c) => failure_lines(detail, c, message),
        None => Seq::empty(),
    }
}

/// What is told of an upstream that names no branch.
pub open spec fn unclear_report(branch: Seq<char>, unclear_upstream: Option<Seq<char>>) -> Seq<
    LineView,
> {
    match unclear_upstream {
        Some(u) => failure_lines(
            Tone::Dim,
            "No branch name in upstream "@ + u,
            "Failed to delete upstream branch of "@ + branch,
        ),
        None => Seq::empty(),
    }
}

/// What is reported once a step was taken and ended with `cause` (none for
/// success). Every failure is told with its cause and the branch it concerns.
pub open spec fn report_of(step: StepView, cause: Option<Seq<char>>) -> Seq<LineView> {
    match step {
        StepView::DeleteLocal { branch_name, unclear_upstream } => failure_report(
            Tone::Plain,
            cause,
            "Failed to delete branch "@ + branch_name,
        ) + unclear_report(branch_name, unclear_upstream),
        StepView::PushDelete { branch_name, short_name, refspec } => failure_report(
            Tone::Dim,
            cause,
            "Failed to delete upstream branch "@ + short_name,
        ),
        StepView::DropTracking { branch_name, upstream_name } => failure_report(
            Tone::Plain,
            cause,
            "Failed to delete tracking branch "@ + upstream_name,
        ),
    }
}

/// Adds the lines of a failure, if `result` is one.
fn tell_failure(
    lines: &mut Vec<ReportLine>,
    detail: Tone,
    result: &Result<(), String>,
    head: &str,
    name: &str,
)
    ensures
        line_views(final(lines)@) == line_views(old(lines)@) + failure_report(
            detail,
            cause_of(*result),
            head@ + name@,
        ),
{
    let ghost before = lines@;
    match result {
        Ok(_) => {
            assert(line_views(lines@) =~= line_views(before) + Seq::<LineView>::empty());
        },
        Err(cause) => {
            let first = line_of(detail, cause.as_str(), "");
            assert(cause@ + ""@ =~= cause@) by {
                reveal_strlit("");
            }
            lines.push(first);
            let second = line_of(Tone::Warning, head, name);
            lines.push(second);
            assert(line_views(lines@) =~= line_views(before) + failure_lines(
                detail,
                cause@,
                head@ + name@,
            ));
        },
    }
}

/// Reports a step that was taken and ended with `result`.
pub fn report_step(step: &Step, result: &Result<(), String>) -> (lines: Vec<ReportLine>)
    ensures
        line_views(lines@) == report_of(step@, cause_of(*result)),
        lines@.len() == report_of(step@, cause_of(*result)).len(),
{
    let mut lines: Vec<ReportLine> = Vec::new();
    assert(line_views(lines@) =~= Seq::<LineView>::empty());
    match step {
        Step::DeleteLocal { branch_name, unclear_upstream } => {
            tell_failure(&mut lines, Tone::Plain, result, "Failed to delete branch ", branch_name.as_str());
            let ghost first = line_views(lines@);
            assert(first =~= failure_report(
                Tone::Plain,
                cause_of(*result),
                "Failed to delete branch "@ + branch_name@,
            ));
            match unclear_upstream {
                Some(u) => {
                    lines.push(line_of(Tone::Dim, "No branch name in upstream ", u.as_str()));
                    lines.push(
                        line_of(Tone::Warning, "Failed to delete upstream branch of ", branch_name.as_str()),
                    );
                    assert(line_views(lines@) =~= first + unclear_report(
                        branch_name@,
                        opt_text(*unclear_upstream),
                    ));
                },
                None => {
                    assert(line_views(lines@) =~= first + unclear_report(
                        branch_name@,
                        opt_text(*unclear_upstream),
                    ));
                },
            }
        },
        Step::PushDelete { branch_name, short_name, refspec } => {
            tell_failure(
                &mut lines,
                Tone::Dim,
                result,
                "Failed to delete upstream branch ",
                short_name.as_str(),
            );
            assert(line_views(lines@) =~= report_of(step@, cause_of(*result)));
        },
        Step::DropTracking { branch_name, upstream_name } => {
            tell_failure(
                &mut lines,
                Tone::Plain,
                result,
                "Failed to delete tracking branch ",
                upstream_name.as_str(),
            );
            assert(line_views(lines@) =~= report_of(step@, cause_of(*result)));
        },
    }
    lines
}

/// How many of the first `n` steps are local deletions that were taken and failed.
pub open spec fn local_failures_upto(steps: Seq<StepView>, settled: Seq<bool>, n: int) -> nat
    decreases n,
{
    if n <= 0 {
        0
    } else {
        local_failures_upto(steps, settled, n - 1) + if steps[n - 1] is DeleteLocal && !settled[n - 1] {
            1nat
        } else {
            0nat
        }
    }
}

/// How many of the first `n` steps are pushes that were taken and failed.
pub open spec fn remote_failures_upto(steps: Seq<StepView>, settled: Seq<bool>, n: int) -> nat
    decreases n,
{
    if n <= 0 {
        0
    } else {
        remote_failures_upto(steps, settled, n - 1) + if steps[n - 1] is PushDelete && !settled[n - 1] {
            1nat
        } else {
            0nat
        }
    }
}

/// A batch of deletions under way: the planned steps, and for each step
/// taken so far whether it succeeded. The next step to take is the first
/// that has no result yet.
#[derive(Clone, Debug, PartialEq, Eq)]
pub struct Batch {
    pub steps: Vec<Step>,
    pub settled: Vec<bool>,
}

impl Batch {
    /// How many steps have been taken.
    pub open spec fn taken(&self) -> int {
        if self.settled.len() <= self.steps.len() {
            self.settled.len() as int
        } else {
            self.steps.len() as int
        }
    }

    /// The batch for a selection, with no step taken.
    pub fn new(selection: &Selection, remote_available: bool, remotes: &Vec<String>) -> (batch: Batch)
        ensures
            step_views(batch.steps@) == plan_of(
                choice_views(selection.chosen@),
                selection.delete_upstream,
                selection.confirmed,
                remote_available, texts(remotes@),
            ),
            batch.steps@.len() == plan_of(
                choice_views(selection.chosen@),
                selection.delete_upstream,
                selection.confirmed,
                remote_available, texts(remotes@),
            ).len(),
            batch.settled@.len() == 0,
    {
        Batch { steps: plan_batch(selection, remote_available, remotes), settled: Vec::new() }
    }

    /// The step to take next, or none once every step was taken.
    pub fn pending(&self) -> (next: Option<&Step>)
        ensures
            next is Some <==> self.settled.len() < self.steps.len(),
            next is Some ==> *next->0 == self.steps[self.settled.len() as int],
    {
        if self.settled.len() < self.steps.len() {
            Some(&self.steps[self.settled.len()])
        } else {
            None
        }
    }

    /// Whether every step was taken.
    pub fn finished(&self) -> (done: bool)
        ensures
            done == (self.settled.len() >= self.steps.len()),
    {
        self.settled.len() >= self.steps.len()
    }

    /// Records how the pending step ended and reports it. Success or
    /// failure, the batch moves on to the step after it. Once the batch is
    /// finished nothing changes and nothing is reported.
    pub fn settle(&mut self, result: &Result<(), String>) -> (lines: Vec<ReportLine>)
        ensures
            final(self).steps == old(self).steps,
            old(self).settled.len() < old(self).steps.len() ==> {
                &&& final(self).settled@ == old(self).settled@.push(result is Ok)
                &&& line_views(lines@) == report_of(
                    old(self).steps[old(self).settled.len() as int]@,
                    cause_of(*result),
                )
            },
            old(self).settled.len() >= old(self).steps.len() ==> {
                &&& final(self).settled@ == old(self).settled@
                &&& lines@.len() == 0
            },
    {
        if self.settled.len() < self.steps.len() {
            let lines = report_step(&self.steps[self.settled.len()], result);
            self.settled.push(result.is_ok());
            lines
        } else {
            Vec::new()
        }
    }

    /// How many local deletions were taken and failed.
    pub fn local_failures(&self) -> (count: usize)
        ensures
            count == local_failures_upto(step_views(self.steps@), self.settled@, self.taken()),
    {
        let n = if self.settled.len() <= self.steps.len() {
            self.settled.len()
        } else {
            self.steps.len()
        };
        let mut count: usize = 0;
        let mut i: usize = 0;
        while i < n
            invariant
                i <= n,
                n == self.taken(),
                count <= i,
                count == local_failures_upto(step_views(self.steps@), self.settled@, i as int),
            decreases n - i,
        {
            let failed = !self.settled[i];
            match &self.steps[i] {
                Step::DeleteLocal { branch_name, unclear_upstream } => {
                    if failed {
                        count += 1;
                    }
                },
                _ => {},
            }
            i += 1;
        }
        count
    }

    /// How many pushes to the remote were taken and failed.
    pub fn remote_failures(&self) -> (count: usize)
        ensures
            count == remote_failures_upto(step_views(self.steps@), self.settled@, self.taken()),
    {
        let n = if self.settled.len() <= self.steps.len() {
            self.settled.len()
        } else {
            self.steps.len()
        };
        let mut count: usize = 0;
        let mut i: usize = 0;
        while i < n
            invariant
                i <= n,
                n == self.taken(),
                count <= i,
                count == remote_failures_upto(step_views(self.steps@), self.settled@, i as int),
            decreases n - i,
        {
            let failed = !self.settled[i];
            match &self.steps[i] {
                Step::PushDelete { branch_name, short_name, refspec } => {
                    if failed {
                        count += 1;
                    }
                },
                _ => {},
            }
            i += 1;
        }
        count
    }
}

/// Without the final go-ahead nothing is deleted, whatever was chosen.
pub proof fn lemma_unconfirmed_plans_nothing(
    chosen: Seq<ChoiceView>,
    delete_upstream: bool,
    remote_available: bool, remotes: Seq<Seq<char>>,
)
    ensures
        plan_of(chosen, delete_upstream, false, remote_available, remotes) == Seq::<StepView>::empty(),
{
}

/// The local deletion of a branch, with nothing to tell of its upstream.
pub open spec fn plain_local_step(choice: ChoiceView) -> StepView {
    StepView::DeleteLocal { branch_name: choice.branch_name, unclear_upstream: None }
}

/// Where upstreams are out of scope, the plan is one local deletion for
/// each chosen branch, in the order chosen, and nothing else.
pub proof fn lemma_local_only_plan(chosen: Seq<ChoiceView>, remotes: Seq<Seq<char>>)
    ensures
        steps_of_all(chosen, false, remotes) == chosen.map_values(|c: ChoiceView| plain_local_step(c)),
    decreases chosen.len(),
{
    let make = |c: ChoiceView| plain_local_step(c);
    if chosen.len() == 0 {
        assert(steps_of_all(chosen, false, remotes) =~= chosen.map_values(make));
    } else {
        lemma_local_only_plan(chosen.drop_last(), remotes);
        assert(steps_of_all(chosen, false, remotes) =~= chosen.map_values(make));
    }
}

/// The branch that a step concerns.
pub open spec fn branch_of(step: StepView) -> Seq<char> {
    match step {
        StepView::DeleteLocal { branch_name, .. } => branch_name,
        StepView::PushDelete { branch_name, .. } => branch_name,
        StepView::DropTracking { branch_name, .. } => branch_name,
    }
}

/// The branches that a plan deletes locally, in the order of the plan.
pub open spec fn local_deletions(steps: Seq<StepView>) -> Seq<Seq<char>> {
    steps.filter(|s: StepView| s is DeleteLocal).map_values(|s: StepView| branch_of(s))
}

/// Every chosen branch has its local deletion in the plan, once and in the
/// order chosen, whether or not upstreams are in scope.
pub proof fn lemma_every_choice_is_deleted_locally(chosen: Seq<ChoiceView>, in_scope: bool, remotes: Seq<Seq<char>>)
    ensures
        local_deletions(steps_of_all(chosen, in_scope, remotes)) == chosen.map_values(
            |c: ChoiceView| c.branch_name,
        ),
    decreases chosen.len(),
{
    let is_local = |s: StepView| s is DeleteLocal;
    let name = |c: ChoiceView| c.branch_name;
    let branch = |s: StepView| branch_of(s);
    if chosen.len() == 0 {
        assert(steps_of_all(chosen, in_scope, remotes).filter(is_local) =~= Seq::<StepView>::empty()) by {
            steps_of_all(chosen, in_scope, remotes).lemma_filter_len(is_local);
        }
        assert(local_deletions(steps_of_all(chosen, in_scope, remotes)) =~= chosen.map_values(name));
    } else {
        let head = chosen.drop_last();
        let last = chosen.last();
        lemma_every_choice_is_deleted_locally(head, in_scope, remotes);
        let before = steps_of_all(head, in_scope, remotes);
        let added = steps_of(last, in_scope, remotes);
        Seq::filter_distributes_over_add(before, added, is_local);
        assert(added.filter(is_local) =~= seq![local_step(last, in_scope, remotes)]) by {
            reveal_with_fuel(Seq::filter, 4);
            if wants_remote(last, in_scope) && short_name(last.upstream_name->0, remotes) is Some {
                let l = local_step(last, in_scope, remotes);
                let r = remote_steps(last.branch_name, last.upstream_name->0, remotes);
                assert(added =~= seq![l, r[0], r[1]]);
                assert(added.drop_last() =~= seq![l, r[0]]);
                assert(added.drop_last().drop_last() =~= seq![l]);
                assert(seq![l].drop_last() =~= Seq::<StepView>::empty());
            } else {
                let l = local_step(last, in_scope, remotes);
                assert(added =~= seq![l]);
                assert(added.drop_last() =~= Seq::<StepView>::empty());
            }
        }
        assert(local_deletions(steps_of_all(chosen, in_scope, remotes)) =~= local_deletions(before).push(
            last.branch_name,
        ));
        assert(chosen.map_values(name) =~= head.map_values(name).push(last.branch_name));
    }
}

/// Every step of a plan concerns one of the chosen branches.
pub proof fn lemma_steps_concern_chosen(chosen: Seq<ChoiceView>, in_scope: bool, k: int, remotes: Seq<Seq<char>>)
    requires
        0 <= k < steps_of_all(chosen, in_scope, remotes).len(),
    ensures
        exists|i: int|
            0 <= i < chosen.len() && (#[trigger] chosen[i]).branch_name == branch_of(
                steps_of_all(chosen, in_scope, remotes)[k],
            ),
    decreases chosen.len(),
{
    if chosen.len() > 0 {
        let head = chosen.drop_last();
        let before = steps_of_all(head, in_scope, remotes);
        if k < before.len() {
            lemma_steps_concern_chosen(head, in_scope, k, remotes);
            let i = choose|i: int|
                0 <= i < head.len() && (#[trigger] head[i]).branch_name == branch_of(before[k]);
            assert(chosen[i] == head[i]);
        } else {
            let last = chosen.last();
            let step = steps_of(last, in_scope, remotes)[k - before.len()];
            assert(branch_of(step) == last.branch_name);
            assert(chosen[chosen.len() - 1] == last);
        }
    }
}

/// A push is planned only for a chosen branch that has an upstream, only
/// where upstreams are in scope, and with the refspec that deletes the short
/// name of that upstream.
pub proof fn lemma_push_has_cause(chosen: Seq<ChoiceView>, in_scope: bool, k: int, remotes: Seq<Seq<char>>)
    requires
        0 <= k < steps_of_all(chosen, in_scope, remotes).len(),
        steps_of_all(chosen, in_scope, remotes)[k] is PushDelete,
    ensures
        in_scope,
        exists|i: int|
            0 <= i < chosen.len() && (#[trigger] chosen[i]).upstream_name is Some && short_name(
                chosen[i].upstream_name->0, remotes,
            ) == Some(steps_of_all(chosen, in_scope, remotes)[k]->short_name) && chosen[i].branch_name
                == branch_of(steps_of_all(chosen, in_scope, remotes)[k]),
        steps_of_all(chosen, in_scope, remotes)[k]->refspec == delete_refspec_text(
            steps_of_all(chosen, in_scope, remotes)[k]->short_name,
        ),
    decreases chosen.len(),
{
    if chosen.len() > 0 {
        let head = chosen.drop_last();
        let before = steps_of_all(head, in_scope, remotes);
        if k < before.len() {
            lemma_push_has_cause(head, in_scope, k, remotes);
            let i = choose|i: int|
                0 <= i < head.len() && (#[trigger] head[i]).upstream_name is Some && short_name(
                    head[i].upstream_name->0, remotes,
                ) == Some(before[k]->short_name) && head[i].branch_name == branch_of(before[k]);
            assert(chosen[i] == head[i]);
        } else {
            let last = chosen.last();
            assert(steps_of(last, in_scope, remotes)[k - before.len()] is PushDelete);
            assert(chosen[chosen.len() - 1] == last);
        }
    }
}

/// The positions among the first `n` steps of local deletions that were
/// taken and failed.
pub open spec fn failed_local_set(steps: Seq<StepView>, settled: Seq<bool>, n: int) -> Set<int> {
    Set::new(|i: int| 0 <= i < n && steps[i] is DeleteLocal && !settled[i])
}

/// The count of failed local deletions is the size of the set of local
/// deletions that failed.
pub proof fn lemma_failure_count_is_subset_size(steps: Seq<StepView>, settled: Seq<bool>, n: int)
    requires
        0 <= n,
    ensures
        failed_local_set(steps, settled, n).finite(),
        local_failures_upto(steps, settled, n) == failed_local_set(steps, settled, n).len(),
    decreases n,
{
    if n == 0 {
        assert(failed_local_set(steps, settled, n) =~= Set::<int>::empty());
    } else {
        lemma_failure_count_is_subset_size(steps, settled, n - 1);
        let prev = failed_local_set(steps, settled, n - 1);
        if steps[n - 1] is DeleteLocal && !settled[n - 1] {
            assert(failed_local_set(steps, settled, n) =~= prev.insert(n - 1));
            assert(!prev.contains(n - 1));
        } else {
            assert(failed_local_set(steps, settled, n) =~= prev);
        }
    }
}

/// Best effort: whatever fails, the plan of a confirmed selection deletes
/// every chosen branch locally, once and in the order chosen; and once every
/// step is taken, the count of failed local deletions is the number of
/// local deletions that failed.
pub proof fn lemma_batch_is_best_effort(
    chosen: Seq<ChoiceView>,
    delete_upstream: bool,
    remote_available: bool,
    settled: Seq<bool>, remotes: Seq<Seq<char>>,
)
    requires
        settled.len() == plan_of(chosen, delete_upstream, true, remote_available, remotes).len(),
    ensures
        local_deletions(plan_of(chosen, delete_upstream, true, remote_available, remotes))
            == chosen.map_values(|c: ChoiceView| c.branch_name),
        failed_local_set(
            plan_of(chosen, delete_upstream, true, remote_available, remotes),
            settled,
            settled.len() as int,
        ).finite(),
        local_failures_upto(
            plan_of(chosen, delete_upstream, true, remote_available, remotes),
            settled,
            settled.len() as int,
        ) == failed_local_set(
            plan_of(chosen, delete_upstream, true, remote_available, remotes),
            settled,
            settled.len() as int,
        ).len(),
{
    let plan = plan_of(chosen, delete_upstream, true, remote_available, remotes);
    lemma_every_choice_is_deleted_locally(chosen, delete_upstream && remote_available, remotes);
    lemma_failure_count_is_subset_size(plan, settled, settled.len() as int);
}

} // verus!
