//! The interactive flow: from the list of candidates through selection and
//! two confirmations to execution, or to a clean exit.
//!
//! The flow is a state machine. The caller asks the operator what the
//! current state requests, and hands the answer back as an event. Only a
//! `yes` to the final confirmation leads to execution; every other path ends
//! without a single deletion.

use vstd::prelude::*;
use vstd::string::*;
use crate::candidate::{choice_views, BranchChoice, ChoiceView};
use crate::deletion::{
    branch_of, lemma_steps_concern_chosen, plan_of, step_views, steps_of_all, Batch, Selection,
    StepView,
};
use crate::report::{line_of, line_views, LineView, ReportLine, Tone};
use crate::text::{opt_text, texts};

verus! {

/// Where the flow stands.
#[derive(Clone, Debug, PartialEq, Eq)]
pub enum Flow {
    /// Nothing is known yet.
    Idle,
    /// The operator picks among the candidates.
    Selecting { candidates: Vec<BranchChoice> },
    /// The operator says whether upstreams are deleted too.
    ConfirmingUpstreamScope { chosen: Vec<BranchChoice> },
    /// The operator gives or refuses the final go-ahead.
    ConfirmingExecution { chosen: Vec<BranchChoice>, delete_upstream: bool },
    /// The selection is handed over for deletion.
    Executing { selection: Selection },
    /// No branch can be offered. `on_branch` says whether a branch is checked out.
    NothingEligible { on_branch: bool },
    /// The operator left; nothing was deleted.
    Cancelled,
    /// The run failed before anything was deleted.
    Aborted,
}

/// The mathematical content of a `Flow`.
pub enum FlowView {
    Idle,
    Selecting { candidates: Seq<ChoiceView> },
    ConfirmingUpstreamScope { chosen: Seq<ChoiceView> },
    ConfirmingExecution { chosen: Seq<ChoiceView>, delete_upstream: bool },
    Executing { chosen: Seq<ChoiceView>, delete_upstream: bool, confirmed: bool },
    NothingEligible { on_branch: bool },
    Cancelled,
    Aborted,
}

impl View for Flow {
    type V = FlowView;

    open spec fn view(&self) -> FlowView {
        match *self {
            Flow::Idle => FlowView::Idle,
            Flow::Selecting { candidates } => FlowView::Selecting {
                candidates: choice_views(candidates@),
            },
            Flow::ConfirmingUpstreamScope { chosen } => FlowView::ConfirmingUpstreamScope {
                chosen: choice_views(chosen@),
            },
            Flow::ConfirmingExecution { chosen, delete_upstream } => FlowView::ConfirmingExecution {
                chosen: choice_views(chosen@),
                delete_upstream,
            },
            Flow::Executing { selection } => FlowView::Executing {
                chosen: choice_views(selection.chosen@),
                delete_upstream: selection.delete_upstream,
                confirmed: selection.confirmed,
            },
            Flow::NothingEligible { on_branch } => FlowView::NothingEligible { on_branch },
            Flow::Cancelled => FlowView::Cancelled,
            Flow::Aborted => FlowView::Aborted,
        }
    }
}

/// What happened outside since the last state.
#[derive(Clone, Debug, PartialEq, Eq)]
pub enum Event {
    /// The branches were listed. `candidates` are in display order;
    /// `head_is_branch` says whether a branch is checked out.
    Enumerated { candidates: Vec<BranchChoice>, head_is_branch: bool },
    /// The operator picked the candidates at these positions, in this order.
    Picked { picks: Vec<usize> },
    /// The operator answered a yes/no question.
    Answered { yes: bool },
    /// The operator left the prompt.
    Cancelled,
    /// The repository, the listing or the prompt failed.
    Failed,
}

/// The mathematical content of an `Event`.
pub enum EventView {
    Enumerated { candidates: Seq<ChoiceView>, head_is_branch: bool },
    Picked { picks: Seq<usize> },
    Answered { yes: bool },
    Cancelled,
    Failed,
}

impl View for Event {
    type V = EventView;

    open spec fn view(&self) -> EventView {
        match *self {
            Event::Enumerated { candidates, head_is_branch } => EventView::Enumerated {
                candidates: choice_views(candidates@),
                head_is_branch,
            },
            Event::Picked { picks } => EventView::Picked { picks: picks@ },
            Event::Answered { yes } => EventView::Answered { yes },
            Event::Cancelled => EventView::Cancelled,
            Event::Failed => EventView::Failed,
        }
    }
}

/// What a state asks of the caller.
#[derive(Clone, Copy, Debug, PartialEq, Eq)]
pub enum Request {
    /// List the branches.
    Enumerate,
    /// Let the operator pick among the candidates.
    SelectBranches,
    /// Ask whether upstreams are deleted too. The default answer is no.
    ConfirmUpstreamScope,
    /// Ask for the final go-ahead. The default answer is no.
    ConfirmExecution,
    /// Carry out the batch of the selection.
    Execute,
    /// Leave, reporting success or failure.
    Exit { success: bool },
}

/// The answer a confirmation takes where the operator gives none.
pub const CONFIRM_DEFAULT: bool = false;

/// Every pick is a position in a list of `n` candidates.
pub open spec fn picks_valid(picks: Seq<usize>, n: nat) -> bool {
    forall|i: int| 0 <= i < picks.len() ==> picks[i] < n
}

/// The candidates at the picked positions, in the order picked.
pub open spec fn picked(candidates: Seq<ChoiceView>, picks: Seq<usize>) -> Seq<ChoiceView> {
    Seq::new(picks.len(), |i: int| candidates[picks[i] as int])
}

/// The state after `event`.
///
/// An empty list of candidates ends the flow before any prompt. A pick
/// outside the list, and an event that the state did not ask for, abort the
/// run. Leaving a prompt, and refusing the final go-ahead, cancel it. A
/// state that has no prompt left stays as it is.
pub open spec fn advance_spec(flow: FlowView, event: EventView) -> FlowView {
    match flow {
        FlowView::Idle => match event {
            EventView::Enumerated { candidates, head_is_branch } => if candidates.len() == 0 {
                FlowView::NothingEligible { on_branch: head_is_branch }
            } else {
                FlowView::Selecting { candidates }
            },
            EventView::Cancelled => FlowView::Cancelled,
            _ => FlowView::Aborted,
        },
        FlowView::Selecting { candidates } => match event {
            EventView::Picked { picks } => if picks_valid(picks, candidates.len()) {
                FlowView::ConfirmingUpstreamScope { chosen: picked(candidates, picks) }
            } else {
                FlowView::Aborted
            },
            EventView::Cancelled => FlowView::Cancelled,
            _ => FlowView::Aborted,
        },
        FlowView::ConfirmingUpstreamScope { chosen } => match event {
            EventView::Answered { yes } => FlowView::ConfirmingExecution { chosen, delete_upstream: yes },
            EventView::Cancelled => FlowView::Cancelled,
            _ => FlowView::Aborted,
        },
        FlowView::ConfirmingExecution { chosen, delete_upstream } => match event {
            EventView::Answered { yes } => if yes {
                FlowView::Executing { chosen, delete_upstream, confirmed: true }
            } else {
                FlowView::Cancelled
            },
            EventView::Cancelled => FlowView::Cancelled,
            _ => FlowView::Aborted,
        },
        _ => flow,
    }
}

/// What a state asks of the caller.
pub open spec fn request_of(flow: FlowView) -> Request {
    match flow {
        FlowView::Idle => Request::Enumerate,
        FlowView::Selecting { .. } => Request::SelectBranches,
        FlowView::ConfirmingUpstreamScope { .. } => Request::ConfirmUpstreamScope,
        FlowView::ConfirmingExecution { .. } => Request::ConfirmExecution,
        FlowView::Executing { .. } => Request::Execute,
        FlowView::NothingEligible { .. } => Request::Exit { success: true },
        FlowView::Cancelled => Request::Exit { success: true },
        FlowView::Aborted => Request::Exit { success: false },
    }
}

/// The deletions that a state stands for: those of its selection where it
/// is executing, none in any other state.
pub open spec fn planned(flow: FlowView, remote_available: bool, remotes: Seq<Seq<char>>) -> Seq<StepView> {
    match flow {
        FlowView::Executing { chosen, delete_upstream, confirmed } => plan_of(
            chosen,
            delete_upstream,
            confirmed,
            remote_available, remotes,
        ),
        _ => Seq::empty(),
    }
}

/// What is said on leaving: where no branch can be offered, that there is
/// none, and, where a branch is checked out, that this one cannot be deleted.
pub open spec fn notes_of(flow: FlowView) -> Seq<LineView> {
    match flow {
        FlowView::NothingEligible { on_branch } => if on_branch {
            seq![
                LineView { tone: Tone::Plain, text: "No branches eligible to delete."@ },
                LineView {
                    tone: Tone::Notice,
                    text: "You can not delete the branch to are staying in. Please switch to another one."@,
                },
            ]
        } else {
            seq![LineView { tone: Tone::Plain, text: "No branches eligible to delete."@ }]
        },
        _ => Seq::empty(),
    }
}

/// The question of a request that asks the operator something.
pub open spec fn message_of(request: Request) -> Option<Seq<char>> {
    match request {
        Request::SelectBranches => Some("Select branches to delete"@),
        Request::ConfirmUpstreamScope => Some("Do you want to delete the upstream branches also?"@),
        Request::ConfirmExecution => Some("Ready to delete?"@),
        _ => None,
    }
}

/// The question of a request, or none where it asks the operator nothing.
pub fn prompt_message(request: Request) -> (message: Option<String>)
    ensures
        opt_text(message) == message_of(request),
{
    match request {
        Request::SelectBranches => Some(String::from_str("Select branches to delete")),
        Request::ConfirmUpstreamScope => Some(
            String::from_str("Do you want to delete the upstream branches also?"),
        ),
        Request::ConfirmExecution => Some(String::from_str("Ready to delete?")),
        _ => None,
    }
}

/// The candidates at the picked positions, or none where a pick is outside the list.
fn pick_candidates(candidates: &Vec<BranchChoice>, picks: &Vec<usize>) -> (chosen: Option<Vec<BranchChoice>>)
    ensures
        chosen is Some <==> picks_valid(picks@, candidates@.len()),
        chosen is Some ==> choice_views(chosen->0@) == picked(choice_views(candidates@), picks@),
{
    let mut chosen: Vec<BranchChoice> = Vec::new();
    let mut i: usize = 0;
    while i < picks.len()
        invariant
            i <= picks.len(),
            chosen.len() == i,
            forall|k: int| 0 <= k < i ==> picks[k] < candidates.len(),
            forall|k: int| 0 <= k < i ==> (#[trigger] chosen[k])@ == candidates[picks[k] as int]@,
        decreases picks.len() - i,
    {
        let k = picks[i];
        if k >= candidates.len() {
            return None;
        }
        chosen.push(candidates[k].duplicate());
        i += 1;
    }
    assert(choice_views(chosen@) =~= picked(choice_views(candidates@), picks@));
    Some(chosen)
}

impl Flow {
    /// The state in which every run begins.
    pub fn start() -> (flow: Flow)
        ensures
            flow@ == FlowView::Idle,
    {
        Flow::Idle
    }

    /// The state after `event`.
    pub fn advance(self, event: Event) -> (next: Flow)
        ensures
            next@ == advance_spec(self@, event@),
    {
        match self {
            Flow::Idle => match event {
                Event::Enumerated { candidates, head_is_branch } => {
                    if candidates.len() == 0 {
                        Flow::NothingEligible { on_branch: head_is_branch }
                    } else {
                        Flow::Selecting { candidates }
                    }
                },
                Event::Cancelled => Flow::Cancelled,
                _ => Flow::Aborted,
            },
            Flow::Selecting { candidates } => match event {
                Event::Picked { picks } => match pick_candidates(&candidates, &picks) {
                    Some(chosen) => Flow::ConfirmingUpstreamScope { chosen },
                    None => Flow::Aborted,
                },
                Event::Cancelled => Flow::Cancelled,
                _ => Flow::Aborted,
            },
            Flow::ConfirmingUpstreamScope { chosen } => match event {
                Event::Answered { yes } => Flow::ConfirmingExecution { chosen, delete_upstream: yes },
                Event::Cancelled => Flow::Cancelled,
                _ => Flow::Aborted,
            },
            Flow::ConfirmingExecution { chosen, delete_upstream } => match event {
                Event::Answered { yes } => {
                    if yes {
                        Flow::Executing {
                            selection: Selection { chosen, delete_upstream, confirmed: true },
                        }
                    } else {
                        Flow::Cancelled
                    }
                },
                Event::Cancelled => Flow::Cancelled,
                _ => Flow::Aborted,
            },
            Flow::Executing { selection } => Flow::Executing { selection },
            Flow::NothingEligible { on_branch } => Flow::NothingEligible { on_branch },
            Flow::Cancelled => Flow::Cancelled,
            Flow::Aborted => Flow::Aborted,
        }
    }

    /// What this state asks of the caller.
    pub fn request(&self) -> (request: Request)
        ensures
            request == request_of(self@),
    {
        match self {
            Flow::Idle => Request::Enumerate,
            Flow::Selecting { .. } => Request::SelectBranches,
            Flow::ConfirmingUpstreamScope { .. } => Request::ConfirmUpstreamScope,
            Flow::ConfirmingExecution { .. } => Request::ConfirmExecution,
            Flow::Executing { .. } => Request::Execute,
            Flow::NothingEligible { .. } => Request::Exit { success: true },
            Flow::Cancelled => Request::Exit { success: true },
            Flow::Aborted => Request::Exit { success: false },
        }
    }

    /// What is said on leaving in this state.
    pub fn notes(&self) -> (lines: Vec<ReportLine>)
        ensures
            line_views(lines@) == notes_of(self@),
            lines@.len() == notes_of(self@).len(),
    {
        let mut lines: Vec<ReportLine> = Vec::new();
        match self {
            Flow::NothingEligible { on_branch } => {
                lines.push(line_of(Tone::Plain, "No branches eligible to delete.", ""));
                if *on_branch {
                    lines.push(
                        line_of(
                            Tone::Notice,
                            "You can not delete the branch to are staying in. Please switch to another one.",
                            "",
                        ),
                    );
                }
                proof {
                    reveal_strlit("");
                    assert("No branches eligible to delete."@ + ""@ =~= "No branches eligible to delete."@);
                    assert("You can not delete the branch to are staying in. Please switch to another one."@
                        + ""@
                        =~= "You can not delete the branch to are staying in. Please switch to another one."@);
                    assert(line_views(lines@) =~= notes_of(self@));
                }
            },
            _ => {
                assert(line_views(lines@) =~= notes_of(self@));
            },
        }
        lines
    }

    /// The batch of deletions that this state stands for: that of its
    /// selection where it is executing, an empty one in any other state.
    pub fn batch(&self, remote_available: bool, remotes: &Vec<String>) -> (batch: Batch)
        ensures
            step_views(batch.steps@) == planned(self@, remote_available, texts(remotes@)),
            batch.steps@.len() == planned(self@, remote_available, texts(remotes@)).len(),
            batch.settled@.len() == 0,
    {
        match self {
            Flow::Executing { selection } => Batch::new(selection, remote_available, remotes),
            _ => {
                let batch = Batch { steps: Vec::new(), settled: Vec::new() };
                assert(step_views(batch.steps@) =~= Seq::<StepView>::empty());
                batch
            },
        }
    }
}

/// The state after each of `events` in turn.
pub open spec fn run(flow: FlowView, events: Seq<EventView>) -> FlowView
    decreases events.len(),
{
    if events.len() == 0 {
        flow
    } else {
        advance_spec(run(flow, events.drop_last()), events.last())
    }
}

/// Whether a state is one of the three prompts.
pub open spec fn is_prompt(flow: FlowView) -> bool {
    flow is Selecting || flow is ConfirmingUpstreamScope || flow is ConfirmingExecution
}

/// Leaving any prompt cancels the run: no deletion is planned and the run
/// reports success.
pub proof fn lemma_cancel_deletes_nothing(flow: FlowView, remote_available: bool, remotes: Seq<Seq<char>>)
    requires
        is_prompt(flow),
    ensures
        advance_spec(flow, EventView::Cancelled) == FlowView::Cancelled,
        planned(advance_spec(flow, EventView::Cancelled), remote_available, remotes) == Seq::<StepView>::empty(),
        request_of(advance_spec(flow, EventView::Cancelled)) == (Request::Exit { success: true }),
{
}

/// A cancelled run stays cancelled, whatever comes after.
pub proof fn lemma_cancelled_stays(events: Seq<EventView>)
    ensures
        run(FlowView::Cancelled, events) == FlowView::Cancelled,
    decreases events.len(),
{
    if events.len() > 0 {
        lemma_cancelled_stays(events.drop_last());
    }
}

/// Refusing the final go-ahead is the same as leaving the prompt.
pub proof fn lemma_decline_is_cancel(chosen: Seq<ChoiceView>, delete_upstream: bool)
    ensures
        advance_spec(
            FlowView::ConfirmingExecution { chosen, delete_upstream },
            EventView::Answered { yes: false },
        ) == advance_spec(
            FlowView::ConfirmingExecution { chosen, delete_upstream },
            EventView::Cancelled,
        ),
        advance_spec(
            FlowView::ConfirmingExecution { chosen, delete_upstream },
            EventView::Answered { yes: false },
        ) == FlowView::Cancelled,
{
}

/// Execution is entered in one way only: by a yes to the final
/// confirmation, with the selection that was confirmed.
pub proof fn lemma_execution_needs_go_ahead(flow: FlowView, event: EventView)
    requires
        !(flow is Executing),
        advance_spec(flow, event) is Executing,
    ensures
        flow is ConfirmingExecution,
        event == (EventView::Answered { yes: true }),
        advance_spec(flow, event) == (FlowView::Executing {
            chosen: flow->ConfirmingExecution_chosen,
            delete_upstream: flow->ConfirmingExecution_delete_upstream,
            confirmed: true,
        }),
{
}

/// How often the operator said yes.
pub open spec fn yes_count(events: Seq<EventView>) -> nat {
    events.filter(|e: EventView| e == (EventView::Answered { yes: true })).len()
}

/// How often the operator must have said yes for the flow to stand where
/// it stands: once for the final go-ahead, once more where upstreams are in scope.
pub open spec fn yes_needed(flow: FlowView) -> nat {
    match flow {
        FlowView::ConfirmingExecution { delete_upstream, .. } => if delete_upstream {
            1
        } else {
            0
        },
        FlowView::Executing { delete_upstream, .. } => if delete_upstream {
            2
        } else {
            1
        },
        _ => 0,
    }
}

/// From the start, the flow never stands further than the operator's yeses
/// carry it, and it executes confirmed selections only.
pub proof fn lemma_flow_needs_yes(events: Seq<EventView>)
    ensures
        yes_needed(run(FlowView::Idle, events)) <= yes_count(events),
        run(FlowView::Idle, events) is Executing ==> run(FlowView::Idle, events)->confirmed,
    decreases events.len(),
{
    let is_yes = |e: EventView| e == (EventView::Answered { yes: true });
    if events.len() == 0 {
        assert(events.filter(is_yes).len() == 0) by {
            events.lemma_filter_len(is_yes);
        }
    } else {
        lemma_flow_needs_yes(events.drop_last());
        assert(events =~= events.drop_last().push(events.last()));
        events.drop_last().lemma_filter_push(events.last(), is_yes);
    }
}

/// Selection alone deletes nothing: from the start, no course of events in
/// which the operator never said yes plans a deletion.
pub proof fn lemma_no_deletion_without_go_ahead(events: Seq<EventView>, remote_available: bool, remotes: Seq<Seq<char>>)
    requires
        yes_count(events) == 0,
    ensures
        !(run(FlowView::Idle, events) is Executing),
        planned(run(FlowView::Idle, events), remote_available, remotes) == Seq::<StepView>::empty(),
{
    lemma_flow_needs_yes(events);
}

/// The candidates that a state holds.
pub open spec fn choices_in(flow: FlowView) -> Seq<ChoiceView> {
    match flow {
        FlowView::Selecting { candidates } => candidates,
        FlowView::ConfirmingUpstreamScope { chosen } => chosen,
        FlowView::ConfirmingExecution { chosen, .. } => chosen,
        FlowView::Executing { chosen, .. } => chosen,
        _ => Seq::empty(),
    }
}

/// The candidates that an event brings.
pub open spec fn offered_in(event: EventView) -> Seq<ChoiceView> {
    match event {
        EventView::Enumerated { candidates, .. } => candidates,
        _ => Seq::empty(),
    }
}

/// Every candidate that the events bring bears a name that `allowed` accepts.
pub open spec fn offers_only(events: Seq<EventView>, allowed: spec_fn(Seq<char>) -> bool) -> bool {
    forall|i: int, j: int|
        0 <= i < events.len() && 0 <= j < offered_in(events[i]).len() ==> allowed(
            #[trigger] offered_in(events[i])[j].branch_name,
        )
}

/// From the start, a state holds no candidate but those that were listed.
pub proof fn lemma_flow_holds_offered(events: Seq<EventView>, allowed: spec_fn(Seq<char>) -> bool)
    requires
        offers_only(events, allowed),
    ensures
        forall|j: int|
            0 <= j < choices_in(run(FlowView::Idle, events)).len() ==> allowed(
                #[trigger] choices_in(run(FlowView::Idle, events))[j].branch_name,
            ),
    decreases events.len(),
{
    if events.len() > 0 {
        let head = events.drop_last();
        let last = events.last();
        assert(offers_only(head, allowed)) by {
            assert forall|i: int, j: int|
                0 <= i < head.len() && 0 <= j < offered_in(head[i]).len() implies allowed(
                #[trigger] offered_in(head[i])[j].branch_name,
            ) by {
                assert(head[i] == events[i]);
                assert(allowed(offered_in(events[i])[j].branch_name));
            }
        }
        lemma_flow_holds_offered(head, allowed);
        let before = run(FlowView::Idle, head);
        let after = run(FlowView::Idle, events);
        assert forall|j: int| 0 <= j < choices_in(after).len() implies allowed(
            #[trigger] choices_in(after)[j].branch_name,
        ) by {
            if before is Idle {
                assert(last == events[events.len() - 1]);
                assert(allowed(offered_in(events[events.len() - 1])[j].branch_name));
            } else if before is Selecting {
                let picks = last->picks;
                let held = choices_in(before);
                assert(choices_in(after)[j] == held[picks[j] as int]);
                assert(allowed(choices_in(before)[picks[j] as int].branch_name));
            } else {
                assert(choices_in(after)[j] == choices_in(before)[j]);
                assert(allowed(choices_in(before)[j].branch_name));
            }
        }
    }
}

/// Nothing is deleted but what was offered: from the start, every step
/// that a course of events plans concerns a branch that was listed as a
/// candidate. A name that no listing offers is the name of no deletion.
pub proof fn lemma_deletes_only_offered(
    events: Seq<EventView>,
    allowed: spec_fn(Seq<char>) -> bool,
    remote_available: bool, remotes: Seq<Seq<char>>,
)
    requires
        offers_only(events, allowed),
    ensures
        forall|k: int|
            0 <= k < planned(run(FlowView::Idle, events), remote_available, remotes).len() ==> allowed(
                branch_of(#[trigger] planned(run(FlowView::Idle, events), remote_available, remotes)[k]),
            ),
{
    lemma_flow_holds_offered(events, allowed);
    let flow = run(FlowView::Idle, events);
    let plan = planned(flow, remote_available, remotes);
    assert forall|k: int| 0 <= k < plan.len() implies allowed(branch_of(#[trigger] plan[k])) by {
        let chosen = flow->Executing_chosen;
        let in_scope = flow->Executing_delete_upstream && remote_available;
        lemma_steps_concern_chosen(chosen, in_scope, k, remotes);
        let i = choose|i: int|
            0 <= i < chosen.len() && (#[trigger] chosen[i]).branch_name == branch_of(
                steps_of_all(chosen, in_scope, remotes)[k],
            );
        assert(choices_in(flow)[i] == chosen[i]);
        assert(allowed(choices_in(flow)[i].branch_name));
    }
}

} // verus!
