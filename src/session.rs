//! One engine operation as a state machine: the caller performs each action
//! on the sysroot and hands back what came of it. The machine takes the
//! sysroot lock first, releases it on every path, and aborts the merge
//! transaction on any failure inside it.
use vstd::prelude::*;

use crate::deploy::{
    deploy_error, deploy_plan_of, deployable, group_view, merges, plan_deploy, MergePlan, MergedOrigin,
};
use crate::derive::{derive_state, reports, DeploymentInfo};
use crate::error::Error;
use crate::pull::{
    extensions_wf, finish_pull, plan_pull, pull_outcome, pull_plan_error, pull_refs, pull_remote,
    PullPlan, Resolution,
};
use crate::refspec::is_refspec;
use crate::state::{switchable, switched, with_extensions, without_id, State, StateView};

verus! {

/// An operation that changes (or, for `Check`, only inspects) the deployments.
#[derive(Debug, Clone)]
pub enum Operation {
    Check,
    Apply,
    Switch(String),
    Reset(String),
    AddExtension(Vec<String>),
    Update(UpdateRequest),
}

/// A combined change of intent: drop every extension (`reset`), move to a
/// channel, add the ids of `add`, then drop the ids of `remove`; with
/// `check_only`, only look for updates.
#[derive(Debug, Clone)]
pub struct UpdateRequest {
    pub reset: bool,
    pub channel: Option<String>,
    pub add: Vec<String>,
    pub remove: Vec<String>,
    pub check_only: bool,
}

/// Whether the operation only inspects: its pull fetches commits only and it
/// never deploys.
pub open spec fn is_dry_run(op: Operation) -> bool {
    op is Check || (op matches Operation::Update(r) && r.check_only)
}

/// `s` without the extensions of any id in `ids`.
pub open spec fn without_ids(s: StateView, ids: Seq<Seq<char>>) -> StateView
    decreases ids.len(),
{
    if ids.len() == 0 {
        s
    } else {
        let t = without_ids(s, ids.drop_last());
        StateView { extensions: without_id(t.extensions, ids.last()), ..t }
    }
}

/// The state that the update request `r` pulls, from `s`.
pub open spec fn updated(s: StateView, r: UpdateRequest) -> Option<StateView> {
    let s1 = if r.reset {
        StateView { extensions: Seq::empty(), ..s }
    } else {
        s
    };
    let s2 = match r.channel {
        Some(c) => if switchable(s1, c@) {
            Some(switched(s1, c@))
        } else {
            None
        },
        None => Some(s1),
    };
    match s2 {
        None => None,
        Some(t) => match with_extensions(t, r.add.deep_view()) {
            None => None,
            Some(u) => Some(without_ids(u, r.remove.deep_view())),
        },
    }
}

/// The state an operation pulls, given the current state `s`.
pub open spec fn intent_of(op: Operation, s: StateView) -> Option<StateView> {
    match op {
        Operation::Check => Some(s),
        Operation::Apply => Some(s),
        Operation::Switch(c) => if switchable(s, c@) {
            Some(switched(s, c@))
        } else {
            None
        },
        Operation::Reset(c) => if switchable(s, c@) {
            Some(StateView { extensions: Seq::empty(), ..switched(s, c@) })
        } else {
            None
        },
        Operation::AddExtension(ids) => with_extensions(s, ids.deep_view()),
        Operation::Update(r) => updated(s, r),
    }
}

proof fn lemma_with_extensions_prefix_none(s: StateView, ids: Seq<Seq<char>>, k: int)
    requires
        0 <= k <= ids.len(),
        with_extensions(s, ids.take(k)) is None,
    ensures
        with_extensions(s, ids) is None,
    decreases ids.len() - k,
{
    if k < ids.len() {
        assert(ids.take(k + 1).drop_last() =~= ids.take(k));
        lemma_with_extensions_prefix_none(s, ids, k + 1);
    } else {
        assert(ids.take(k) =~= ids);
    }
}

/// The state that `op` pulls, from the current state `current`: the same for
/// `Check` and `Apply`; moved to the channel for `Switch`; moved and without
/// extensions for `Reset`; with each non-empty id added for `AddExtension`.
/// Fails with `BadRefspec` where the channel or an id does not fit.
pub fn intent_for(op: &Operation, current: State) -> (r: Result<State, Error>)
    ensures
        match r {
            Ok(x) => intent_of(*op, current@) == Some(x@),
            Err(e) => intent_of(*op, current@) is None && e is BadRefspec,
        },
{
    let mut s = current;
    match op {
        Operation::Check => Ok(s),
        Operation::Apply => Ok(s),
        Operation::Switch(c) => {
            s.switch_channel(c.as_str())?;
            Ok(s)
        },
        Operation::Reset(c) => {
            s.switch_channel(c.as_str())?;
            s.clear_extensions();
            Ok(s)
        },
        Operation::AddExtension(ids) => {
            add_all(&mut s, ids)?;
            Ok(s)
        },
        Operation::Update(r) => {
            if r.reset {
                s.clear_extensions();
            }
            if let Some(c) = &r.channel {
                s.switch_channel(c.as_str())?;
            }
            add_all(&mut s, &r.add)?;
            let mut i: usize = 0;
            let ghost t = s@;
            assert(r.remove.deep_view().take(0) =~= Seq::<Seq<char>>::empty());
            while i < r.remove.len()
                invariant
                    i <= r.remove.len(),
                    s@ == without_ids(t, r.remove.deep_view().take(i as int)),
                decreases r.remove.len() - i,
            {
                let ghost ev = r.remove.deep_view();
                assert(ev.take(i as int + 1).drop_last() =~= ev.take(i as int));
                assert(ev.take(i as int + 1).last() == r.remove[i as int]@);
                s.remove_extension(r.remove[i].as_str());
                i = i + 1;
            }
            assert(r.remove.deep_view().take(r.remove.len() as int) =~= r.remove.deep_view());
            Ok(s)
        },
    }
}

/// Adds each non-empty id of `ids` in order; on failure the state is that of
/// the ids before.
fn add_all(s: &mut State, ids: &Vec<String>) -> (r: Result<(), Error>)
    ensures
        match r {
            Ok(_) => with_extensions(old(s)@, ids.deep_view()) == Some(final(s)@),
            Err(e) => with_extensions(old(s)@, ids.deep_view()) is None && e is BadRefspec,
        },
{
    let ghost s0 = s@;
    let mut i: usize = 0;
    assert(ids.deep_view().take(0) =~= Seq::<Seq<char>>::empty());
    while i < ids.len()
        invariant
            i <= ids.len(),
            s0 == old(s)@,
            with_extensions(s0, ids.deep_view().take(i as int)) == Some(s@),
        decreases ids.len() - i,
    {
        let ghost iv = ids.deep_view();
        assert(iv.take(i as int + 1).drop_last() =~= iv.take(i as int));
        assert(iv.take(i as int + 1).last() == ids[i as int]@);
        if ids[i].unicode_len() > 0 {
            match s.add_extension(ids[i].as_str()) {
                Ok(_) => {},
                Err(e) => {
                    assert(with_extensions(s0, iv.take(i as int + 1)) is None);
                    proof {
                        lemma_with_extensions_prefix_none(s0, iv, i as int + 1);
                    }
                    return Err(e);
                },
            }
        }
        i = i + 1;
    }
    assert(ids.deep_view().take(ids.len() as int) =~= ids.deep_view());
    Ok(())
}

/// What the caller does next.
#[derive(Debug)]
pub enum Action {
    /// Take the sysroot's exclusive lock.
    Lock,
    /// Read the merge deployment, the metadata of its commit, and the
    /// configured remotes; answer with `Event::StateRead`.
    ReadState,
    /// Pull, then resolve each ref and read each new commit's subject and
    /// body; answer with `Event::Pulled`.
    Pull(PullPlan),
    PrepareTransaction,
    /// Write the merged commit and set the local ref inside the transaction;
    /// answer with `Event::Merged` and the new commit.
    WriteMerge(MergePlan),
    CommitTransaction,
    AbortTransaction,
    /// Deploy `revision` with an origin from `origin_refspec` (and the
    /// `rlxos` group, if any), beside the previous deployment, without cleaning.
    Deploy { revision: String, origin_refspec: String, origin_group: Option<MergedOrigin> },
    Unlock,
    /// Clean the sysroot up.
    Cleanup,
    /// The operation is over: whether anything changed, and the changelog.
    Finish(Result<(bool, String), Error>),
}

/// What came of the last action.
#[derive(Debug)]
pub enum Event {
    /// The action succeeded.
    Done,
    /// The action failed.
    Failed(Error),
    StateRead { deployment: DeploymentInfo, metadata: Vec<(String, String)>, remotes: Vec<String> },
    Pulled(Vec<Resolution>),
    Merged(String),
}

/// Where an operation stands.
#[derive(Debug)]
pub enum Phase {
    Start,
    Locking,
    Reading,
    Pulling { intent: State },
    Preparing {
        merge: MergePlan,
        origin_refspec: String,
        origin_group: Option<MergedOrigin>,
        changelog: String,
    },
    Writing { origin_refspec: String, origin_group: Option<MergedOrigin>, changelog: String },
    Committing {
        origin_refspec: String,
        origin_group: Option<MergedOrigin>,
        changelog: String,
        commit: String,
    },
    Deploying { changelog: String },
    Aborting { error: Error },
    Unlocking { result: Result<(bool, String), Error> },
    Cleaning { result: Result<(bool, String), Error> },
    Done,
}

/// Whether the sysroot lock is held in `p`.
pub open spec fn holds_lock(p: Phase) -> bool {
    !(p is Start || p is Locking || p is Cleaning || p is Done)
}

/// Whether the transaction is open in `p`.
pub open spec fn in_transaction(p: Phase) -> bool {
    p is Writing || p is Committing
}

/// Whether `p` comes after a failure or the end of the work: from there on
/// only the lock is released, the sysroot cleaned and the result reported.
pub open spec fn winding_down(p: Phase) -> bool {
    p is Aborting || p is Unlocking || p is Cleaning || p is Done
}

/// How far along `p` is; every step moves strictly forward until `Done`.
pub open spec fn rank(p: Phase) -> nat {
    match p {
        Phase::Start => 0,
        Phase::Locking => 1,
        Phase::Reading => 2,
        Phase::Pulling { .. } => 3,
        Phase::Preparing { .. } => 4,
        Phase::Writing { .. } => 5,
        Phase::Committing { .. } => 6,
        Phase::Deploying { .. } => 7,
        Phase::Aborting { .. } => 8,
        Phase::Unlocking { .. } => 9,
        Phase::Cleaning { .. } => 10,
        Phase::Done => 11,
    }
}

/// Whether `e` is an answer that the action of phase `p` can have.
pub open spec fn fits(p: Phase, e: Event) -> bool {
    e is Failed || match p {
        Phase::Reading => e is StateRead,
        Phase::Pulling { .. } => e is Pulled,
        Phase::Writing { .. } => e is Merged,
        _ => e is Done,
    }
}

/// Whether an action changes the sysroot or the object store.
pub open spec fn writes(a: Action) -> bool {
    a is WriteMerge || a is CommitTransaction || a is Deploy
}

/// An operation in progress.
#[derive(Debug)]
pub struct Session {
    pub op: Operation,
    pub arch: String,
    pub phase: Phase,
}

/// Whether the pull of `s` can be planned with the configured `remotes`.
pub open spec fn pull_plannable(s: StateView, remotes: Seq<String>) -> bool {
    is_refspec(s.core.refspec) && pull_remote(s, remotes) is Some && extensions_wf(s)
}

/// Whether `r` unlocks with `result`: the next phase is `Unlocking { result }`
/// and the action is `Unlock`.
pub open spec fn unlocks_with(r: (Session, Action), result: Result<(bool, String), Error>) -> bool {
    r.0.phase == (Phase::Unlocking { result }) && r.1 is Unlock
}

/// Whether `r` unlocks with an error for which `p` holds.
pub open spec fn unlocks_with_error(r: (Session, Action), p: spec_fn(Error) -> bool) -> bool {
    r.1 is Unlock && (r.0.phase matches Phase::Unlocking { result } && (result matches Err(e) && p(e)))
}

/// What follows reading the merge deployment `d` (commit metadata `md`, the
/// configured `remotes`) for `op` on `arch`: the pull of the intended state,
/// or unlocking with the error that deriving, changing or planning it gave.
pub open spec fn read_step(
    op: Operation,
    arch: Seq<char>,
    d: DeploymentInfo,
    md: Seq<(String, String)>,
    remotes: Seq<String>,
    r: (Session, Action),
) -> bool {
    match derive_state(d, md, arch) {
        Err(f) => unlocks_with_error(r, |e: Error| reports(e, f, d)),
        Ok(current) => match intent_of(op, current) {
            None => unlocks_with_error(r, |e: Error| e is BadRefspec),
            Some(intent) => if pull_plannable(intent, remotes) {
                (r.1 matches Action::Pull(p) && p.refs.deep_view() == pull_refs(intent) && p.remote@
                    == pull_remote(intent, remotes).unwrap() && p.commit_only == is_dry_run(op))
                    && (r.0.phase matches Phase::Pulling { intent: i } && i@ == intent)
            } else {
                unlocks_with_error(r, |e: Error| pull_plan_error(intent, remotes, e))
            },
        },
    }
}

/// What follows the pull of `intent` whose refs resolved as `rs`: unlocking
/// with `NoRevisionForRefSpec` of the first unresolved ref; unlocking with
/// the pull's `(changed, changelog)` for a dry run or when nothing moved;
/// unlocking with the planning error; else the merge transaction, or the
/// deployment of the core commit.
pub open spec fn pull_step(op: Operation, intent: State, rs: Seq<Resolution>, r: (Session, Action)) -> bool {
    match pull_outcome(intent@, rs) {
        Err(refspec) => unlocks_with_error(
            r,
            |e: Error| (e matches Error::NoRevisionForRefSpec(m) && m@ == refspec),
        ),
        Ok(v) => if is_dry_run(op) || !v.changed {
            r.1 is Unlock && (r.0.phase matches Phase::Unlocking { result } && (result matches Ok(
                (c, log),
            ) && c == v.changed && log@ == v.changelog))
        } else if !deployable(v.resolved) {
            unlocks_with_error(r, |e: Error| deploy_error(v.resolved, e))
        } else if merges(v.resolved) {
            let plan = deploy_plan_of(v.resolved);
            r.1 is PrepareTransaction && (r.0.phase matches Phase::Preparing {
                merge,
                origin_refspec,
                origin_group,
                changelog,
            } && Some(merge@) == plan.merge && origin_refspec@ == plan.origin_refspec && group_view(
                origin_group,
            ) == plan.origin_group && changelog@ == v.changelog)
        } else {
            (r.1 matches Action::Deploy { revision, origin_refspec, origin_group } && revision@
                == v.resolved.core.revision && origin_refspec@ == v.resolved.core.refspec
                && origin_group is None) && (r.0.phase matches Phase::Deploying { changelog }
                && changelog@ == v.changelog)
        },
    }
}

/// What one step from `s` with the answer `event` gives, phase by phase.
pub open spec fn stepped(s: Session, event: Event, r: (Session, Action)) -> bool {
    &&& r.0.op == s.op
    &&& r.0.arch == s.arch
    &&& match (s.phase, event) {
        (Phase::Start, _) => r.0.phase is Locking && r.1 is Lock,
        (Phase::Locking, Event::Failed(e)) => r.0.phase is Done && r.1 == Action::Finish(Err(e)),
        (Phase::Locking, _) => r.0.phase is Reading && r.1 is ReadState,
        (Phase::Reading, Event::StateRead { deployment, metadata, remotes }) => read_step(
            s.op,
            s.arch@,
            deployment,
            metadata@,
            remotes@,
            r,
        ),
        (Phase::Pulling { intent }, Event::Pulled(rs)) => pull_step(s.op, intent, rs@, r),
        (Phase::Preparing { .. }, Event::Failed(e)) => unlocks_with(r, Err(e)),
        (Phase::Preparing { merge, origin_refspec, origin_group, changelog }, _) => r.0.phase == (
        Phase::Writing { origin_refspec, origin_group, changelog }) && r.1 == Action::WriteMerge(
            merge,
        ),
        (Phase::Writing { origin_refspec, origin_group, changelog }, Event::Merged(commit)) => r.0.phase
            == (Phase::Committing { origin_refspec, origin_group, changelog, commit })
            && r.1 is CommitTransaction,
        (Phase::Writing { .. }, Event::Failed(e)) => r.0.phase == (Phase::Aborting { error: e })
            && r.1 is AbortTransaction,
        (Phase::Committing { .. }, Event::Failed(e)) => r.0.phase == (Phase::Aborting { error: e })
            && r.1 is AbortTransaction,
        (Phase::Committing { origin_refspec, origin_group, changelog, commit }, _) => r.0.phase == (
        Phase::Deploying { changelog }) && r.1 == (Action::Deploy {
            revision: commit,
            origin_refspec,
            origin_group,
        }),
        (Phase::Deploying { .. }, Event::Failed(e)) => unlocks_with(r, Err(e)),
        (Phase::Deploying { changelog }, _) => unlocks_with(r, Ok((true, changelog))),
        (Phase::Aborting { error }, _) => unlocks_with(r, Err(error)),
        (Phase::Unlocking { result }, _) => r.0.phase == (Phase::Cleaning { result }) && r.1 is Cleanup,
        (Phase::Cleaning { result }, Event::Failed(e)) => r.0.phase is Done && r.1 == Action::Finish(
            if result is Ok {
                Err(e)
            } else {
                result
            },
        ),
        (Phase::Cleaning { result }, _) => r.0.phase is Done && r.1 == Action::Finish(result),
        (_, Event::Failed(e)) => unlocks_with(r, Err(e)),
        _ => true,
    }
}

/// A failure inside the merge transaction surfaces unchanged: the
/// transaction is aborted, the lock released, the sysroot cleaned, and the
/// operation finishes with that very error, whatever the later steps report.
pub proof fn lemma_merge_failure_surfaces(
    s0: Session,
    e: Error,
    r1: (Session, Action),
    a1: Event,
    r2: (Session, Action),
    a2: Event,
    r3: (Session, Action),
    a3: Event,
    r4: (Session, Action),
)
    requires
        in_transaction(s0.phase),
        stepped(s0, Event::Failed(e), r1),
        stepped(r1.0, a1, r2),
        stepped(r2.0, a2, r3),
        stepped(r3.0, a3, r4),
    ensures
        r1.1 is AbortTransaction,
        r2.1 is Unlock,
        r3.1 is Cleanup,
        r4.1 == Action::Finish(Err::<(bool, String), Error>(e)),
        r4.0.phase is Done,
{
}

/// Once an operation has its result, releasing the lock and cleaning up keep
/// it: it finishes with that result when cleanup succeeds, and with the
/// cleanup's error only when the result was a success.
pub proof fn lemma_result_carried(
    s0: Session,
    a0: Event,
    r1: (Session, Action),
    a1: Event,
    r2: (Session, Action),
)
    requires
        s0.phase is Unlocking,
        stepped(s0, a0, r1),
        stepped(r1.0, a1, r2),
    ensures
        r1.1 is Cleanup,
        s0.phase matches Phase::Unlocking { result } && (a1 is Done ==> r2.1 == Action::Finish(result))
            && (result is Err ==> r2.1 == Action::Finish(result)),
{
}

fn unlock_with(op: Operation, arch: String, result: Result<(bool, String), Error>) -> (r: (Session, Action))
    ensures
        r.0 == (Session { op, arch, phase: Phase::Unlocking { result } }),
        r.1 is Unlock,
{
    (Session { op, arch, phase: Phase::Unlocking { result } }, Action::Unlock)
}

/// Whether `op` only inspects.
pub fn dry_run_of(op: &Operation) -> (r: bool)
    ensures
        r == is_dry_run(*op),
{
    match op {
        Operation::Check => true,
        Operation::Update(r) => r.check_only,
        _ => false,
    }
}

impl Session {
    /// A new session for `op` on the architecture `arch`.
    pub fn new(op: Operation, arch: String) -> (r: Session)
        ensures
            r == (Session { op, arch, phase: Phase::Start }),
    {
        Session { op, arch, phase: Phase::Start }
    }

    /// Whether the operation is over.
    pub fn is_done(&self) -> (r: bool)
        ensures
            r == self.phase is Done,
    {
        match self.phase {
            Phase::Done => true,
            _ => false,
        }
    }

    /// Whether `event` can answer the last action.
    pub fn accepts(&self, event: &Event) -> (r: bool)
        ensures
            r == fits(self.phase, *event),
    {
        match event {
            Event::Failed(_) => true,
            Event::StateRead { .. } => match self.phase {
                Phase::Reading => true,
                _ => false,
            },
            Event::Pulled(_) => match self.phase {
                Phase::Pulling { .. } => true,
                _ => false,
            },
            Event::Merged(_) => match self.phase {
                Phase::Writing { .. } => true,
                _ => false,
            },
            Event::Done => match self.phase {
                Phase::Reading => false,
                Phase::Pulling { .. } => false,
                Phase::Writing { .. } => false,
                _ => true,
            },
        }
    }

    /// Moves on with what came of the last action, and says what to do next
    /// (see `stepped` for each phase and answer).
    pub fn step(self, event: Event) -> (r: (Session, Action))
        requires
            !(self.phase is Done),
            fits(self.phase, event),
        ensures
            stepped(self, event, r),
            // Every step moves forward, so every operation finishes.
            rank(r.0.phase) > rank(self.phase),
            r.1 is Finish <==> r.0.phase is Done,
            // The lock is only given up through `Unlocking`, whose entry asks
            // for `Unlock`; the operation finishes only once it is given up.
            r.1 is Unlock <==> r.0.phase is Unlocking,
            holds_lock(self.phase) && !holds_lock(r.0.phase) ==> self.phase is Unlocking,
            r.1 is Finish ==> !holds_lock(self.phase),
            // After a failure nothing is written: a failure inside the merge
            // transaction aborts it, and no deployment follows.
            winding_down(self.phase) ==> winding_down(r.0.phase) && !writes(r.1),
            in_transaction(self.phase) && event is Failed ==> r.1 is AbortTransaction,
            r.1 is WriteMerge ==> self.phase is Preparing,
            r.1 is CommitTransaction ==> self.phase is Writing && event is Merged,
    {
        let Session { op, arch, phase } = self;
        match phase {
            Phase::Start => (Session { op, arch, phase: Phase::Locking }, Action::Lock),
            Phase::Locking => match event {
                Event::Failed(e) => (Session { op, arch, phase: Phase::Done }, Action::Finish(Err(e))),
                _ => (Session { op, arch, phase: Phase::Reading }, Action::ReadState),
            },
            Phase::Reading => match event {
                Event::StateRead { deployment, metadata, remotes } => {
                    let current = match State::for_deployment(&deployment, &metadata, arch.as_str()) {
                        Ok(s) => s,
                        Err(e) => { return unlock_with(op, arch, Err(e)); },
                    };
                    let intent = match intent_for(&op, current) {
                        Ok(s) => s,
                        Err(e) => { return unlock_with(op, arch, Err(e)); },
                    };
                    let dry_run = dry_run_of(&op);
                    match plan_pull(&intent, &remotes, dry_run) {
                        Ok(plan) => (Session { op, arch, phase: Phase::Pulling { intent } }, Action::Pull(plan)),
                        Err(e) => unlock_with(op, arch, Err(e)),
                    }
                },
                Event::Failed(e) => unlock_with(op, arch, Err(e)),
                _ => unreached(),
            },
            Phase::Pulling { intent } => match event {
                Event::Pulled(rs) => {
                    let outcome = match finish_pull(&intent, &rs) {
                        Ok(o) => o,
                        Err(e) => { return unlock_with(op, arch, Err(e)); },
                    };
                    let dry_run = dry_run_of(&op);
                    if dry_run || !outcome.changed {
                        return unlock_with(op, arch, Ok((outcome.changed, outcome.changelog)));
                    }
                    let plan = match plan_deploy(&outcome.resolved) {
                        Ok(p) => p,
                        Err(e) => { return unlock_with(op, arch, Err(e)); },
                    };
                    match plan.merge {
                        Some(merge) => {
                            let phase = Phase::Preparing {
                                merge,
                                origin_refspec: plan.origin_refspec,
                                origin_group: plan.origin_group,
                                changelog: outcome.changelog,
                            };
                            (Session { op, arch, phase }, Action::PrepareTransaction)
                        },
                        None => {
                            let action = Action::Deploy { revision: plan.revision, origin_refspec: plan.origin_refspec, origin_group: plan.origin_group };
                            (Session { op, arch, phase: Phase::Deploying { changelog: outcome.changelog } }, action)
                        },
                    }
                },
                Event::Failed(e) => unlock_with(op, arch, Err(e)),
                _ => unreached(),
            },
            Phase::Preparing { merge, origin_refspec, origin_group, changelog } => match event {
                Event::Failed(e) => unlock_with(op, arch, Err(e)),
                _ => {
                    let phase = Phase::Writing { origin_refspec, origin_group, changelog };
                    (Session { op, arch, phase }, Action::WriteMerge(merge))
                },
            },
            Phase::Writing { origin_refspec, origin_group, changelog } => match event {
                Event::Merged(commit) => {
                    let phase = Phase::Committing { origin_refspec, origin_group, changelog, commit };
                    (Session { op, arch, phase }, Action::CommitTransaction)
                },
                Event::Failed(e) => (Session { op, arch, phase: Phase::Aborting { error: e } }, Action::AbortTransaction),
                _ => unreached(),
            },
            Phase::Committing { origin_refspec, origin_group, changelog, commit } => match event {
                Event::Failed(e) => (Session { op, arch, phase: Phase::Aborting { error: e } }, Action::AbortTransaction),
                _ => {
                    let action = Action::Deploy { revision: commit, origin_refspec, origin_group };
                    (Session { op, arch, phase: Phase::Deploying { changelog } }, action)
                },
            },
            Phase::Deploying { changelog } => match event {
                Event::Failed(e) => unlock_with(op, arch, Err(e)),
                _ => unlock_with(op, arch, Ok((true, changelog))),
            },
            Phase::Aborting { error } => unlock_with(op, arch, Err(error)),
            Phase::Unlocking { result } => (Session { op, arch, phase: Phase::Cleaning { result } }, Action::Cleanup),
            Phase::Cleaning { result } => {
                let result = match (result, event) {
                    (Ok(_), Event::Failed(e)) => Err(e),
                    (r, _) => r,
                };
                (Session { op, arch, phase: Phase::Done }, Action::Finish(result))
            },
            Phase::Done => unreached(),
        }
    }
}

} // verus!
