//! Planning a pull of a state's refs, and reading its result: which refs
//! moved, the changelog, and the state at the new commits.
use vstd::prelude::*;

use crate::error::Error;
use crate::refspec::{format_refspec, is_refspec, parse_refspec, Refspec, RefspecView};
use crate::state::{RefState, RefStateView, State, StateView};

verus! {

/// What to pull: from which remote, which refs (without remote), and whether
/// only commit objects are fetched (a dry run).
#[derive(Debug, Clone)]
pub struct PullPlan {
    pub remote: String,
    pub refs: Vec<String>,
    pub commit_only: bool,
}

/// `s` without its remote (for a well-formed refspec `s`).
pub open spec fn bare_ref(s: Seq<char>) -> Seq<char> {
    format_refspec(RefspecView { remote: None, ..parse_refspec(s).unwrap() })
}

/// The remote to pull from: the core ref's own, else the first configured one.
pub open spec fn pull_remote(s: StateView, remotes: Seq<String>) -> Option<Seq<char>> {
    match parse_refspec(s.core.refspec).unwrap().remote {
        Some(m) => Some(m),
        None => if remotes.len() > 0 {
            Some(remotes[0]@)
        } else {
            None
        },
    }
}

/// The refs to pull: the core ref, then each extension ref, without remote.
pub open spec fn pull_refs(s: StateView) -> Seq<Seq<char>> {
    seq![bare_ref(s.core.refspec)] + s.extensions.map_values(|e: RefStateView| bare_ref(e.refspec))
}

/// Whether every extension refspec of `s` is well formed.
pub open spec fn extensions_wf(s: StateView) -> bool {
    forall|j: int| 0 <= j < s.extensions.len() ==> is_refspec(#[trigger] s.extensions[j].refspec)
}

/// The error that planning the pull of `s` fails with: `BadRefspec` for a
/// refspec that is not well formed, `NoRemoteFound` when no remote applies.
pub open spec fn pull_plan_error(s: StateView, remotes: Seq<String>, e: Error) -> bool {
    if !is_refspec(s.core.refspec) {
        e is BadRefspec
    } else if pull_remote(s, remotes) is None {
        e is NoRemoteFound
    } else {
        e is BadRefspec
    }
}

fn bare(s: &String) -> (r: Result<String, Error>)
    ensures
        match r {
            Ok(x) => is_refspec(s@) && x@ == bare_ref(s@),
            Err(e) => !is_refspec(s@) && e is BadRefspec,
        },
{
    let parsed = Refspec::parse(s.as_str())?;
    let b = Refspec { remote: None, segments: parsed.segments };
    assert(b@ == RefspecView { remote: None, ..parse_refspec(s@).unwrap() });
    Ok(b.format())
}

/// Plans the pull of `state`: the remote is the core ref's own, else the first
/// of `remotes`, else `NoRemoteFound`; the refs are the core ref and then the
/// extension refs in order, without remote; a dry run fetches commits only. A
/// refspec that is not well formed fails with `BadRefspec`.
pub fn plan_pull(state: &State, remotes: &Vec<String>, dry_run: bool) -> (r: Result<PullPlan, Error>)
    ensures
        r is Ok <==> (is_refspec(state@.core.refspec) && pull_remote(state@, remotes@) is Some
            && extensions_wf(state@)),
        match r {
            Ok(p) => {
                &&& p.remote@ == pull_remote(state@, remotes@).unwrap()
                &&& p.refs.deep_view() == pull_refs(state@)
                &&& p.commit_only == dry_run
            },
            Err(e) => pull_plan_error(state@, remotes@, e),
        },
{
    let core = Refspec::parse(state.core.refspec.as_str())?;
    let remote = match &core.remote {
        Some(m) => m.clone(),
        None => {
            if remotes.len() == 0 {
                return Err(Error::NoRemoteFound);
            }
            remotes[0].clone()
        },
    };
    assert(pull_remote(state@, remotes@) == Some(remote@));
    let mut refs: Vec<String> = Vec::new();
    refs.push(bare(&state.core.refspec)?);
    assert(refs.deep_view() =~= pull_refs(state@).take(1));
    let mut i: usize = 0;
    while i < state.extensions.len()
        invariant
            i <= state.extensions.len(),
            is_refspec(state@.core.refspec),
            pull_remote(state@, remotes@) == Some(remote@),
            refs.deep_view() == pull_refs(state@).take(i as int + 1),
            forall|j: int| 0 <= j < i ==> is_refspec(#[trigger] state@.extensions[j].refspec),
        decreases state.extensions.len() - i,
    {
        assert(state@.extensions[i as int] == state.extensions@[i as int]@);
        let b = match bare(&state.extensions[i].refspec) {
            Ok(b) => b,
            Err(e) => {
                assert(!is_refspec(state@.extensions[i as int].refspec));
                assert(!extensions_wf(state@));
                return Err(e);
            },
        };
        let ghost before = refs.deep_view();
        let ghost bv = b@;
        refs.push(b);
        assert(refs.deep_view() =~= before.push(bv));
        assert(pull_refs(state@)[i as int + 1] == bare_ref(state@.extensions[i as int].refspec));
        assert(refs.deep_view() =~= pull_refs(state@).take(i as int + 2));
        i = i + 1;
    }
    assert(refs.deep_view() =~= pull_refs(state@));
    Ok(PullPlan { remote, refs, commit_only: dry_run })
}

/// What the object store reports of one ref after a pull: the commit it
/// resolves to, if any, and that commit's subject and body.
#[derive(Debug, Clone)]
pub struct Resolution {
    pub revision: Option<String>,
    pub subject: Option<String>,
    pub body: Option<String>,
}

fn copy_text(t: &Option<String>) -> (r: Option<String>)
    ensures
        r == *t,
{
    match t {
        Some(x) => Some(x.clone()),
        None => None,
    }
}

impl Resolution {
    /// A copy of this resolution.
    pub fn copied(&self) -> (r: Resolution)
        ensures
            r == *self,
    {
        Resolution {
            revision: copy_text(&self.revision),
            subject: copy_text(&self.subject),
            body: copy_text(&self.body),
        }
    }
}

pub open spec fn text_or_empty(t: Option<String>) -> Seq<char> {
    match t {
        Some(x) => x@,
        None => Seq::empty(),
    }
}

/// The changelog entry of a ref that moved from `old` to `new`.
pub open spec fn changelog_entry(
    refspec: Seq<char>,
    subject: Seq<char>,
    body: Seq<char>,
    old: Seq<char>,
    new: Seq<char>,
) -> Seq<char> {
    refspec + ": "@ + subject + "\n"@ + body + "\n"@ + "rev: "@ + old + " -> "@ + new + "\n"@
}

/// What a ref's resolution means: whether it moved, its revision now, and its
/// changelog entry (empty when it did not move); `None` when unresolved.
pub open spec fn ref_outcome(refspec: Seq<char>, old: Seq<char>, res: Resolution) -> Option<
    (bool, Seq<char>, Seq<char>),
> {
    match res.revision {
        None => None,
        Some(new) => if new@ == old {
            Some((false, old, Seq::empty()))
        } else {
            Some(
                (
                    true,
                    new@,
                    changelog_entry(
                        refspec,
                        text_or_empty(res.subject),
                        text_or_empty(res.body),
                        old,
                        new@,
                    ),
                ),
            )
        },
    }
}

/// The resolution of the ref at `i`; one that is missing is unresolved.
pub open spec fn resolution_at(rs: Seq<Resolution>, i: int) -> Resolution {
    if 0 <= i < rs.len() {
        rs[i]
    } else {
        Resolution { revision: None, subject: None, body: None }
    }
}

/// What the pull of `exts` gives, the resolution of extension `j` being at
/// `j + 1`: whether any moved, their changelog entries, and the extensions at
/// their new revisions; or the first extension refspec left unresolved.
pub open spec fn pulled_extensions(exts: Seq<RefStateView>, rs: Seq<Resolution>) -> Result<
    (bool, Seq<char>, Seq<RefStateView>),
    Seq<char>,
>
    decreases exts.len(),
{
    if exts.len() == 0 {
        Ok((false, Seq::empty(), Seq::empty()))
    } else {
        match pulled_extensions(exts.drop_last(), rs) {
            Err(r) => Err(r),
            Ok((changed, log, done)) => {
                let e = exts.last();
                match ref_outcome(e.refspec, e.revision, resolution_at(rs, exts.len() as int)) {
                    None => Err(e.refspec),
                    Some((moved, rev, entry)) => Ok(
                        (
                            changed || moved,
                            log + entry,
                            done.push(RefStateView { refspec: e.refspec, revision: rev }),
                        ),
                    ),
                }
            },
        }
    }
}

/// The result of a pull as values.
pub struct PullOutcomeView {
    pub changed: bool,
    pub changelog: Seq<char>,
    pub resolved: StateView,
}

/// What the pull of `s` gives when the refs resolve as `rs` says (the core
/// ref's at 0, then the extensions' in order); or the first refspec that did
/// not resolve.
pub open spec fn pull_outcome(s: StateView, rs: Seq<Resolution>) -> Result<PullOutcomeView, Seq<char>> {
    match ref_outcome(s.core.refspec, s.core.revision, resolution_at(rs, 0)) {
        None => Err(s.core.refspec),
        Some((core_moved, core_rev, core_log)) => match pulled_extensions(s.extensions, rs) {
            Err(r) => Err(r),
            Ok((exts_moved, exts_log, exts)) => Ok(
                PullOutcomeView {
                    changed: core_moved || exts_moved,
                    changelog: core_log + exts_log,
                    resolved: StateView {
                        core: RefStateView { refspec: s.core.refspec, revision: core_rev },
                        extensions: exts,
                        ..s
                    },
                },
            ),
        },
    }
}

/// Compares the revision that `refspec` resolved to with `old_revision`:
/// whether it moved, the revision now, and the changelog entry
/// `<refspec>: <subject>\n<body>\nrev: <old> -> <new>\n` (empty when it did not
/// move; a missing subject or body reads as empty). Fails with
/// `NoRevisionForRefSpec` when the ref did not resolve.
pub fn get_changelog(refspec: &str, old_revision: &str, resolved: &Resolution) -> (r: Result<
    (bool, String, String),
    Error,
>)
    ensures
        match r {
            Ok((moved, rev, entry)) => ref_outcome(refspec@, old_revision@, *resolved) == Some(
                (moved, rev@, entry@),
            ),
            Err(e) => ref_outcome(refspec@, old_revision@, *resolved) is None && (
            e matches Error::NoRevisionForRefSpec(m) && m@ == refspec@),
        },
{
    let new = match &resolved.revision {
        None => {
            return Err(Error::NoRevisionForRefSpec(String::from_str(refspec)));
        },
        Some(n) => n,
    };
    let old = String::from_str(old_revision);
    if *new == old {
        return Ok((false, old, String::new()));
    }
    let subject = match &resolved.subject {
        Some(x) => x.clone(),
        None => String::new(),
    };
    let body = match &resolved.body {
        Some(x) => x.clone(),
        None => String::new(),
    };
    let entry = String::from_str(refspec).concat(": ").concat(subject.as_str()).concat("\n").concat(
        body.as_str(),
    ).concat("\n").concat("rev: ").concat(old_revision).concat(" -> ").concat(new.as_str()).concat(
        "\n",
    );
    Ok((true, new.clone(), entry))
}

/// The result of a pull: whether any ref moved, the changelog, and the state
/// at the new revisions.
#[derive(Debug, Clone)]
pub struct PullOutcome {
    pub changed: bool,
    pub changelog: String,
    pub resolved: State,
}

fn unresolved() -> (r: Resolution)
    ensures
        r == (Resolution { revision: None, subject: None, body: None }),
{
    Resolution { revision: None, subject: None, body: None }
}

/// Reads the pull of `state` when its refs resolved as `resolved` says (the
/// core ref's at 0, then each extension's in order; a missing entry counts as
/// unresolved). The state comes back at the new revisions, in the same order,
/// with the same merged flag; `changed` says whether any ref moved; the
/// changelog holds the entries of the core and then of the extensions. Fails
/// with `NoRevisionForRefSpec` on the first ref that did not resolve: no
/// extension is dropped.
pub fn finish_pull(state: &State, resolved: &Vec<Resolution>) -> (r: Result<PullOutcome, Error>)
    ensures
        match (r, pull_outcome(state@, resolved@)) {
            (Ok(o), Ok(v)) => o.changed == v.changed && o.changelog@ == v.changelog && o.resolved@
                == v.resolved,
            (Err(e), Err(refspec)) => e matches Error::NoRevisionForRefSpec(m) && m@ == refspec,
            _ => false,
        },
{
    let core_res = if resolved.len() > 0 {
        resolved[0].copied()
    } else {
        unresolved()
    };
    assert(core_res == resolution_at(resolved@, 0));
    let (core_moved, core_rev, core_log) = get_changelog(
        state.core.refspec.as_str(),
        state.core.revision.as_str(),
        &core_res,
    )?;
    let mut changed = core_moved;
    let mut changelog = core_log;
    let mut exts: Vec<RefState> = Vec::new();
    let mut i: usize = 0;
    while i < state.extensions.len()
        invariant
            i <= state.extensions.len(),
            ref_outcome(state@.core.refspec, state@.core.revision, resolution_at(resolved@, 0))
                == Some((core_moved, core_rev@, core_log@)),
            pulled_extensions(state@.extensions.take(i as int), resolved@) matches Ok((c, l, d)) && (
            changed == (core_moved || c)) && changelog@ == core_log@ + l && exts@.map_values(
                |e: RefState| e@,
            ) == d,
        decreases state.extensions.len() - i,
    {
        proof {
            let xs = state@.extensions;
            assert(xs.take(i as int + 1).drop_last() =~= xs.take(i as int));
            assert(xs.take(i as int + 1).last() == state.extensions@[i as int]@);
        }
        let res = if i + 1 < resolved.len() {
            resolved[i + 1].copied()
        } else {
            unresolved()
        };
        assert(res == resolution_at(resolved@, i as int + 1));
        let e = &state.extensions[i];
        match get_changelog(e.refspec.as_str(), e.revision.as_str(), &res) {
            Err(err) => {
                proof {
                    lemma_pulled_prefix_err(state@.extensions, resolved@, i as int + 1);
                }
                return Err(err);
            },
            Ok((moved, rev, entry)) => {
                changed = changed || moved;
                changelog.append(entry.as_str());
                let ghost before = exts@.map_values(|e: RefState| e@);
                let x = RefState { refspec: e.refspec.clone(), revision: rev };
                exts.push(x);
                assert(exts@.map_values(|e: RefState| e@) =~= before.push(x@));
            },
        }
        i = i + 1;
    }
    assert(state@.extensions.take(state.extensions.len() as int) =~= state@.extensions);
    let resolved_state = State {
        revision: state.revision.clone(),
        core: RefState { refspec: state.core.refspec.clone(), revision: core_rev },
        merged: state.merged,
        extensions: exts,
    };
    Ok(PullOutcome { changed, changelog, resolved: resolved_state })
}

/// The revision a resolution names, as text.
pub open spec fn revision_text(res: Resolution) -> Option<Seq<char>> {
    match res.revision {
        Some(r) => Some(r@),
        None => None,
    }
}

/// Whether `rs2` resolves every ref to the same commit as `rs1`: nothing moved
/// on the remote between the two pulls.
pub open spec fn same_revisions(rs1: Seq<Resolution>, rs2: Seq<Resolution>) -> bool {
    forall|i: int| #[trigger] revision_text(resolution_at(rs2, i)) == revision_text(resolution_at(rs1, i))
}

proof fn lemma_pulled_again(exts: Seq<RefStateView>, rs1: Seq<Resolution>, rs2: Seq<Resolution>)
    requires
        pulled_extensions(exts, rs1) is Ok,
        same_revisions(rs1, rs2),
    ensures
        pulled_extensions(exts, rs1) matches Ok((_, _, done)) && pulled_extensions(done, rs2) == Ok::<
            (bool, Seq<char>, Seq<RefStateView>),
            Seq<char>,
        >((false, Seq::empty(), done)),
        pulled_extensions(exts, rs1) matches Ok((_, _, done)) && done.len() == exts.len(),
    decreases exts.len(),
{
    if exts.len() > 0 {
        lemma_pulled_again(exts.drop_last(), rs1, rs2);
        let (c, l, done) = pulled_extensions(exts, rs1)->Ok_0;
        let (c0, l0, done0) = pulled_extensions(exts.drop_last(), rs1)->Ok_0;
        assert(done.drop_last() =~= done0);
        let n = exts.len() as int;
        assert(revision_text(resolution_at(rs2, n)) == revision_text(resolution_at(rs1, n)));
        assert(Seq::<char>::empty() + Seq::<char>::empty() =~= Seq::<char>::empty());
        assert(done0.push(done.last()) =~= done);
    }
}

/// Pulling again when nothing moved on the remote changes nothing: the pull of
/// the resolved state reports no change, an empty changelog, and the same
/// resolved state.
pub proof fn lemma_pull_again_unchanged(s: StateView, rs1: Seq<Resolution>, rs2: Seq<Resolution>)
    requires
        pull_outcome(s, rs1) is Ok,
        same_revisions(rs1, rs2),
    ensures
        pull_outcome(s, rs1) matches Ok(v1) && (pull_outcome(v1.resolved, rs2) matches Ok(v2) && !v2.changed
            && v2.changelog == Seq::<char>::empty() && v2.resolved == v1.resolved),
{
    let v1 = pull_outcome(s, rs1)->Ok_0;
    lemma_pulled_again(s.extensions, rs1, rs2);
    assert(revision_text(resolution_at(rs2, 0)) == revision_text(resolution_at(rs1, 0)));
    assert(Seq::<char>::empty() + Seq::<char>::empty() =~= Seq::<char>::empty());
}

/// Once a prefix of the extensions fails to resolve, every longer prefix fails
/// on the same ref.
proof fn lemma_pulled_prefix_err(exts: Seq<RefStateView>, rs: Seq<Resolution>, k: int)
    requires
        0 <= k <= exts.len(),
        pulled_extensions(exts.take(k), rs) is Err,
    ensures
        pulled_extensions(exts, rs) == pulled_extensions(exts.take(k), rs),
    decreases exts.len() - k,
{
    if k < exts.len() {
        assert(exts.take(k + 1).drop_last() =~= exts.take(k));
        lemma_pulled_prefix_err(exts, rs, k + 1);
    } else {
        assert(exts.take(k) =~= exts);
    }
}

} // verus!
