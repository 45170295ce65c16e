//! Planning a deployment: the merged commit to write, if any, and the origin
//! keyfile of the new deployment.
use vstd::prelude::*;

use crate::error::Error;
use crate::refspec::{id_of, is_refspec, parse_refspec, Refspec};
use crate::state::{RefStateView, State, StateView};
use crate::derive::revision_key;

verus! {

/// The merged commit to write, inside one transaction: a tree made from the
/// base commit with each overlay's tree laid over it in order, bootable
/// metadata, the commit metadata below, no parent, subject or body; then the
/// local ref set to the new commit.
#[derive(Debug, Clone)]
pub struct MergePlan {
    pub base: String,
    pub overlays: Vec<String>,
    pub metadata: Vec<(String, String)>,
    pub local_ref: String,
}

/// The `rlxos` group of a merged deployment's origin (`merged=true` besides).
#[derive(Debug, Clone)]
pub struct MergedOrigin {
    pub channel: String,
    pub refspec: String,
    pub extensions: String,
}

/// How to stage the new deployment: write the merged commit first when there
/// is one, else deploy `revision`; the origin is built from `origin_refspec`,
/// with the `rlxos` group when merged.
#[derive(Debug, Clone)]
pub struct DeployPlan {
    pub merge: Option<MergePlan>,
    pub revision: String,
    pub origin_refspec: String,
    pub origin_group: Option<MergedOrigin>,
}

pub struct MergePlanView {
    pub base: Seq<char>,
    pub overlays: Seq<Seq<char>>,
    pub metadata: Seq<(Seq<char>, Seq<char>)>,
    pub local_ref: Seq<char>,
}

pub struct MergedOriginView {
    pub channel: Seq<char>,
    pub refspec: Seq<char>,
    pub extensions: Seq<char>,
}

pub struct DeployPlanView {
    pub merge: Option<MergePlanView>,
    pub revision: Seq<char>,
    pub origin_refspec: Seq<char>,
    pub origin_group: Option<MergedOriginView>,
}

impl View for MergePlan {
    type V = MergePlanView;

    open spec fn view(&self) -> MergePlanView {
        MergePlanView {
            base: self.base@,
            overlays: self.overlays.deep_view(),
            metadata: self.metadata@.map_values(|p: (String, String)| (p.0@, p.1@)),
            local_ref: self.local_ref@,
        }
    }
}

impl View for MergedOrigin {
    type V = MergedOriginView;

    open spec fn view(&self) -> MergedOriginView {
        MergedOriginView {
            channel: self.channel@,
            refspec: self.refspec@,
            extensions: self.extensions@,
        }
    }
}

impl View for DeployPlan {
    type V = DeployPlanView;

    open spec fn view(&self) -> DeployPlanView {
        DeployPlanView {
            merge: match self.merge {
                Some(m) => Some(m@),
                None => None,
            },
            revision: self.revision@,
            origin_refspec: self.origin_refspec@,
            origin_group: group_view(self.origin_group),
        }
    }
}

/// Whether a deployment of `s` writes a merged commit.
pub open spec fn merges(s: StateView) -> bool {
    s.merged && s.extensions.len() > 0
}

/// The id of an extension ref (for a well-formed refspec).
pub open spec fn ext_id(e: RefStateView) -> Seq<char> {
    id_of(parse_refspec(e.refspec).unwrap())
}

/// Whether the extension `e` can go into a merged commit: a well-formed ref
/// with an id, at a known commit.
pub open spec fn mergeable(e: RefStateView) -> bool {
    is_refspec(e.refspec) && ext_id(e).len() > 0 && e.revision.len() > 0
}

/// The commit metadata of a merged commit: the base commit, then each
/// extension's commit under its id.
pub open spec fn merge_metadata(s: StateView) -> Seq<(Seq<char>, Seq<char>)> {
    seq![(revision_key("core"@), s.core.revision)] + s.extensions.map_values(
        |e: RefStateView| (revision_key(ext_id(e)), e.revision),
    )
}

/// `<id>;` for each extension, in order.
pub open spec fn extension_list(exts: Seq<RefStateView>) -> Seq<char>
    decreases exts.len(),
{
    if exts.len() == 0 {
        Seq::empty()
    } else {
        extension_list(exts.drop_last()) + ext_id(exts.last()) + ";"@
    }
}

/// The local ref `<arch>/os/local` of the merged commit.
pub open spec fn local_ref_of(s: StateView) -> Seq<char> {
    parse_refspec(s.core.refspec).unwrap().segments[0] + "/os/local"@
}

/// The plan for deploying `s` (when `deployable(s)`).
pub open spec fn deploy_plan_of(s: StateView) -> DeployPlanView {
    if merges(s) {
        DeployPlanView {
            merge: Some(
                MergePlanView {
                    base: s.core.revision,
                    overlays: s.extensions.map_values(|e: RefStateView| e.revision),
                    metadata: merge_metadata(s),
                    local_ref: local_ref_of(s),
                },
            ),
            revision: s.core.revision,
            origin_refspec: local_ref_of(s),
            origin_group: Some(
                MergedOriginView {
                    channel: parse_refspec(s.core.refspec).unwrap().segments.last(),
                    refspec: s.core.refspec,
                    extensions: extension_list(s.extensions),
                },
            ),
        }
    } else {
        DeployPlanView {
            merge: None,
            revision: s.core.revision,
            origin_refspec: s.core.refspec,
            origin_group: None,
        }
    }
}

/// Whether `s` can be deployed: its core ref is well formed and at a known
/// commit, and when it merges, every extension is mergeable.
pub open spec fn deployable(s: StateView) -> bool {
    &&& is_refspec(s.core.refspec)
    &&& s.core.revision.len() > 0
    &&& merges(s) ==> forall|j: int|
        0 <= j < s.extensions.len() ==> mergeable(#[trigger] s.extensions[j])
}

/// The error that planning the deployment of `s` fails with.
pub open spec fn deploy_error(s: StateView, e: Error) -> bool {
    if !is_refspec(s.core.refspec) {
        e is BadRefspec
    } else if s.core.revision.len() == 0 {
        e is MissingBaseChecksum
    } else {
        e is BadRefspec || e is MissingExtensionChecksum
    }
}

/// The view of an optional `rlxos` origin group.
pub open spec fn group_view(g: Option<MergedOrigin>) -> Option<MergedOriginView> {
    match g {
        Some(g) => Some(g@),
        None => None,
    }
}

/// Merging is deterministic: two states at the same base commit, with the
/// same extensions at the same commits in the same order, the same merged
/// flag and the same architecture give the same merged commit to write
/// (base, overlays in order, metadata, local ref).
pub proof fn lemma_merge_deterministic(s1: StateView, s2: StateView)
    requires
        is_refspec(s1.core.refspec),
        is_refspec(s2.core.refspec),
        s1.core.revision == s2.core.revision,
        parse_refspec(s1.core.refspec).unwrap().segments[0] == parse_refspec(
            s2.core.refspec,
        ).unwrap().segments[0],
        s1.extensions == s2.extensions,
        s1.merged == s2.merged,
    ensures
        deploy_plan_of(s1).merge == deploy_plan_of(s2).merge,
{
    assert(merge_metadata(s1) =~= merge_metadata(s2));
}

/// A state without extensions is deployed as its core commit: no merged
/// commit is written and the origin is the core refspec, with no `rlxos`
/// group (so no `merged=true`).
pub proof fn lemma_extension_removal(s: StateView)
    requires
        s.extensions.len() == 0,
    ensures
        deploy_plan_of(s).merge is None,
        deploy_plan_of(s).origin_group is None,
        deploy_plan_of(s).origin_refspec == s.core.refspec,
        deploy_plan_of(s).revision == s.core.revision,
{
}

/// Plans the deployment of `state`. When the state is merged and has
/// extensions, a merged commit is written from the core commit and the
/// extension commits in order, recorded in its metadata, under the local ref
/// `<arch>/os/local`, and the origin points at that ref with the `rlxos` group
/// (channel and refspec of the core ref, `<id>;` for each extension).
/// Otherwise the core commit is deployed with an origin of the core refspec
/// and no `rlxos` group. Fails with `BadRefspec` on a refspec that is not well
/// formed (or an extension without id), `MissingBaseChecksum` when the core
/// commit is unknown, and `MissingExtensionChecksum` when an extension's is.
pub fn plan_deploy(state: &State) -> (r: Result<DeployPlan, Error>)
    ensures
        r is Ok <==> deployable(state@),
        match r {
            Ok(p) => p@ == deploy_plan_of(state@),
            Err(e) => deploy_error(state@, e),
        },
{
    let core = Refspec::parse(state.core.refspec.as_str())?;
    if state.core.revision.unicode_len() == 0 {
        return Err(Error::MissingBaseChecksum);
    }
    if !(state.merged && state.extensions.len() > 0) {
        return Ok(
            DeployPlan {
                merge: None,
                revision: state.core.revision.clone(),
                origin_refspec: state.core.refspec.clone(),
                origin_group: None,
            },
        );
    }
    let ghost sv = state@;
    let mut overlays: Vec<String> = Vec::new();
    let mut metadata: Vec<(String, String)> = Vec::new();
    let mut list = String::new();
    metadata.push((String::from_str("rlxos.revision.").concat("core"), state.core.revision.clone()));
    assert(list@ =~= extension_list(sv.extensions.take(0)));
    assert(overlays.deep_view() =~= sv.extensions.take(0).map_values(|e: RefStateView| e.revision));
    assert(metadata@.map_values(|p: (String, String)| (p.0@, p.1@)) =~= seq![(revision_key("core"@), sv.core.revision)]
        + sv.extensions.take(0).map_values(|e: RefStateView| (revision_key(ext_id(e)), e.revision)));
    let mut i: usize = 0;
    while i < state.extensions.len()
        invariant
            sv == state@,
            merges(sv),
            parse_refspec(sv.core.refspec) == Some(core@),
            sv.core.revision.len() > 0,
            i <= state.extensions.len(),
            forall|j: int| 0 <= j < i ==> mergeable(#[trigger] sv.extensions[j]),
            overlays.deep_view() == sv.extensions.take(i as int).map_values(|e: RefStateView| e.revision),
            metadata@.map_values(|p: (String, String)| (p.0@, p.1@)) == seq![(revision_key("core"@), sv.core.revision)]
                + sv.extensions.take(i as int).map_values(|e: RefStateView| (revision_key(ext_id(e)), e.revision)),
            list@ == extension_list(sv.extensions.take(i as int)),
        decreases state.extensions.len() - i,
    {
        let e = &state.extensions[i];
        assert(sv.extensions[i as int] == e@);
        let parsed = match Refspec::parse(e.refspec.as_str()) {
            Ok(x) => x,
            Err(err) => {
                assert(!mergeable(sv.extensions[i as int]));
                return Err(err);
            },
        };
        let id = parsed.id();
        if id.unicode_len() == 0 {
            assert(!mergeable(sv.extensions[i as int]));
            return Err(Error::BadRefspec(e.refspec.clone()));
        }
        if e.revision.unicode_len() == 0 {
            assert(!mergeable(sv.extensions[i as int]));
            return Err(Error::MissingExtensionChecksum(id));
        }
        proof {
            let xs = sv.extensions;
            assert(xs.take(i as int + 1).drop_last() =~= xs.take(i as int));
            assert(xs.take(i as int + 1).last() == e@);
        }
        let ghost ov = overlays.deep_view();
        let ghost mv = metadata@.map_values(|p: (String, String)| (p.0@, p.1@));
        overlays.push(e.revision.clone());
        assert(overlays.deep_view() =~= ov.push(e.revision@));
        assert(overlays.deep_view() =~= sv.extensions.take(i as int + 1).map_values(|e: RefStateView| e.revision));
        let key = String::from_str("rlxos.revision.").concat(id.as_str());
        let ghost kv = key@;
        metadata.push((key, e.revision.clone()));
        assert(metadata@.map_values(|p: (String, String)| (p.0@, p.1@)) =~= mv.push((kv, e.revision@)));
        assert(metadata@.map_values(|p: (String, String)| (p.0@, p.1@)) =~= seq![(revision_key("core"@), sv.core.revision)]
            + sv.extensions.take(i as int + 1).map_values(|e: RefStateView| (revision_key(ext_id(e)), e.revision)));
        list.append(id.as_str());
        list.append(";");
        i = i + 1;
    }
    assert(sv.extensions.take(state.extensions.len() as int) =~= sv.extensions);
    let local_ref = core.arch().concat("/os/local");
    let merge = MergePlan {
        base: state.core.revision.clone(),
        overlays,
        metadata,
        local_ref: local_ref.clone(),
    };
    let group = MergedOrigin {
        channel: core.channel(),
        refspec: state.core.refspec.clone(),
        extensions: list,
    };
    Ok(
        DeployPlan {
            merge: Some(merge),
            revision: state.core.revision.clone(),
            origin_refspec: local_ref,
            origin_group: Some(group),
        },
    )
}

} // verus!
