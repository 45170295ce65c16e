//! Deriving a deployment's `State` from its origin keyfile and the metadata of
//! its commit.
use vstd::prelude::*;

use crate::error::Error;
use crate::state::{RefState, RefStateView, State, StateView};
use crate::text::{contains, contains_str, split, split_on};

verus! {

/// The keys of a deployment's origin keyfile that the engine reads.
#[derive(Debug, Clone)]
pub struct Origin {
    /// `origin.refspec`.
    pub refspec: String,
    /// `rlxos.merged`; absent or unreadable reads as false.
    pub merged: bool,
    /// `rlxos.channel`, if present.
    pub channel: Option<String>,
    /// `rlxos.extensions`, if present: ids separated by `;`.
    pub extensions: Option<String>,
}

/// What the engine reads of a deployment.
#[derive(Debug, Clone)]
pub struct DeploymentInfo {
    pub osname: String,
    /// The checksum of the deployed commit.
    pub csum: String,
    pub serial: i32,
    pub origin: Option<Origin>,
}

/// The string value of `key` in a commit's metadata entries; a later entry
/// overrides an earlier one.
pub open spec fn lookup(md: Seq<(String, String)>, key: Seq<char>) -> Option<Seq<char>>
    decreases md.len(),
{
    if md.len() == 0 {
        None
    } else if md.last().0@ == key {
        Some(md.last().1@)
    } else {
        lookup(md.drop_last(), key)
    }
}

/// The metadata key that records the commit of `id` (`core` for the base).
pub open spec fn revision_key(id: Seq<char>) -> Seq<char> {
    "rlxos.revision."@ + id
}

/// The ids of `parts` that are not empty and not a full extension ref, in order.
pub open spec fn selected_ids(parts: Seq<Seq<char>>) -> Seq<Seq<char>>
    decreases parts.len(),
{
    if parts.len() == 0 {
        parts
    } else {
        let rest = selected_ids(parts.drop_last());
        let p = parts.last();
        if p.len() > 0 && !contains(p, "/extension/"@) {
            rest.push(p)
        } else {
            rest
        }
    }
}

/// Why a state could not be derived.
pub enum DeriveFailure {
    NoOrigin,
    MissingBase,
    MissingExtension(Seq<char>),
}

/// The extension ref `<osname>:<arch>/extension/<id>/<channel>`.
pub open spec fn derived_extension_refspec(
    osname: Seq<char>,
    arch: Seq<char>,
    id: Seq<char>,
    channel: Seq<char>,
) -> Seq<char> {
    osname + ":"@ + arch + "/extension/"@ + id + "/"@ + channel
}

/// The core ref `<osname>:<arch>/os/<channel>`.
pub open spec fn derived_core_refspec(osname: Seq<char>, arch: Seq<char>, channel: Seq<char>) -> Seq<
    char,
> {
    osname + ":"@ + arch + "/os/"@ + channel
}

/// The extension refs of `ids` with their recorded commits, or the first id
/// whose commit is not recorded.
pub open spec fn derived_extensions(
    ids: Seq<Seq<char>>,
    md: Seq<(String, String)>,
    osname: Seq<char>,
    arch: Seq<char>,
    channel: Seq<char>,
) -> Result<Seq<RefStateView>, Seq<char>>
    decreases ids.len(),
{
    if ids.len() == 0 {
        Ok(Seq::empty())
    } else {
        match derived_extensions(ids.drop_last(), md, osname, arch, channel) {
            Err(id) => Err(id),
            Ok(prev) => match lookup(md, revision_key(ids.last())) {
                None => Err(ids.last()),
                Some(rev) => Ok(
                    prev.push(
                        RefStateView {
                            refspec: derived_extension_refspec(osname, arch, ids.last(), channel),
                            revision: rev,
                        },
                    ),
                ),
            },
        }
    }
}

/// The state of deployment `d`, whose commit carries the metadata `md`, on
/// the architecture `arch`.
pub open spec fn derive_state(d: DeploymentInfo, md: Seq<(String, String)>, arch: Seq<char>) -> Result<
    StateView,
    DeriveFailure,
> {
    match d.origin {
        None => Err(DeriveFailure::NoOrigin),
        Some(o) => if !o.merged {
            Ok(
                StateView {
                    revision: d.csum@,
                    core: RefStateView { refspec: o.refspec@, revision: d.csum@ },
                    merged: false,
                    extensions: Seq::empty(),
                },
            )
        } else {
            let channel = match o.channel {
                Some(c) => c@,
                None => "stable"@,
            };
            let listed = match o.extensions {
                Some(e) => e@,
                None => Seq::<char>::empty(),
            };
            match lookup(md, revision_key("core"@)) {
                None => Err(DeriveFailure::MissingBase),
                Some(core_rev) => match derived_extensions(
                    selected_ids(split(listed, ';')),
                    md,
                    d.osname@,
                    arch,
                    channel,
                ) {
                    Err(id) => Err(DeriveFailure::MissingExtension(id)),
                    Ok(exts) => Ok(
                        StateView {
                            revision: d.csum@,
                            core: RefStateView {
                                refspec: derived_core_refspec(d.osname@, arch, channel),
                                revision: core_rev,
                            },
                            merged: true,
                            extensions: exts,
                        },
                    ),
                },
            }
        },
    }
}

/// Whether `e` is the error that reports `f` for deployment `d`.
pub open spec fn reports(e: Error, f: DeriveFailure, d: DeploymentInfo) -> bool {
    match f {
        DeriveFailure::NoOrigin => e matches Error::NoOriginForDeployment(c, n) && c@ == d.csum@
            && n == d.serial,
        DeriveFailure::MissingBase => e is MissingBaseChecksum,
        DeriveFailure::MissingExtension(id) => e matches Error::MissingExtensionChecksum(m) && m@
            == id,
    }
}

/// Whether `r` is what deriving the state of `d` gives.
pub open spec fn derived_as(r: Result<State, Error>, d: DeploymentInfo, md: Seq<(String, String)>, arch: Seq<char>) -> bool {
    match (r, derive_state(d, md, arch)) {
        (Ok(s), Ok(v)) => s@ == v,
        (Err(e), Err(f)) => reports(e, f, d),
        _ => false,
    }
}

/// Deriving a state is pure: two derivations from the same deployment, commit
/// metadata and architecture agree, on success and on the kind of failure.
pub proof fn lemma_derivation_pure(
    d: DeploymentInfo,
    md: Seq<(String, String)>,
    arch: Seq<char>,
    r1: Result<State, Error>,
    r2: Result<State, Error>,
)
    requires
        derived_as(r1, d, md, arch),
        derived_as(r2, d, md, arch),
    ensures
        r1 is Ok <==> r2 is Ok,
        r1 is Ok ==> r1->Ok_0@ == r2->Ok_0@,
        r1 is Err ==> (r1->Err_0 is NoOriginForDeployment <==> r2->Err_0 is NoOriginForDeployment)
            && (r1->Err_0 is MissingBaseChecksum <==> r2->Err_0 is MissingBaseChecksum)
            && (r1->Err_0 is MissingExtensionChecksum <==> r2->Err_0 is MissingExtensionChecksum),
{
}

/// The string value of `key` in `md`.
pub fn lookup_metadata(md: &Vec<(String, String)>, key: &str) -> (r: Option<String>)
    ensures
        match r {
            Some(v) => lookup(md@, key@) == Some(v@),
            None => lookup(md@, key@) is None,
        },
{
    let mut found: Option<String> = None;
    let mut i: usize = 0;
    let k = String::from_str(key);
    while i < md.len()
        invariant
            i <= md.len(),
            k@ == key@,
            match found {
                Some(v) => lookup(md@.take(i as int), key@) == Some(v@),
                None => lookup(md@.take(i as int), key@) is None,
            },
        decreases md.len() - i,
    {
        assert(md@.take(i as int + 1).drop_last() =~= md@.take(i as int));
        if md[i].0 == k {
            found = Some(md[i].1.clone());
        }
        i = i + 1;
    }
    assert(md@.take(md.len() as int) =~= md@);
    found
}

fn selected(parts: &Vec<String>) -> (r: Vec<String>)
    ensures
        r.deep_view() == selected_ids(parts.deep_view()),
{
    let mut r: Vec<String> = Vec::new();
    let mut i: usize = 0;
    while i < parts.len()
        invariant
            i <= parts.len(),
            r.deep_view() == selected_ids(parts.deep_view().take(i as int)),
        decreases parts.len() - i,
    {
        let ghost pv = parts.deep_view();
        assert(pv.take(i as int + 1).drop_last() =~= pv.take(i as int));
        assert(pv.take(i as int + 1).last() == parts[i as int]@);
        let p = parts[i].as_str();
        if p.unicode_len() > 0 && !contains_str(p, "/extension/") {
            let ghost before = r.deep_view();
            r.push(parts[i].clone());
            assert(r.deep_view() =~= before.push(parts[i as int]@));
        }
        i = i + 1;
    }
    assert(parts.deep_view().take(parts.len() as int) =~= parts.deep_view());
    r
}

fn extensions_for(
    ids: &Vec<String>,
    md: &Vec<(String, String)>,
    osname: &str,
    arch: &str,
    channel: &str,
) -> (r: Result<Vec<RefState>, Error>)
    ensures
        match (r, derived_extensions(ids.deep_view(), md@, osname@, arch@, channel@)) {
            (Ok(v), Ok(w)) => v@.map_values(|e: RefState| e@) == w,
            (Err(e), Err(id)) => e matches Error::MissingExtensionChecksum(m) && m@ == id,
            _ => false,
        },
{
    let mut exts: Vec<RefState> = Vec::new();
    let mut i: usize = 0;
    assert(ids.deep_view().take(0) =~= Seq::<Seq<char>>::empty());
    assert(exts@.map_values(|e: RefState| e@) =~= Seq::<RefStateView>::empty());
    while i < ids.len()
        invariant
            i <= ids.len(),
            derived_extensions(ids.deep_view().take(i as int), md@, osname@, arch@, channel@)
                == Ok::<Seq<RefStateView>, Seq<char>>(exts@.map_values(|e: RefState| e@)),
        decreases ids.len() - i,
    {
        let ghost iv = ids.deep_view();
        assert(iv.take(i as int + 1).drop_last() =~= iv.take(i as int));
        assert(iv.take(i as int + 1).last() == ids[i as int]@);
        let id = ids[i].as_str();
        let key = String::from_str("rlxos.revision.").concat(id);
        match lookup_metadata(md, key.as_str()) {
            None => {
                proof {
                    lemma_derived_extensions_prefix_err(iv, md@, osname@, arch@, channel@, i as int + 1);
                }
                return Err(Error::MissingExtensionChecksum(ids[i].clone()));
            },
            Some(rev) => {
                let refspec = String::from_str(osname).concat(":").concat(arch).concat(
                    "/extension/",
                ).concat(id).concat("/").concat(channel);
                let ghost before = exts@.map_values(|e: RefState| e@);
                let e = RefState { refspec, revision: rev };
                exts.push(e);
                assert(exts@.map_values(|e: RefState| e@) =~= before.push(e@));
            },
        }
        i = i + 1;
    }
    assert(ids.deep_view().take(ids.len() as int) =~= ids.deep_view());
    Ok(exts)
}

/// Once a prefix of `ids` fails, every longer prefix fails with the same id.
proof fn lemma_derived_extensions_prefix_err(
    ids: Seq<Seq<char>>,
    md: Seq<(String, String)>,
    osname: Seq<char>,
    arch: Seq<char>,
    channel: Seq<char>,
    k: int,
)
    requires
        0 <= k <= ids.len(),
        derived_extensions(ids.take(k), md, osname, arch, channel) is Err,
    ensures
        derived_extensions(ids, md, osname, arch, channel) == derived_extensions(
            ids.take(k),
            md,
            osname,
            arch,
            channel,
        ),
    decreases ids.len() - k,
{
    if k < ids.len() {
        assert(ids.take(k + 1).drop_last() =~= ids.take(k));
        lemma_derived_extensions_prefix_err(ids, md, osname, arch, channel, k + 1);
    } else {
        assert(ids.take(k) =~= ids);
    }
}

impl State {
    /// The state of deployment `d`, whose commit carries the metadata entries
    /// `md`, on the architecture `arch`. A deployment whose origin is not marked
    /// merged has its origin ref at its own commit and no extensions. A merged
    /// one has the core ref `<osname>:<arch>/os/<channel>` (channel `stable`
    /// when unset) at the commit recorded under `rlxos.revision.core`, and one
    /// extension ref for each listed id, in list order, at the commit recorded
    /// under `rlxos.revision.<id>`. Either way the state's revision is the
    /// deployment's commit.
    pub fn for_deployment(d: &DeploymentInfo, md: &Vec<(String, String)>, arch: &str) -> (r: Result<
        State,
        Error,
    >)
        ensures
            derived_as(r, *d, md@, arch@),
    {
        let origin = match &d.origin {
            None => {
                return Err(Error::NoOriginForDeployment(d.csum.clone(), d.serial));
            },
            Some(o) => o,
        };
        if !origin.merged {
            let r = State {
                revision: d.csum.clone(),
                core: RefState { refspec: origin.refspec.clone(), revision: d.csum.clone() },
                merged: false,
                extensions: Vec::new(),
            };
            assert(r@.extensions =~= Seq::<RefStateView>::empty());
            return Ok(r);
        }
        let channel = match &origin.channel {
            Some(c) => c.clone(),
            None => String::from_str("stable"),
        };
        let listed = match &origin.extensions {
            Some(e) => e.clone(),
            None => String::new(),
        };
        let core_revision = match lookup_metadata(md, "rlxos.revision.core") {
            None => {
                proof {
                    reveal_strlit("rlxos.revision.core");
                    reveal_strlit("rlxos.revision.");
                    reveal_strlit("core");
                    assert("rlxos.revision.core"@ =~= revision_key("core"@));
                }
                return Err(Error::MissingBaseChecksum);
            },
            Some(rev) => rev,
        };
        proof {
            reveal_strlit("rlxos.revision.core");
            reveal_strlit("rlxos.revision.");
            reveal_strlit("core");
            assert("rlxos.revision.core"@ =~= revision_key("core"@));
        }
        let parts = split_on(listed.as_str(), ';');
        let ids = selected(&parts);
        let exts = extensions_for(&ids, md, d.osname.as_str(), arch, channel.as_str())?;
        let refspec = String::from_str(d.osname.as_str()).concat(":").concat(arch).concat(
            "/os/",
        ).concat(channel.as_str());
        Ok(
            State {
                revision: d.csum.clone(),
                core: RefState { refspec, revision: core_revision },
                merged: true,
                extensions: exts,
            },
        )
    }
}

} // verus!
