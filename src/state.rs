//! The logical state of a deployment: its core ref, its extensions, whether it
//! is merged, and the commit it realises.
use vstd::prelude::*;

use crate::error::Error;
use crate::refspec::{
    format_refspec, id_of, is_refspec, is_segment, parse_refspec, with_channel_of, Refspec,
    RefspecView, check_segment,
};
use crate::text::{contains, contains_str, join, split, split_on};

verus! {

/// A ref and the commit it resolves to (empty when not resolved yet).
#[derive(Debug, Clone)]
pub struct RefState {
    pub refspec: String,
    pub revision: String,
}

pub struct RefStateView {
    pub refspec: Seq<char>,
    pub revision: Seq<char>,
}

impl View for RefState {
    type V = RefStateView;

    open spec fn view(&self) -> RefStateView {
        RefStateView { refspec: self.refspec@, revision: self.revision@ }
    }
}

/// A part of a refspec.
#[derive(Debug, Clone, Copy, PartialEq, Eq, Structural)]
pub enum RefData {
    Remote,
    Arch,
    Type,
    Id,
    Channel,
}

/// The part `t` of the refspec `r` (an absent remote reads as empty).
pub open spec fn data_of(r: RefspecView, t: RefData) -> Seq<char> {
    match t {
        RefData::Remote => match r.remote {
            Some(m) => m,
            None => Seq::<char>::empty(),
        },
        RefData::Arch => r.segments[0],
        RefData::Type => r.segments[1],
        RefData::Id => id_of(r),
        RefData::Channel => r.segments.last(),
    }
}

/// The parts of a well-formed refspec of four segments give it back:
/// `<remote>:<arch>/<type>/<id>/<channel>`, without `<remote>:` when the
/// remote is empty.
pub proof fn lemma_data_roundtrip(s: Seq<char>)
    requires
        is_refspec(s),
        parse_refspec(s).unwrap().segments.len() == 4,
    ensures
        ({
            let r = parse_refspec(s).unwrap();
            let path = data_of(r, RefData::Arch) + "/"@ + data_of(r, RefData::Type) + "/"@ + data_of(
                r,
                RefData::Id,
            ) + "/"@ + data_of(r, RefData::Channel);
            s == if data_of(r, RefData::Remote).len() == 0 {
                path
            } else {
                data_of(r, RefData::Remote) + ":"@ + path
            }
        }),
{
    let r = parse_refspec(s).unwrap();
    let g = r.segments;
    crate::refspec::lemma_format_parse(s);
    reveal_strlit("/");
    reveal_strlit(":");
    assert("/"@ =~= seq!['/']);
    assert(":"@ =~= seq![':']);
    assert(g.subrange(2, 3) =~= seq![g[2]]);
    assert(id_of(r) == g[2]);
    assert(g.drop_last().drop_last().drop_last() =~= seq![g[0]]);
    assert(g.drop_last().drop_last().last() == g[1]);
    assert(g.drop_last().last() == g[2]);
    assert(join(g, seq!['/']) == join(g.drop_last(), seq!['/']) + seq!['/'] + g[3]);
    assert(join(g.drop_last(), seq!['/']) == join(g.drop_last().drop_last(), seq!['/']) + seq!['/'] + g[2]);
    assert(join(g.drop_last().drop_last(), seq!['/']) == join(g.drop_last().drop_last().drop_last(), seq!['/']) + seq!['/'] + g[1]);
    assert(join(g.drop_last().drop_last().drop_last(), seq!['/']) == g[0]);
}

impl RefState {
    /// A copy of this ref state.
    pub fn copied(&self) -> (r: RefState)
        ensures
            r@ == self@,
    {
        RefState { refspec: self.refspec.clone(), revision: self.revision.clone() }
    }

    /// The part `t` of this ref's refspec; fails with `BadRefspec` when the
    /// refspec is not well formed.
    pub fn get_data(&self, t: RefData) -> (r: Result<String, Error>)
        ensures
            match r {
                Ok(x) => is_refspec(self.refspec@) && x@ == data_of(
                    parse_refspec(self.refspec@).unwrap(),
                    t,
                ),
                Err(e) => !is_refspec(self.refspec@) && (e matches Error::BadRefspec(m) && m@
                    == self.refspec@),
            },
    {
        let parsed = Refspec::parse(self.refspec.as_str());
        match parsed {
            Err(e) => Err(e),
            Ok(r) => {
                let x = match t {
                    RefData::Remote => match &r.remote {
                        Some(m) => m.clone(),
                        None => String::new(),
                    },
                    RefData::Arch => r.arch(),
                    RefData::Type => r.kind(),
                    RefData::Id => r.id(),
                    RefData::Channel => r.channel(),
                };
                Ok(x)
            },
        }
    }
}

/// The intent for a deployment.
#[derive(Debug, Clone)]
pub struct State {
    /// The commit the deployment realises (the merged commit when merged).
    pub revision: String,
    /// The `os` ref; for a merged state, the logical one, not the local ref.
    pub core: RefState,
    /// Whether the deployment is synthesised from the core and extensions.
    pub merged: bool,
    /// The extension refs, in overlay order: later ones win.
    pub extensions: Vec<RefState>,
}

pub struct StateView {
    pub revision: Seq<char>,
    pub core: RefStateView,
    pub merged: bool,
    pub extensions: Seq<RefStateView>,
}

impl View for State {
    type V = StateView;

    open spec fn view(&self) -> StateView {
        StateView {
            revision: self.revision@,
            core: self.core@,
            merged: self.merged,
            extensions: self.extensions@.map_values(|e: RefState| e@),
        }
    }
}

/// The channel of a state: what follows the last `/` of its core refspec.
pub open spec fn channel_of(s: StateView) -> Seq<char> {
    split(s.core.refspec, '/').last()
}

/// The refspec `<remote:>arch/extension/<id>/<channel>` beside the core ref `core`.
pub open spec fn extension_refspec(core: RefspecView, id: Seq<char>) -> Seq<char> {
    format_refspec(
        RefspecView {
            remote: core.remote,
            segments: seq![core.segments[0], "extension"@, id, core.segments.last()],
        },
    )
}

/// What `add_extension(ext)` appends: `ext` itself when it names an
/// extension ref, else the ref of that id beside the core ref.
pub open spec fn added_refspec(core: Seq<char>, ext: Seq<char>) -> Seq<char> {
    if contains(ext, "/extension/"@) {
        ext
    } else {
        extension_refspec(parse_refspec(core).unwrap(), ext)
    }
}

/// `s` after `add_extension(ext)`, or `None` when that fails.
pub open spec fn with_extension(s: StateView, ext: Seq<char>) -> Option<StateView> {
    if contains(ext, "/extension/"@) || (is_segment(ext) && is_refspec(s.core.refspec)) {
        Some(
            StateView {
                merged: true,
                extensions: s.extensions.push(
                    RefStateView { refspec: added_refspec(s.core.refspec, ext), revision: Seq::empty() },
                ),
                ..s
            },
        )
    } else {
        None
    }
}

/// `s` after adding each non-empty id of `ids` in order, or `None` when one fails.
pub open spec fn with_extensions(s: StateView, ids: Seq<Seq<char>>) -> Option<StateView>
    decreases ids.len(),
{
    if ids.len() == 0 {
        Some(s)
    } else {
        match with_extensions(s, ids.drop_last()) {
            None => None,
            Some(t) => if ids.last().len() == 0 {
                Some(t)
            } else {
                with_extension(t, ids.last())
            },
        }
    }
}

/// `s` with its channel rewritten to `channel` (for a well-formed refspec `s`).
pub open spec fn rewrite_channel(s: Seq<char>, channel: Seq<char>) -> Seq<char> {
    format_refspec(with_channel_of(parse_refspec(s).unwrap(), channel))
}

/// Whether the extension `e` has the id `id`.
pub open spec fn has_id(e: RefStateView, id: Seq<char>) -> bool {
    is_refspec(e.refspec) && id_of(parse_refspec(e.refspec).unwrap()) == id
}

/// The extensions of `exts` whose id is not `id`, in order.
pub open spec fn without_id(exts: Seq<RefStateView>, id: Seq<char>) -> Seq<RefStateView>
    decreases exts.len(),
{
    if exts.len() == 0 {
        exts
    } else {
        let rest = without_id(exts.drop_last(), id);
        if has_id(exts.last(), id) {
            rest
        } else {
            rest.push(exts.last())
        }
    }
}

fn has_id_exec(e: &RefState, id: &str) -> (r: bool)
    ensures
        r == has_id(e@, id@),
{
    match e.get_data(RefData::Id) {
        Ok(x) => x == String::from_str(id),
        Err(_) => false,
    }
}

fn rewrite_one(s: &String, channel: &str) -> (r: Result<String, Error>)
    requires
        is_segment(channel@),
    ensures
        match r {
            Ok(x) => is_refspec(s@) && x@ == rewrite_channel(s@, channel@),
            Err(e) => !is_refspec(s@) && e is BadRefspec,
        },
{
    let parsed = Refspec::parse(s.as_str())?;
    match parsed.with_channel(channel) {
        Ok(x) => Ok(x.format()),
        Err(e) => Err(e),
    }
}

impl State {
    /// What follows the last `/` of the core refspec.
    pub fn channel(&self) -> (r: String)
        ensures
            r@ == channel_of(self@),
    {
        let mut parts = split_on(self.core.refspec.as_str(), '/');
        proof {
            crate::text::lemma_split_nonempty(self.core.refspec@, '/');
        }
        let ghost pv = parts.deep_view();
        let last = parts.pop().unwrap();
        assert(last@ == pv.last());
        last
    }

    /// Appends an unresolved extension ref and marks the state merged. `ext` is
    /// taken as it is when it holds `/extension/`; otherwise it is an id, and the
    /// ref is `<remote:>arch/extension/<ext>/<channel>` with the remote, arch and
    /// channel of the core ref. Fails with `BadRefspec`, leaving the state as it
    /// was, when such an id is not a segment or the core refspec is not well formed.
    pub fn add_extension(&mut self, ext: &str) -> (r: Result<(), Error>)
        ensures
            match r {
                Ok(_) => with_extension(old(self)@, ext@) == Some(final(self)@),
                Err(e) => with_extension(old(self)@, ext@) is None && e is BadRefspec && *final(self)
                    == *old(self),
            },
    {
        let refspec: String;
        if contains_str(ext, "/extension/") {
            refspec = String::from_str(ext);
        } else {
            if !check_segment(ext) {
                return Err(Error::BadRefspec(String::from_str(ext)));
            }
            let core = Refspec::parse(self.core.refspec.as_str())?;
            let mut segments: Vec<String> = Vec::new();
            segments.push(core.arch());
            segments.push(String::from_str("extension"));
            segments.push(String::from_str(ext));
            segments.push(core.channel());
            let r = Refspec { remote: core.remote.clone(), segments };
            assert(r@.segments =~= seq![core@.segments[0], "extension"@, ext@, core@.segments.last()]);
            refspec = r.format();
        }
        let ghost before = self.extensions@;
        self.extensions.push(RefState { refspec, revision: String::new() });
        self.merged = true;
        assert(self@.extensions =~= old(self)@.extensions.push(
            RefStateView { refspec: added_refspec(old(self)@.core.refspec, ext@), revision: Seq::<char>::empty() },
        ));
        Ok(())
    }

    /// Drops every extension whose id is `id`, keeping the others in order.
    pub fn remove_extension(&mut self, id: &str)
        ensures
            final(self)@ == (StateView { extensions: without_id(old(self)@.extensions, id@), ..old(self)@ }),
    {
        let mut kept: Vec<RefState> = Vec::new();
        let mut i: usize = 0;
        while i < self.extensions.len()
            invariant
                i <= self.extensions.len(),
                self.extensions == old(self).extensions,
                kept@.map_values(|e: RefState| e@) == without_id(
                    self@.extensions.take(i as int),
                    id@,
                ),
            decreases self.extensions.len() - i,
        {
            let ghost exts = self@.extensions;
            assert(exts.take(i as int + 1).drop_last() =~= exts.take(i as int));
            assert(exts.take(i as int + 1).last() == self.extensions[i as int]@);
            if !has_id_exec(&self.extensions[i], id) {
                let ghost before = kept@.map_values(|e: RefState| e@);
                let e = self.extensions[i].copied();
                kept.push(e);
                assert(kept@.map_values(|e: RefState| e@) =~= before.push(e@));
            }
            i = i + 1;
        }
        assert(self@.extensions.take(self.extensions.len() as int) =~= self@.extensions);
        self.extensions = kept;
    }

    /// Drops every extension.
    pub fn clear_extensions(&mut self)
        ensures
            final(self)@ == (StateView { extensions: Seq::empty(), ..old(self)@ }),
    {
        self.extensions = Vec::new();
        assert(self@.extensions =~= Seq::<RefStateView>::empty());
    }

    /// Moves every ref of the state to `channel`: the last segment of the core
    /// refspec and of each extension refspec is replaced, nothing else, and
    /// every revision is cleared. Fails with `BadRefspec`, leaving the state as
    /// it was, when `channel` is not a segment or a refspec is not well formed.
    pub fn switch_channel(&mut self, channel: &str) -> (r: Result<(), Error>)
        ensures
            r is Ok <==> switchable(old(self)@, channel@),
            match r {
                Ok(_) => final(self)@ == switched(old(self)@, channel@),
                Err(e) => e is BadRefspec && *final(self) == *old(self),
            },
    {
        if !check_segment(channel) {
            return Err(Error::BadRefspec(String::from_str(channel)));
        }
        let core = rewrite_one(&self.core.refspec, channel)?;
        let mut exts: Vec<RefState> = Vec::new();
        let mut i: usize = 0;
        while i < self.extensions.len()
            invariant
                i <= self.extensions.len(),
                is_segment(channel@),
                exts@.len() == i,
                forall|j: int|
                    0 <= j < i ==> is_refspec(#[trigger] self.extensions@[j]@.refspec) && exts@[j]@
                        == (RefStateView {
                        refspec: rewrite_channel(self.extensions@[j]@.refspec, channel@),
                        revision: Seq::empty(),
                    }),
            decreases self.extensions.len() - i,
        {
            let x = rewrite_one(&self.extensions[i].refspec, channel);
            match x {
                Ok(refspec) => {
                    exts.push(RefState { refspec, revision: String::new() });
                },
                Err(e) => {
                    assert(!switchable(self@, channel@)) by {
                        assert(self@.extensions[i as int] == self.extensions@[i as int]@);
                        assert(!is_refspec(self@.extensions[i as int].refspec));
                    }
                    return Err(e);
                },
            }
            i = i + 1;
        }
        self.core = RefState { refspec: core, revision: String::new() };
        self.extensions = exts;
        assert(self@.extensions =~= switched(old(self)@, channel@).extensions);
        Ok(())
    }
}

/// Whether `switch_channel(channel)` succeeds on `s`.
pub open spec fn switchable(s: StateView, channel: Seq<char>) -> bool {
    &&& is_segment(channel)
    &&& is_refspec(s.core.refspec)
    &&& forall|j: int| 0 <= j < s.extensions.len() ==> is_refspec(#[trigger] s.extensions[j].refspec)
}

/// `s` moved to `channel`, with every revision cleared.
pub open spec fn switched(s: StateView, channel: Seq<char>) -> StateView {
    StateView {
        core: RefStateView {
            refspec: rewrite_channel(s.core.refspec, channel),
            revision: Seq::empty(),
        },
        extensions: s.extensions.map_values(
            |e: RefStateView|
                RefStateView { refspec: rewrite_channel(e.refspec, channel), revision: Seq::empty() },
        ),
        ..s
    }
}

} // verus!
