//! Refspecs: `[remote:]arch/kind/id[/channel]`.
use vstd::prelude::*;

use crate::error::Error;
use crate::text::{join, join_with, lemma_join_split, split, split_on};

verus! {

/// A character that may stand in a remote name or a ref segment.
pub open spec fn is_ref_char(c: char) -> bool {
    ('a' <= c && c <= 'z') || ('A' <= c && c <= 'Z') || ('0' <= c && c <= '9') || c == '-' || c
        == '.' || c == '_'
}

/// A non-empty run of ref characters.
pub open spec fn is_segment(s: Seq<char>) -> bool {
    s.len() > 0 && forall|i: int| 0 <= i < s.len() ==> is_ref_char(#[trigger] s[i])
}

/// A refspec as values: the optional remote and the `/`-separated segments.
pub struct RefspecView {
    pub remote: Option<Seq<char>>,
    pub segments: Seq<Seq<char>>,
}

/// At least three segments, each of ref characters, and a remote of ref characters.
pub open spec fn refspec_wf(r: RefspecView) -> bool {
    &&& (r.remote matches Some(m) ==> is_segment(m))
    &&& r.segments.len() >= 3
    &&& forall|i: int| 0 <= i < r.segments.len() ==> is_segment(#[trigger] r.segments[i])
}

/// The text of a refspec.
pub open spec fn format_refspec(r: RefspecView) -> Seq<char> {
    let path = join(r.segments, seq!['/']);
    match r.remote {
        Some(m) => m + seq![':'] + path,
        None => path,
    }
}

/// The refspec that `s` spells, if it is well formed: at most one `:`, the
/// remote before it, and at least three segments after it.
pub open spec fn parse_refspec(s: Seq<char>) -> Option<RefspecView> {
    let halves = split(s, ':');
    let r = if halves.len() == 1 {
        RefspecView { remote: None, segments: split(halves[0], '/') }
    } else {
        RefspecView { remote: Some(halves[0]), segments: split(halves[1], '/') }
    };
    if halves.len() <= 2 && refspec_wf(r) {
        Some(r)
    } else {
        None
    }
}

/// Whether `s` is a well-formed refspec.
pub open spec fn is_refspec(s: Seq<char>) -> bool {
    parse_refspec(s) is Some
}

/// The interior segments (all but the first two and the last), joined by `/`.
pub open spec fn id_of(r: RefspecView) -> Seq<char> {
    join(r.segments.subrange(2, r.segments.len() - 1), seq!['/'])
}

/// The same refspec with its last segment replaced by `channel`.
pub open spec fn with_channel_of(r: RefspecView, channel: Seq<char>) -> RefspecView {
    RefspecView { remote: r.remote, segments: r.segments.update(r.segments.len() - 1, channel) }
}

/// A parsed refspec.
#[derive(Debug, Clone)]
pub struct Refspec {
    pub remote: Option<String>,
    pub segments: Vec<String>,
}

impl View for Refspec {
    type V = RefspecView;

    open spec fn view(&self) -> RefspecView {
        RefspecView {
            remote: match self.remote {
                Some(m) => Some(m@),
                None => None,
            },
            segments: self.segments.deep_view(),
        }
    }
}

/// Whether every character of `s` is a ref character and `s` is not empty.
pub fn check_segment(s: &str) -> (r: bool)
    ensures
        r == is_segment(s@),
{
    let n = s.unicode_len();
    if n == 0 {
        return false;
    }
    let mut i: usize = 0;
    while i < n
        invariant
            n == s@.len(),
            i <= n,
            forall|j: int| 0 <= j < i ==> is_ref_char(#[trigger] s@[j]),
        decreases n - i,
    {
        let c = s.get_char(i);
        let ok = ('a' <= c && c <= 'z') || ('A' <= c && c <= 'Z') || ('0' <= c && c <= '9') || c
            == '-' || c == '.' || c == '_';
        if !ok {
            return false;
        }
        i = i + 1;
    }
    true
}

fn check_segments(segments: &Vec<String>) -> (r: bool)
    ensures
        r == forall|i: int|
            0 <= i < segments.deep_view().len() ==> is_segment(#[trigger] segments.deep_view()[i]),
{
    let mut i: usize = 0;
    while i < segments.len()
        invariant
            i <= segments.len(),
            forall|j: int| 0 <= j < i ==> is_segment(#[trigger] segments.deep_view()[j]),
        decreases segments.len() - i,
    {
        if !check_segment(segments[i].as_str()) {
            assert(segments.deep_view()[i as int] == segments[i as int]@);
            return false;
        }
        i = i + 1;
    }
    true
}

fn bad_refspec(s: &str) -> (e: Error)
    ensures
        e matches Error::BadRefspec(m) && m@ == s@,
{
    Error::BadRefspec(String::from_str(s))
}

impl Refspec {
    pub open spec fn wf(&self) -> bool {
        refspec_wf(self@)
    }

    /// Parses `s`; fails with `BadRefspec` unless `s` is well formed.
    pub fn parse(s: &str) -> (r: Result<Refspec, Error>)
        ensures
            match r {
                Ok(x) => parse_refspec(s@) == Some(x@),
                Err(e) => !is_refspec(s@) && (e matches Error::BadRefspec(m) && m@ == s@),
            },
    {
        let mut halves = split_on(s, ':');
        if halves.len() > 2 {
            return Err(bad_refspec(s));
        }
        let ghost hv = halves.deep_view();
        let remote: Option<String>;
        let rest: String;
        if halves.len() == 2 {
            rest = halves.pop().unwrap();
            remote = Some(halves.pop().unwrap());
            assert(rest@ == hv[1]);
        } else {
            proof {
                crate::text::lemma_split_nonempty(s@, ':');
            }
            rest = halves.pop().unwrap();
            remote = None;
            assert(rest@ == hv[0]);
        }
        let segments = split_on(rest.as_str(), '/');
        let r = Refspec { remote, segments };
        let remote_ok = match &r.remote {
            Some(m) => check_segment(m.as_str()),
            None => true,
        };
        if remote_ok && r.segments.len() >= 3 && check_segments(&r.segments) {
            Ok(r)
        } else {
            Err(bad_refspec(s))
        }
    }

    /// The text of this refspec.
    pub fn format(&self) -> (r: String)
        ensures
            r@ == format_refspec(self@),
    {
        let path = join_with(&self.segments, "/");
        proof {
            reveal_strlit("/");
            assert("/"@ =~= seq!['/']);
        }
        match &self.remote {
            Some(m) => {
                let mut r = m.clone();
                r.append(":");
                r.append(path.as_str());
                proof {
                    reveal_strlit(":");
                    assert(":"@ =~= seq![':']);
                }
                r
            },
            None => path,
        }
    }

    /// The segment at `i`.
    pub fn segment(&self, i: usize) -> (r: String)
        requires
            i < self@.segments.len(),
        ensures
            r@ == self@.segments[i as int],
    {
        self.segments[i].clone()
    }

    /// The architecture: the first segment.
    pub fn arch(&self) -> (r: String)
        requires
            self.wf(),
        ensures
            r@ == self@.segments[0],
    {
        self.segment(0)
    }

    /// The kind (`os` or `extension`): the second segment.
    pub fn kind(&self) -> (r: String)
        requires
            self.wf(),
        ensures
            r@ == self@.segments[1],
    {
        self.segment(1)
    }

    /// The channel: the last segment.
    pub fn channel(&self) -> (r: String)
        requires
            self.wf(),
        ensures
            r@ == self@.segments.last(),
    {
        self.segment(self.segments.len() - 1)
    }

    /// The id: the interior segments joined by `/` (empty for `arch/os/channel`).
    pub fn id(&self) -> (r: String)
        requires
            self.wf(),
        ensures
            r@ == id_of(self@),
    {
        let mut interior: Vec<String> = Vec::new();
        let mut i: usize = 2;
        let n = self.segments.len();
        while i < n - 1
            invariant
                n == self@.segments.len(),
                n >= 3,
                2 <= i <= n - 1,
                interior.deep_view() == self@.segments.subrange(2, i as int),
            decreases n - 1 - i,
        {
            let ghost before = interior.deep_view();
            let piece = self.segments[i].clone();
            interior.push(piece);
            assert(interior.deep_view() =~= before.push(piece@));
            assert(self@.segments[i as int] == self.segments[i as int]@);
            assert(interior.deep_view() =~= self@.segments.subrange(2, i as int + 1));
            i = i + 1;
        }
        proof {
            reveal_strlit("/");
            assert("/"@ =~= seq!['/']);
        }
        join_with(&interior, "/")
    }

    /// The same refspec with its channel replaced by `channel`; fails with
    /// `BadRefspec` when `channel` is not a segment.
    pub fn with_channel(&self, channel: &str) -> (r: Result<Refspec, Error>)
        requires
            self.wf(),
        ensures
            match r {
                Ok(x) => is_segment(channel@) && x@ == with_channel_of(self@, channel@) && x.wf(),
                Err(e) => !is_segment(channel@) && (e matches Error::BadRefspec(m) && m@ == channel@),
            },
    {
        if !check_segment(channel) {
            return Err(bad_refspec(channel));
        }
        let mut segments = self.segments.clone();
        let last = segments.len() - 1;
        segments.set(last, String::from_str(channel));
        let r = Refspec { remote: self.remote.clone(), segments };
        assert(r@.segments =~= with_channel_of(self@, channel@).segments);
        Ok(r)
    }
}

/// Formatting what was parsed gives back the text.
pub proof fn lemma_format_parse(s: Seq<char>)
    requires
        is_refspec(s),
    ensures
        format_refspec(parse_refspec(s).unwrap()) == s,
{
    let halves = split(s, ':');
    lemma_join_split(s, ':');
    if halves.len() == 1 {
        lemma_join_split(halves[0], '/');
        assert(join(halves, seq![':']) == halves[0]);
    } else {
        lemma_join_split(halves[1], '/');
        assert(halves.drop_last() =~= seq![halves[0]]);
        assert(join(halves.drop_last(), seq![':']) == halves[0]);
    }
}

/// Rewriting the channel sets the channel and keeps the remote and every other segment.
pub proof fn lemma_with_channel_local(r: RefspecView, channel: Seq<char>)
    requires
        refspec_wf(r),
        is_segment(channel),
    ensures
        refspec_wf(with_channel_of(r, channel)),
        with_channel_of(r, channel).segments.last() == channel,
        with_channel_of(r, channel).segments.len() == r.segments.len(),
        with_channel_of(r, channel).remote == r.remote,
        forall|i: int|
            0 <= i < r.segments.len() - 1 ==> #[trigger] with_channel_of(r, channel).segments[i]
                == r.segments[i],
{
}

} // verus!
