//! The package index of the legacy package manager: package records and
//! lookup by id.
use vstd::prelude::*;

verus! {

/// A package record.
#[derive(Debug, Clone, PartialEq)]
pub struct MetaInfo {
    pub id: String,
    pub version: String,
    pub about: String,
    pub depends: Vec<String>,
    pub integration: String,
    pub cache: String,
}

/// Whether a package with id `pid` answers to `id`: the id itself, the id
/// with `.yml` after it, or `id` under `components/`.
pub open spec fn answers_to(pid: Seq<char>, id: Seq<char>) -> bool {
    pid == id || pid + ".yml"@ == id || "components/"@ + id == pid
}

/// The index of the first of `packages` that answers to `id`, if any.
pub fn find_package(packages: &Vec<MetaInfo>, id: &str) -> (r: Option<usize>)
    ensures
        match r {
            Some(k) => k < packages@.len() && answers_to(packages@[k as int].id@, id@) && forall|j: int|
                0 <= j < k ==> !answers_to(#[trigger] packages@[j].id@, id@),
            None => forall|j: int|
                0 <= j < packages@.len() ==> !answers_to(#[trigger] packages@[j].id@, id@),
        },
{
    let wanted = String::from_str(id);
    let under = String::from_str("components/").concat(id);
    let mut i: usize = 0;
    while i < packages.len()
        invariant
            i <= packages.len(),
            wanted@ == id@,
            under@ == "components/"@ + id@,
            forall|j: int| 0 <= j < i ==> !answers_to(#[trigger] packages@[j].id@, id@),
        decreases packages.len() - i,
    {
        let pid = &packages[i].id;
        let with_ext = pid.clone().concat(".yml");
        if *pid == wanted || with_ext == wanted || under == *pid {
            return Some(i);
        }
        i = i + 1;
    }
    None
}

/// `id` with every `/` turned into `-`.
pub open spec fn dir_name(id: Seq<char>) -> Seq<char> {
    id.map_values(|c: char| if c == '/' { '-' } else { c })
}

/// The directory name of a package id: `/` turned into `-`.
pub fn package_dir_name(id: &str) -> (r: String)
    ensures
        r@ == dir_name(id@),
{
    let n = id.unicode_len();
    let mut r = String::new();
    let mut i: usize = 0;
    while i < n
        invariant
            n == id@.len(),
            i <= n,
            r@ == dir_name(id@.take(i as int)),
        decreases n - i,
    {
        let c = id.get_char(i);
        if c == '/' {
            r.append("-");
            proof {
                reveal_strlit("-");
            }
        } else {
            r.append(id.substring_char(i, i + 1));
        }
        assert(r@ =~= dir_name(id@.take(i as int + 1)));
        i = i + 1;
    }
    assert(id@.take(n as int) =~= id@);
    r
}

/// The packages known from a remote index.
#[derive(Debug)]
pub struct Repository {
    packages: Vec<MetaInfo>,
}

impl Repository {
    pub closed spec fn packages_spec(&self) -> Seq<MetaInfo> {
        self.packages@
    }

    /// An empty repository.
    pub fn new() -> (r: Repository)
        ensures
            r.packages_spec().len() == 0,
    {
        Repository { packages: Vec::new() }
    }

    /// The packages, in index order.
    pub fn iter(&self) -> (r: &[MetaInfo])
        ensures
            r@ == self.packages_spec(),
    {
        self.packages.as_slice()
    }

    /// Replaces the packages with those of a freshly read index.
    pub fn replace(&mut self, packages: Vec<MetaInfo>)
        ensures
            final(self).packages_spec() == packages@,
    {
        self.packages = packages;
    }

    /// The first package that answers to `id`.
    pub fn get(&self, id: &str) -> (r: Option<&MetaInfo>)
        ensures
            match r {
                Some(m) => exists|k: int|
                    0 <= k < self.packages_spec().len() && self.packages_spec()[k] == *m && answers_to(m.id@, id@)
                        && forall|j: int| 0 <= j < k ==> !answers_to(#[trigger] self.packages_spec()[j].id@, id@),
                None => forall|j: int|
                    0 <= j < self.packages_spec().len() ==> !answers_to(#[trigger] self.packages_spec()[j].id@, id@),
            },
    {
        match find_package(&self.packages, id) {
            Some(k) => {
                let m = &self.packages[k];
                assert(self.packages_spec()[k as int] == *m);
                Some(m)
            },
            None => None,
        }
    }
}

} // verus!
