use vstd::prelude::*;

verus! {

/// What a repository record is, as far as the cache is concerned.
pub struct RepositoryView {
    pub path: Seq<char>,
    pub remote: Option<Seq<char>>,
}

/// One cached repository: where it lives on disk and, if known, its remote.
#[derive(Debug, Clone)]
pub struct Repository {
    pub path: String,
    pub remote: Option<String>,
}

impl View for Repository {
    type V = RepositoryView;

    open spec fn view(&self) -> RepositoryView {
        RepositoryView {
            path: self.path@,
            remote: match self.remote {
                Some(r) => Some(r@),
                None => None,
            },
        }
    }
}

impl Repository {
    pub fn new(path: String, remote: Option<String>) -> (r: Repository)
        ensures
            r.path == path,
            r.remote == remote,
    {
        Repository { path, remote }
    }

    /// A copy with the same contents.
    pub fn duplicate(&self) -> (r: Repository)
        ensures
            r@ == self@,
    {
        let remote = match &self.remote {
            Some(s) => Some(s.clone()),
            None => None,
        };
        Repository { path: self.path.clone(), remote }
    }

    /// Two records are the same record when path and remote agree.
    pub fn same_as(&self, other: &Repository) -> (r: bool)
        ensures
            r == (self@ == other@),
    {
        let same_remote = match &self.remote {
            Some(a) => match &other.remote {
                Some(b) => a.eq(b),
                None => false,
            },
            None => other.remote.is_none(),
        };
        let same_path = self.path.eq(&other.path);
        same_path && same_remote
    }
}

impl PartialEq for Repository {
    fn eq(&self, other: &Repository) -> (r: bool) {
        self.same_as(other)
    }
}

impl vstd::std_specs::cmp::PartialEqSpecImpl for Repository {
    open spec fn obeys_eq_spec() -> bool {
        true
    }

    open spec fn eq_spec(&self, other: &Repository) -> bool {
        self@ == other@
    }
}

impl Eq for Repository {

}

} // verus!
