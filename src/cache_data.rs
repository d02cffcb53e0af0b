use crate::order::{compare_repo, lemma_repo_lt_asymmetric, lemma_repo_lt_total, lemma_repo_lt_transitive, repo_lt};
use crate::repository::{Repository, RepositoryView};
use vstd::prelude::*;

verus! {

/// The views of a sequence of records, as a set.
pub open spec fn view_set(s: Seq<Repository>) -> Set<RepositoryView> {
    Set::new(|v: RepositoryView| exists|i: int| 0 <= i < s.len() && #[trigger] s[i]@ == v)
}

/// No two records of `s` are the same record.
pub open spec fn distinct_views(s: Seq<Repository>) -> bool {
    forall|i: int, j: int| 0 <= i < s.len() && 0 <= j < s.len() && i != j ==> #[trigger] s[i]@ != #[trigger] s[j]@
}

/// Each record of `s` comes before every later one.
pub open spec fn sorted_views(s: Seq<Repository>) -> bool {
    forall|i: int, j: int| 0 <= i < j < s.len() ==> repo_lt(#[trigger] s[i]@, #[trigger] s[j]@)
}

/// Records in strict order are distinct.
pub proof fn lemma_sorted_distinct(s: Seq<Repository>)
    requires
        sorted_views(s),
    ensures
        distinct_views(s),
{
    assert forall|i: int, j: int| 0 <= i < s.len() && 0 <= j < s.len() && i != j implies #[trigger] s[i]@ != #[trigger] s[j]@ by {
        lemma_repo_lt_asymmetric(s[i]@, s[j]@);
    }
}

/// The payload of the cache: a set of records, each held once, kept in
/// their natural order.
#[derive(Debug)]
pub struct CacheData {
    repositories: Vec<Repository>,
}

impl View for CacheData {
    type V = Set<RepositoryView>;

    closed spec fn view(&self) -> Set<RepositoryView> {
        view_set(self.repositories@)
    }
}

impl CacheData {
    /// The records in the order `iter` hands them out.
    pub closed spec fn records(&self) -> Seq<Repository> {
        self.repositories@
    }

    /// Each record is held once, in the natural order.
    pub closed spec fn wf(&self) -> bool {
        sorted_views(self.repositories@) && distinct_views(self.repositories@)
    }

    /// An empty set of records.
    pub fn new() -> (r: CacheData)
        ensures
            r.wf(),
            r@ == Set::<RepositoryView>::empty(),
            r.records().len() == 0,
    {
        let r = CacheData { repositories: Vec::new() };
        assert(r@ =~= Set::<RepositoryView>::empty());
        r
    }

    /// Number of records held.
    pub fn len(&self) -> (r: usize)
        requires
            self.wf(),
        ensures
            r == self@.len(),
            r == self.records().len(),
    {
        proof {
            lemma_distinct_len(self.repositories@);
        }
        self.repositories.len()
    }

    /// Whether a record equal to `record` is held.
    pub fn contains(&self, record: &Repository) -> (r: bool)
        ensures
            r == self@.contains(record@),
    {
        match self.position(record) {
            Some(_) => true,
            None => false,
        }
    }

    fn position(&self, record: &Repository) -> (r: Option<usize>)
        ensures
            match r {
                Some(i) => i < self.repositories@.len() && self.repositories@[i as int]@ == record@,
                None => !self@.contains(record@),
            },
    {
        let mut i: usize = 0;
        while i < self.repositories.len()
            invariant
                i <= self.repositories@.len(),
                forall|k: int| 0 <= k < i ==> #[trigger] self.repositories@[k]@ != record@,
            decreases self.repositories@.len() - i,
        {
            if self.repositories[i].same_as(record) {
                return Some(i);
            }
            i = i + 1;
        }
        None
    }

    /// Where `record` belongs: the first place whose record does not come
    /// before it.
    fn locate(&self, record: &Repository) -> (r: usize)
        requires
            self.wf(),
        ensures
            r <= self.repositories@.len(),
            forall|k: int| 0 <= k < r ==> repo_lt(#[trigger] self.repositories@[k]@, record@),
            r < self.repositories@.len() ==> !repo_lt(self.repositories@[r as int]@, record@),
    {
        let mut i: usize = 0;
        while i < self.repositories.len() && compare_repo(&self.repositories[i], record) < 0
            invariant
                i <= self.repositories@.len(),
                forall|k: int| 0 <= k < i ==> repo_lt(#[trigger] self.repositories@[k]@, record@),
            decreases self.repositories@.len() - i,
        {
            i = i + 1;
        }
        i
    }

    /// Adds `record`; a record equal to it that was held before is replaced.
    pub fn insert_or_update(&mut self, record: Repository)
        requires
            old(self).wf(),
        ensures
            final(self).wf(),
            final(self)@ == old(self)@.insert(record@),
            final(self).records().contains(record),
    {
        let ghost old_seq = self.repositories@;
        let ghost rv = record@;
        let i = self.locate(&record);
        if i < self.repositories.len() && compare_repo(&self.repositories[i], &record) == 0 {
            self.repositories.set(i, record);
            assert(self@ =~= old(self)@.insert(rv)) by {
                assert forall|v: RepositoryView| #[trigger] self@.contains(v) implies old(self)@.insert(rv).contains(v) by {
                    let k = choose|k: int| 0 <= k < self.repositories@.len() && self.repositories@[k]@ == v;
                    if k != i {
                        assert(old_seq[k]@ == v);
                    }
                }
                assert forall|v: RepositoryView| #[trigger] old(self)@.insert(rv).contains(v) implies self@.contains(v) by {
                    if v != rv {
                        let k = choose|k: int| 0 <= k < old_seq.len() && old_seq[k]@ == v;
                        assert(self.repositories@[k]@ == v);
                    } else {
                        assert(self.repositories@[i as int]@ == v);
                    }
                }
            }
            assert forall|k: int| 0 <= k < self.repositories@.len() implies #[trigger] self.repositories@[k]@ == old_seq[k]@ by {}
            assert(self.repositories@[i as int] == record);
        } else {
            proof {
                if i < old_seq.len() {
                    lemma_repo_lt_total(old_seq[i as int]@, rv);
                }
            }
            self.repositories.insert(i, record);
            let ghost new_seq = self.repositories@;
            assert(forall|k: int| 0 <= k < i ==> #[trigger] new_seq[k] == old_seq[k]);
            assert(forall|k: int| i < k < new_seq.len() ==> #[trigger] new_seq[k] == old_seq[k - 1]);
            assert(new_seq[i as int] == record);
            assert(sorted_views(new_seq)) by {
                assert forall|a: int, b: int| 0 <= a < b < new_seq.len() implies repo_lt(#[trigger] new_seq[a]@, #[trigger] new_seq[b]@) by {
                    if b < i {
                    } else if b == i {
                    } else if a < i {
                        assert(repo_lt(old_seq[a]@, rv));
                        assert(repo_lt(rv, old_seq[i as int]@));
                        lemma_repo_lt_transitive(old_seq[a]@, rv, old_seq[i as int]@);
                        if b - 1 > i {
                            lemma_repo_lt_transitive(old_seq[a]@, old_seq[i as int]@, old_seq[b - 1]@);
                        }
                    } else if a == i {
                        if b - 1 > i {
                            lemma_repo_lt_transitive(rv, old_seq[i as int]@, old_seq[b - 1]@);
                        }
                    } else {
                        assert(new_seq[a] == old_seq[a - 1]);
                    }
                }
            }
            proof {
                lemma_sorted_distinct(new_seq);
            }
            assert(self@ =~= old(self)@.insert(rv)) by {
                assert forall|v: RepositoryView| #[trigger] self@.contains(v) implies old(self)@.insert(rv).contains(v) by {
                    let k = choose|k: int| 0 <= k < new_seq.len() && new_seq[k]@ == v;
                    if k < i {
                        assert(old_seq[k]@ == v);
                    } else if k > i {
                        assert(old_seq[k - 1]@ == v);
                    }
                }
                assert forall|v: RepositoryView| #[trigger] old(self)@.insert(rv).contains(v) implies self@.contains(v) by {
                    if v != rv {
                        let k = choose|k: int| 0 <= k < old_seq.len() && old_seq[k]@ == v;
                        if k < i {
                            assert(new_seq[k]@ == v);
                        } else {
                            assert(new_seq[k + 1]@ == v);
                        }
                    } else {
                        assert(new_seq[i as int]@ == v);
                    }
                }
            }
        }
    }
}

impl CacheData {
    /// The records, one each, in the order `iter` hands them out.
    pub fn as_slice(&self) -> (r: &[Repository])
        ensures
            r@ == self.records(),
            self.wf() ==> sorted_views(r@),
    {
        self.repositories.as_slice()
    }

    /// Walks the records, each once, in their natural order.
    pub fn iter(&self) -> (r: std::slice::Iter<'_, Repository>)
        ensures
            vstd::std_specs::iter::IteratorSpec::remaining(&r).unref() == self.records(),
            self.wf() ==> sorted_views(self.records()),
    {
        let r = self.repositories.as_slice().iter();
        proof {
            broadcast use vstd::std_specs::slice::axiom_spec_slice_iter;
            assert(vstd::std_specs::iter::IteratorSpec::remaining(&r).unref() =~= self.records());
        }
        r
    }

    /// The set of the records of `list`, each held once: a list that holds a
    /// record twice gives it once.
    pub fn from_records(list: Vec<Repository>) -> (r: CacheData)
        ensures
            r.wf(),
            r@ == view_set(list@),
    {
        let mut data = CacheData::new();
        let mut i: usize = 0;
        while i < list.len()
            invariant
                i <= list@.len(),
                data.wf(),
                data@ == view_set(list@.subrange(0, i as int)),
            decreases list@.len() - i,
        {
            proof {
                lemma_view_set_push(list@, i as int);
            }
            data.insert_or_update(list[i].duplicate());
            i = i + 1;
        }
        assert(list@.subrange(0, list@.len() as int) =~= list@);
        data
    }

    /// Removes every record for which `pred` holds, and says how many went.
    pub fn remove_if<F: Fn(&Repository) -> bool>(&mut self, pred: F) -> (r: usize)
        requires
            old(self).wf(),
            forall|x: &Repository| #[trigger] pred.requires((x,)),
        ensures
            final(self).wf(),
            final(self)@.subset_of(old(self)@),
            forall|i: int| #![trigger old(self).records()[i]] 0 <= i < old(self).records().len() ==>
                (final(self)@.contains(old(self).records()[i]@) ==> pred.ensures((&old(self).records()[i],), false)),
            forall|i: int| #![trigger old(self).records()[i]] 0 <= i < old(self).records().len() ==>
                (!final(self)@.contains(old(self).records()[i]@) ==> pred.ensures((&old(self).records()[i],), true)),
            r == old(self)@.len() - final(self)@.len(),
    {
        let ghost old_seq = self.repositories@;
        let mut kept: Vec<Repository> = Vec::new();
        let mut count: usize = 0;
        let mut i: usize = 0;
        while i < self.repositories.len()
            invariant
                self.repositories@ == old_seq,
                distinct_views(old_seq),
                sorted_views(old_seq),
                sorted_views(kept@),
                forall|x: &Repository| #[trigger] pred.requires((x,)),
                i <= old_seq.len(),
                distinct_views(kept@),
                count + kept@.len() == i,
                forall|j: int| 0 <= j < kept@.len() ==> exists|k: int| 0 <= k < i && #[trigger] kept@[j]@ == old_seq[k]@,
                forall|k: int| 0 <= k < i ==> {
                    let x = #[trigger] old_seq[k];
                    &&& view_set(kept@).contains(x@) ==> pred.ensures((&x,), false)
                    &&& !view_set(kept@).contains(x@) ==> pred.ensures((&x,), true)
                },
            decreases old_seq.len() - i,
        {
            let ghost before = kept@;
            let item = &self.repositories[i];
            if pred(item) {
                count = count + 1;
                assert(!view_set(kept@).contains(old_seq[i as int]@)) by {
                    if view_set(kept@).contains(old_seq[i as int]@) {
                        let j = choose|j: int| 0 <= j < kept@.len() && kept@[j]@ == old_seq[i as int]@;
                        let k = choose|k: int| 0 <= k < i && kept@[j]@ == old_seq[k]@;
                        assert(old_seq[k]@ == old_seq[i as int]@);
                    }
                }
            } else {
                let d = item.duplicate();
                assert(!view_set(before).contains(d@)) by {
                    if view_set(before).contains(d@) {
                        let j = choose|j: int| 0 <= j < before.len() && before[j]@ == d@;
                        let k = choose|k: int| 0 <= k < i && before[j]@ == old_seq[k]@;
                        assert(old_seq[k]@ == old_seq[i as int]@);
                    }
                }
                assert forall|j: int| 0 <= j < before.len() implies repo_lt(#[trigger] before[j]@, d@) by {
                    let k = choose|k: int| 0 <= k < i && before[j]@ == old_seq[k]@;
                    assert(repo_lt(old_seq[k]@, old_seq[i as int]@));
                }
                kept.push(d);
                assert(sorted_views(kept@)) by {
                    assert forall|a: int, b: int| 0 <= a < b < kept@.len() implies repo_lt(#[trigger] kept@[a]@, #[trigger] kept@[b]@) by {
                        assert(kept@[a] == before[a]);
                        if b < before.len() {
                            assert(kept@[b] == before[b]);
                        }
                    }
                }
                assert(view_set(kept@) =~= view_set(before).insert(d@)) by {
                    assert(kept@ =~= before.push(d));
                    lemma_view_set_push(kept@, before.len() as int);
                    assert(kept@.subrange(0, before.len() as int) =~= before);
                    assert(kept@.subrange(0, kept@.len() as int) =~= kept@);
                }
                assert forall|k: int| 0 <= k < i implies (view_set(kept@).contains(#[trigger] old_seq[k]@) <==> view_set(before).contains(old_seq[k]@)) by {
                    assert(old_seq[k]@ != old_seq[i as int]@);
                }
                assert forall|j: int| 0 <= j < kept@.len() implies exists|k: int| 0 <= k < i + 1 && #[trigger] kept@[j]@ == old_seq[k]@ by {
                    if j < before.len() {
                        assert(kept@[j] == before[j]);
                        let k = choose|k: int| 0 <= k < i && before[j]@ == old_seq[k]@;
                        assert(kept@[j]@ == old_seq[k]@);
                    } else {
                        assert(kept@[j]@ == old_seq[i as int]@);
                    }
                }
            }
            i = i + 1;
        }
        proof {
            lemma_distinct_len(kept@);
            lemma_distinct_len(old_seq);
            assert(view_set(kept@).subset_of(view_set(old_seq))) by {
                assert forall|v: RepositoryView| #[trigger] view_set(kept@).contains(v) implies view_set(old_seq).contains(v) by {
                    let j = choose|j: int| 0 <= j < kept@.len() && kept@[j]@ == v;
                    let k = choose|k: int| 0 <= k < i && kept@[j]@ == old_seq[k]@;
                    assert(old_seq[k]@ == v);
                }
            }
        }
        self.repositories = kept;
        count
    }
}

impl CacheData {
    /// A copy of the records as a list, each once, in the order `iter` hands
    /// them out.
    pub fn to_records(&self) -> (r: Vec<Repository>)
        ensures
            r@.len() == self.records().len(),
            forall|i: int| 0 <= i < r@.len() ==> #[trigger] r@[i]@ == self.records()[i]@,
    {
        let mut out: Vec<Repository> = Vec::new();
        let mut i: usize = 0;
        while i < self.repositories.len()
            invariant
                i <= self.repositories@.len(),
                out@.len() == i,
                forall|k: int| 0 <= k < i ==> #[trigger] out@[k]@ == self.repositories@[k]@,
            decreases self.repositories@.len() - i,
        {
            out.push(self.repositories[i].duplicate());
            i = i + 1;
        }
        out
    }
}

/// Listing the records of a set and reading the list back as a set gives the
/// same set: what `to_records` writes out, `from_records` takes back in.
pub proof fn lemma_list_round_trip(d: CacheData, list: Seq<Repository>)
    requires
        d.wf(),
        list.len() == d.records().len(),
        forall|i: int| 0 <= i < list.len() ==> #[trigger] list[i]@ == d.records()[i]@,
    ensures
        view_set(list) == d@,
{
    assert(view_set(list) =~= d@) by {
        assert forall|v: RepositoryView| #[trigger] view_set(list).contains(v) implies d@.contains(v) by {
            let k = choose|k: int| 0 <= k < list.len() && list[k]@ == v;
            assert(d.repositories@[k]@ == v);
        }
        assert forall|v: RepositoryView| #[trigger] d@.contains(v) implies view_set(list).contains(v) by {
            let k = choose|k: int| 0 <= k < d.repositories@.len() && d.repositories@[k]@ == v;
            assert(list[k]@ == v);
        }
    }
}

/// The set of records is the set of views of the records `iter` hands out;
/// when each is held once, there are as many of the one as of the other.
pub proof fn lemma_contents(d: &CacheData)
    ensures
        d@ == view_set(d.records()),
        d.wf() ==> d@.finite() && d@.len() == d.records().len(),
        d.wf() ==> sorted_views(d.records()),
{
    if d.wf() {
        lemma_distinct_len(d.repositories@);
    }
}

/// Taking one more element of `s` adds its view to the set.
pub proof fn lemma_view_set_push(s: Seq<Repository>, i: int)
    requires
        0 <= i < s.len(),
    ensures
        view_set(s.subrange(0, i + 1)) == view_set(s.subrange(0, i)).insert(s[i]@),
{
    let a = s.subrange(0, i + 1);
    let b = s.subrange(0, i);
    assert(view_set(a) =~= view_set(b).insert(s[i]@)) by {
        assert forall|v: RepositoryView| #[trigger] view_set(a).contains(v) implies view_set(b).insert(s[i]@).contains(v) by {
            let k = choose|k: int| 0 <= k < a.len() && a[k]@ == v;
            if k < i {
                assert(b[k]@ == v);
            }
        }
        assert forall|v: RepositoryView| #[trigger] view_set(b).insert(s[i]@).contains(v) implies view_set(a).contains(v) by {
            if v != s[i]@ {
                let k = choose|k: int| 0 <= k < b.len() && b[k]@ == v;
                assert(a[k]@ == v);
            } else {
                assert(a[i]@ == v);
            }
        }
    }
}

/// A sequence of distinct records has as many records as views.
pub proof fn lemma_distinct_len(s: Seq<Repository>)
    requires
        distinct_views(s),
    ensures
        view_set(s).len() == s.len(),
        view_set(s).finite(),
    decreases s.len(),
{
    if s.len() == 0 {
        assert(view_set(s) =~= Set::<RepositoryView>::empty());
    } else {
        let p = s.drop_last();
        assert(distinct_views(p)) by {
            assert forall|i: int, j: int| 0 <= i < p.len() && 0 <= j < p.len() && i != j implies #[trigger] p[i]@ != #[trigger] p[j]@ by {
                assert(p[i] == s[i] && p[j] == s[j]);
            }
        }
        lemma_distinct_len(p);
        let last = s[s.len() - 1];
        assert(view_set(s) =~= view_set(p).insert(last@)) by {
            assert forall|v: RepositoryView| #[trigger] view_set(s).contains(v) implies view_set(p).insert(last@).contains(v) by {
                let k = choose|k: int| 0 <= k < s.len() && s[k]@ == v;
                if k < p.len() {
                    assert(p[k]@ == v);
                }
            }
            assert forall|v: RepositoryView| #[trigger] view_set(p).insert(last@).contains(v) implies view_set(s).contains(v) by {
                if v != last@ {
                    let k = choose|k: int| 0 <= k < p.len() && p[k]@ == v;
                    assert(s[k]@ == v);
                } else {
                    assert(s[s.len() - 1]@ == v);
                }
            }
        }
        assert(!view_set(p).contains(last@)) by {
            if view_set(p).contains(last@) {
                let k = choose|k: int| 0 <= k < p.len() && p[k]@ == last@;
                assert(s[k]@ == s[s.len() - 1]@);
            }
        }
    }
}

} // verus!
