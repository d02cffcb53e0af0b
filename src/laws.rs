use crate::repository::Repository;
use vstd::prelude::*;

verus! {

/// Inserting two equal records, one after the other, into an empty set of
/// records leaves exactly one record, the one inserted last.
pub proof fn lemma_insert_equal_twice(a: Repository, b: Repository)
    requires
        a@ == b@,
    ensures
        Set::empty().insert(a@).insert(b@).len() == 1,
        Set::empty().insert(a@).insert(b@) == set![b@],
{
    assert(Set::empty().insert(a@).insert(b@) =~= set![b@]);
}

} // verus!
