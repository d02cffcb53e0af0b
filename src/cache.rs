use crate::cache_data::CacheData;
use crate::repository::RepositoryView;
use crate::timestamp::Timestamp;
use vstd::prelude::*;

verus! {

/// Why a cache session could not go on.
#[derive(Debug, Clone, Copy, PartialEq, Eq, Structural)]
pub enum CacheError {
    /// The lock on the cache file could not be had.
    LockUnavailable,
    /// The cache file holds something other than a cache snapshot.
    CorruptCache,
    /// The snapshot could not be written back.
    PersistError,
}

/// The snapshot kept in the cache file: when it was last written, and the
/// records, absent until a session first asks to change them.
#[derive(Debug)]
pub struct Cache {
    timestamp: Timestamp,
    inner: Option<CacheData>,
}

impl Cache {
    pub closed spec fn stamp(&self) -> Timestamp {
        self.timestamp
    }

    pub closed spec fn payload(&self) -> Option<CacheData> {
        self.inner
    }

    /// The records as a set, if there are any.
    pub open spec fn contents(&self) -> Option<Set<RepositoryView>> {
        match self.payload() {
            Some(d) => Some(d@),
            None => None,
        }
    }

    pub open spec fn wf(&self) -> bool {
        &&& self.stamp().wf()
        &&& match self.payload() {
            Some(d) => d.wf(),
            None => true,
        }
    }

    /// A snapshot made of its parts.
    pub fn from_parts(timestamp: Timestamp, inner: Option<CacheData>) -> (r: Cache)
        ensures
            r.stamp() == timestamp,
            r.payload() == inner,
            timestamp.wf() && (inner matches Some(d) ==> d.wf()) ==> r.wf(),
    {
        Cache { timestamp, inner }
    }

    /// A snapshot with no records yet, stamped with the current time.
    pub fn fresh() -> (r: Cache)
        ensures
            r.wf(),
            r.payload() is None,
    {
        Cache { timestamp: Timestamp::now(), inner: None }
    }

    /// When the snapshot was last written.
    pub fn timestamp(&self) -> (r: Timestamp)
        ensures
            r == self.stamp(),
    {
        self.timestamp
    }

    /// The records, if any have been loaded or asked for.
    pub fn get_opt(&self) -> (r: Option<&CacheData>)
        ensures
            r == match self.payload() {
                Some(d) => Some(&d),
                None => None::<&CacheData>,
            },
    {
        match &self.inner {
            Some(d) => Some(d),
            None => None,
        }
    }

    /// The records for changing; an empty set is made on first use.
    pub fn get_mut(&mut self) -> (r: &mut CacheData)
        requires
            old(self).wf(),
        ensures
            r.wf(),
            old(self).payload() is Some ==> *r == old(self).payload()->0,
            old(self).payload() is None ==> r@ == Set::<RepositoryView>::empty(),
            final(self).payload() == Some(*final(r)),
            final(self).stamp() == old(self).stamp(),
    {
        if self.inner.is_none() {
            self.inner = Some(CacheData::new());
        }
        match &mut self.inner {
            Some(d) => d,
            None => {
                proof {
                    assert(false);
                }
                unreached()
            },
        }
    }

    /// Sets the time of writing.
    fn set_timestamp(&mut self, t: Timestamp)
        ensures
            final(self).stamp() == t,
            final(self).payload() == old(self).payload(),
    {
        self.timestamp = t;
    }
}

/// A cache session: the snapshot of the cache file together with the lock
/// that keeps every other session off the file while this one lives.
pub struct SharedCache<L> {
    inner: Cache,
    lock: L,
}

impl<L> SharedCache<L> {
    pub closed spec fn snapshot(&self) -> Cache {
        self.inner
    }

    pub closed spec fn lock_handle(&self) -> L {
        self.lock
    }

    pub open spec fn wf(&self) -> bool {
        self.snapshot().wf()
    }

    /// A session on a snapshot that was loaded, or made fresh, under `lock`.
    pub fn from_locked(inner: Cache, lock: L) -> (r: SharedCache<L>)
        ensures
            r.snapshot() == inner,
            r.lock_handle() == lock,
    {
        SharedCache { inner, lock }
    }

    /// The snapshot as it stands in memory.
    pub fn cache(&self) -> (r: &Cache)
        ensures
            *r == self.snapshot(),
    {
        &self.inner
    }

    /// The lock held on the cache file.
    pub fn lock(&self) -> (r: &L)
        ensures
            *r == self.lock_handle(),
    {
        &self.lock
    }

    /// The records, if any have been loaded or asked for.
    pub fn get_opt(&self) -> (r: Option<&CacheData>)
        ensures
            r == match self.snapshot().payload() {
                Some(d) => Some(&d),
                None => None::<&CacheData>,
            },
    {
        self.inner.get_opt()
    }

    /// The records for changing; an empty set is made on first use. Nothing
    /// reaches the file until `dump`.
    pub fn get_mut(&mut self) -> (r: &mut CacheData)
        requires
            old(self).wf(),
        ensures
            r.wf(),
            old(self).snapshot().payload() is Some ==> *r == old(self).snapshot().payload()->0,
            old(self).snapshot().payload() is None ==> r@ == Set::<RepositoryView>::empty(),
            final(self).snapshot().payload() == Some(*final(r)),
            final(self).snapshot().stamp() == old(self).snapshot().stamp(),
            final(self).lock_handle() == old(self).lock_handle(),
    {
        self.inner.get_mut()
    }

    /// Writes the snapshot back through `write`, stamped with the current
    /// time. If `write` fails, the snapshot keeps its earlier stamp and the
    /// error is `PersistError`; the records are never touched.
    pub fn dump<E, W: FnOnce(&Cache, &L) -> Result<(), E>>(&mut self, write: W) -> (r: Result<(), CacheError>)
        requires
            old(self).wf(),
            forall|c: &Cache, l: &L| #[trigger] write.requires((c, l)),
        ensures
            final(self).wf(),
            final(self).lock_handle() == old(self).lock_handle(),
            final(self).snapshot().payload() == old(self).snapshot().payload(),
            r is Ok ==> write.ensures((&final(self).snapshot(), &old(self).lock_handle()), Ok::<(), E>(())),
            r is Err ==> r == Err::<(), CacheError>(CacheError::PersistError)
                && final(self).snapshot().stamp() == old(self).snapshot().stamp()
                && exists|c: Cache, e: E| c.payload() == old(self).snapshot().payload()
                    && #[trigger] write.ensures((&c, &old(self).lock_handle()), Err::<(), E>(e)),
    {
        let before = self.inner.timestamp();
        self.inner.set_timestamp(Timestamp::now());
        let outcome = write(&self.inner, &self.lock);
        let ghost written = self.inner;
        assert(write.ensures((&written, &self.lock), outcome));
        match outcome {
            Ok(u) => {
                assert(outcome == Ok::<(), E>(()));
                assert(self.inner == written);
                Ok(u)
            },
            Err(e) => {
                assert(written.payload() == old(self).snapshot().payload());
                assert(write.ensures((&written, &old(self).lock_handle()), Err::<(), E>(e)));
                self.inner.set_timestamp(before);
                Err(CacheError::PersistError)
            },
        }
    }
}

} // verus!
