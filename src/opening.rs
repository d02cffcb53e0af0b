use crate::cache::{Cache, CacheError};
use vstd::prelude::*;

verus! {

/// How far a session has come in taking hold of the cache file.
///
/// A file that exists is read under a shared lock, which is then given up
/// for an exclusive one; a file that does not exist is created by taking the
/// exclusive lock at once, and the session starts with no records.
#[derive(Debug)]
pub enum Opening {
    /// Nothing done yet: whether the file exists is the first thing to learn.
    Start,
    /// A shared lock on the existing file was asked for.
    SharedLock,
    /// The file is read under the shared lock.
    Reading,
    /// The shared lock was given up and an exclusive one asked for; the
    /// snapshot read is kept meanwhile.
    ExclusiveLock(Cache),
    /// The exclusive lock, which creates the file, was asked for.
    CreateLock,
}

/// What the outside world reports back to the protocol.
#[derive(Debug)]
pub enum OpenEvent {
    /// Whether the cache file exists.
    PathChecked(bool),
    /// The lock asked for is held.
    LockGranted,
    /// The lock asked for could not be had.
    LockRefused,
    /// The file read as this snapshot.
    Parsed(Cache),
    /// The file did not read as a snapshot.
    Garbled,
}

/// What the protocol asks the outside world to do next.
#[derive(Debug, Clone, Copy, PartialEq, Eq, Structural)]
pub enum OpenRequest {
    /// Take a shared lock on the existing file.
    LockShared,
    /// Read the whole file under the shared lock and report what it holds.
    ReadContents,
    /// Give up the shared lock, then take an exclusive one.
    RelockExclusive,
    /// Take an exclusive lock, creating the file empty if it is not there.
    LockExclusiveCreate,
}

/// The outcome of one step.
#[derive(Debug)]
pub enum OpenAction {
    /// Carry out the request, then report the event to this state.
    Wait(Opening, OpenRequest),
    /// The exclusive lock is held: the session starts on this snapshot.
    Done(Cache),
    /// The session cannot start.
    Fail(CacheError),
}

impl Opening {
    /// The events that may come in this state: the answer to what it asked.
    pub open spec fn expects(&self, ev: &OpenEvent) -> bool {
        match self {
            Opening::Start => ev is PathChecked,
            Opening::SharedLock => ev is LockGranted || ev is LockRefused,
            Opening::Reading => ev is Parsed || ev is Garbled,
            Opening::ExclusiveLock(_) => ev is LockGranted || ev is LockRefused,
            Opening::CreateLock => ev is LockGranted || ev is LockRefused,
        }
    }

    /// Whether `ev` may come in this state.
    pub fn accepts(&self, ev: &OpenEvent) -> (r: bool)
        ensures
            r == self.expects(ev),
    {
        match self {
            Opening::Start => matches!(ev, OpenEvent::PathChecked(_)),
            Opening::SharedLock | Opening::ExclusiveLock(_) | Opening::CreateLock => matches!(
                ev,
                OpenEvent::LockGranted | OpenEvent::LockRefused
            ),
            Opening::Reading => matches!(ev, OpenEvent::Parsed(_) | OpenEvent::Garbled),
        }
    }

    /// One step of taking hold of the cache file.
    pub fn advance(self, ev: OpenEvent) -> (r: OpenAction)
        requires
            self.expects(&ev),
            ev matches OpenEvent::Parsed(c) ==> c.wf(),
            self matches Opening::ExclusiveLock(c) ==> c.wf(),
        ensures
            ev is LockRefused ==> r == OpenAction::Fail(CacheError::LockUnavailable),
            ev == OpenEvent::PathChecked(true) ==> r == OpenAction::Wait(Opening::SharedLock, OpenRequest::LockShared),
            ev == OpenEvent::PathChecked(false) ==> r == OpenAction::Wait(Opening::CreateLock, OpenRequest::LockExclusiveCreate),
            (self is SharedLock && ev is LockGranted) ==> r == OpenAction::Wait(Opening::Reading, OpenRequest::ReadContents),
            ev matches OpenEvent::Parsed(c) ==> r == OpenAction::Wait(Opening::ExclusiveLock(c), OpenRequest::RelockExclusive),
            ev is Garbled ==> r == OpenAction::Fail(CacheError::CorruptCache),
            (self is ExclusiveLock && ev is LockGranted) ==> r == OpenAction::Done(self->ExclusiveLock_0),
            (self is CreateLock && ev is LockGranted) ==> (r matches OpenAction::Done(c) && c.wf() && c.payload() is None),
    {
        match ev {
            OpenEvent::LockRefused => OpenAction::Fail(CacheError::LockUnavailable),
            OpenEvent::PathChecked(true) => OpenAction::Wait(Opening::SharedLock, OpenRequest::LockShared),
            OpenEvent::PathChecked(false) => OpenAction::Wait(Opening::CreateLock, OpenRequest::LockExclusiveCreate),
            OpenEvent::Parsed(c) => OpenAction::Wait(Opening::ExclusiveLock(c), OpenRequest::RelockExclusive),
            OpenEvent::Garbled => OpenAction::Fail(CacheError::CorruptCache),
            OpenEvent::LockGranted => match self {
                Opening::SharedLock => OpenAction::Wait(Opening::Reading, OpenRequest::ReadContents),
                Opening::ExclusiveLock(c) => OpenAction::Done(c),
                _ => OpenAction::Done(Cache::fresh()),
            },
        }
    }
}

} // verus!
