//! The find session: a lazy, forward-only enumeration of the entries a
//! pattern matches, run as an explicit three-state machine so that the
//! engine's find handle is issued at most once and released exactly once,
//! whether the caller drains the sequence, abandons it early, or never
//! starts it.

use crate::error::CascError;
use crate::file::FileEntry;
use crate::names;
use crate::native::{
    first_match_from, FindFirstOutcome, NativeEngine, ERROR_NO_MORE_FILES,
};
use vstd::prelude::*;
use vstd::utf8::{decode_utf8, valid_utf8};

verus! {

/// A pending enumeration: a pattern and the storage to run it under.
/// Nothing is acquired until the first advance.
#[derive(Debug)]
pub struct Find {
    /// The encoded name pattern.
    pub mask: Vec<u8>,
    /// The storage handle to enumerate under.
    pub storage: usize,
}

impl Find {
    /// Turn the pending enumeration into its iterator, still unstarted.
    pub fn into_iter(self) -> (r: FindIterator)
        ensures
            r.mask@ == self.mask@,
            r.storage == self.storage,
            r.state is Unstarted,
    {
        FindIterator { mask: self.mask, storage: self.storage, state: FindState::Unstarted }
    }
}

/// Where an enumeration stands.
#[derive(Clone, Copy, Debug)]
pub enum FindState {
    /// No engine find handle has been issued yet.
    Unstarted,
    /// The engine find handle is live.
    Active { handle: usize },
    /// Done: any find handle ever issued has been released.
    Exhausted,
}

/// A running enumeration.
#[derive(Debug)]
pub struct FindIterator {
    /// The encoded name pattern.
    pub mask: Vec<u8>,
    /// The storage handle enumerated under.
    pub storage: usize,
    /// The state of the session's engine find handle.
    pub state: FindState,
}

/// The item a session yields for an entry whose engine-reported name is
/// `name`: the decoded entry, or the invalid-name error.
pub open spec fn yielded(
    r: Option<Result<FileEntry, CascError>>,
    storage: usize,
    name: Seq<u8>,
) -> bool {
    match r {
        Some(Ok(fe)) => valid_utf8(name) && fe.storage == storage && fe.name@ == decode_utf8(name),
        Some(Err(e)) => !valid_utf8(name) && e == CascError::InvalidFileName,
        None => false,
    }
}

/// Decode one engine-reported name into an entry, or the invalid-name
/// error.
fn decode_entry(storage: usize, name: &Vec<u8>) -> (r: Result<FileEntry, CascError>)
    ensures
        r matches Ok(fe) ==> valid_utf8(name@) && fe.storage == storage && fe.name@ == decode_utf8(
            name@,
        ),
        r matches Err(e) ==> !valid_utf8(name@) && e == CascError::InvalidFileName,
{
    match names::decode(name) {
        Some(s) => Ok(FileEntry { storage, name: s }),
        None => Err(CascError::InvalidFileName),
    }
}

impl FindIterator {
    /// The session's storage is still open, and while active its engine
    /// find slot is live and carries this session's pattern.
    pub open spec fn wf(self, e: NativeEngine) -> bool {
        &&& e.wf()
        &&& self.storage < e.storages@.len()
        &&& e.storages@[self.storage as int].open
        &&& self.state matches FindState::Active { handle } ==> handle < e.finds@.len()
            && e.finds@[handle as int].open && e.finds@[handle as int].storage == self.storage
            && e.finds@[handle as int].mask@ == self.mask@
    }

    /// The entries the session enumerates over.
    pub open spec fn entries(self, e: NativeEngine) -> Seq<crate::native::EntryData> {
        e.archive_of(self.storage as int).entries@
    }

    /// The entry index the next advance scans from.
    pub open spec fn cursor(self, e: NativeEngine) -> int {
        match self.state {
            FindState::Unstarted => 0,
            FindState::Active { handle } => e.finds@[handle as int].cursor as int,
            FindState::Exhausted => 0,
        }
    }

    /// Advance the enumeration.
    ///
    /// The first advance asks the engine for a session; an empty match set
    /// ends the enumeration quietly (no error), any other first-call
    /// failure yields one error item and ends it, and no find handle is
    /// issued in either case. While matches remain, each advance yields
    /// the next matched entry (or the invalid-name error for it, without
    /// stopping the session). When the matches run out, the find handle is
    /// released — exactly once — and the session is exhausted for good.
    pub fn next(&mut self, engine: &mut NativeEngine) -> (r: Option<Result<FileEntry, CascError>>)
        requires
            old(self).wf(*old(engine)),
        ensures
            final(engine).wf(),
            final(self).wf(*final(engine)),
            final(self).mask@ == old(self).mask@,
            final(self).storage == old(self).storage,
            final(engine).archives == old(engine).archives,
            final(engine).storages == old(engine).storages,
            final(engine).files == old(engine).files,
            final(engine).read_calls == old(engine).read_calls,
            // An exhausted session stays exhausted and touches nothing.
            old(self).state is Exhausted ==> *final(engine) == *old(engine) && final(self).state is Exhausted && r is None,
            // First advance, engine fault: one error item, then nothing;
            // no find handle was issued.
            old(self).state is Unstarted && old(engine).archive_of(old(self).storage as int).fault
                != 0 ==> final(self).state is Exhausted && final(engine).finds == old(engine).finds
                && final(engine).find_close_calls == old(engine).find_close_calls && r == Some(
                Err::<FileEntry, CascError>(
                    CascError::Code(old(engine).archive_of(old(self).storage as int).fault),
                ),
            ),
            // First advance, empty match set: a quiet end, no error, and
            // no find handle was ever issued.
            old(self).state is Unstarted && old(engine).archive_of(old(self).storage as int).fault
                == 0 && first_match_from(old(self).entries(*old(engine)), old(self).mask@, 0)
                is None ==> r is None && final(self).state is Exhausted && final(engine).finds
                == old(engine).finds && final(engine).find_close_calls == old(
                engine,
            ).find_close_calls && final(engine).last_error == ERROR_NO_MORE_FILES,
            // First advance, a match at index i: a session handle is
            // issued, scanning continues past i, and entry i is yielded.
            old(self).state is Unstarted && old(engine).archive_of(old(self).storage as int).fault
                == 0 ==> (first_match_from(old(self).entries(*old(engine)), old(self).mask@, 0)
                matches Some(i) ==> (final(self).state matches FindState::Active { handle }
                && handle == old(engine).finds@.len() && final(engine).finds@.len() == old(
                engine,
            ).finds@.len() + 1 && (forall|j: int|
                0 <= j < old(engine).finds@.len() ==> final(engine).finds@[j] == old(
                    engine,
                ).finds@[j]) && final(engine).finds@[handle as int].cursor == i + 1 && final(engine).find_close_calls == old(engine).find_close_calls && final(engine).last_error == old(
                engine,
            ).last_error && yielded(
                r,
                old(self).storage,
                old(self).entries(*old(engine))[i].name@,
            ))),
            // A running session with a match at index i: the cursor moves
            // past i and entry i is yielded; past the last match, the find
            // handle is released, exactly once, and the session is
            // exhausted.
            old(self).state matches FindState::Active { handle } ==> (first_match_from(
                old(self).entries(*old(engine)),
                old(self).mask@,
                old(self).cursor(*old(engine)),
            ) matches Some(i) ==> (final(self).state == old(self).state && final(engine).finds@
                == old(engine).finds@.update(handle as int, final(engine).finds@[handle as int])
                && final(engine).finds@[handle as int].open && final(engine).finds@[handle as int].cursor == i + 1 && final(engine).finds@[handle as int].mask@
                == old(self).mask@ && final(engine).finds@[handle as int].storage == old(
                self,
            ).storage && final(engine).find_close_calls == old(engine).find_close_calls && final(engine).last_error == old(engine).last_error && yielded(
                r,
                old(self).storage,
                old(self).entries(*old(engine))[i].name@,
            ))) && (first_match_from(
                old(self).entries(*old(engine)),
                old(self).mask@,
                old(self).cursor(*old(engine)),
            ) is None ==> (r is None && final(self).state is Exhausted && final(engine).finds@
                == old(engine).finds@.update(handle as int, final(engine).finds@[handle as int])
                && !final(engine).finds@[handle as int].open && final(engine).find_close_calls
                == old(engine).find_close_calls + 1 && final(engine).last_error
                == ERROR_NO_MORE_FILES)),
    {
        let state = self.state;
        match state {
            FindState::Exhausted => None,
            FindState::Unstarted => {
                match engine.find_first(self.storage, &self.mask) {
                    FindFirstOutcome::Failed { code } => {
                        self.state = FindState::Exhausted;
                        Some(Err(CascError::Code(code)))
                    },
                    FindFirstOutcome::NoMore => {
                        self.state = FindState::Exhausted;
                        None
                    },
                    FindFirstOutcome::Found { handle, item } => {
                        self.state = FindState::Active { handle };
                        Some(decode_entry(self.storage, &item.name))
                    },
                }
            },
            FindState::Active { handle } => {
                match engine.find_next(handle) {
                    Some(item) => Some(decode_entry(self.storage, &item.name)),
                    None => {
                        engine.find_close(handle);
                        self.state = FindState::Exhausted;
                        None
                    },
                }
            },
        }
    }

    /// End the enumeration now, whether or not it ran to exhaustion. A
    /// live find handle is released — and the contract says exactly once:
    /// on a session already exhausted (or never started) the engine is
    /// left entirely alone, so a second close releases nothing twice.
    pub fn close(&mut self, engine: &mut NativeEngine)
        requires
            old(self).wf(*old(engine)),
        ensures
            final(engine).wf(),
            final(self).wf(*final(engine)),
            final(self).mask@ == old(self).mask@,
            final(self).storage == old(self).storage,
            final(self).state is Exhausted,
            final(engine).archives == old(engine).archives,
            final(engine).storages == old(engine).storages,
            final(engine).files == old(engine).files,
            final(engine).read_calls == old(engine).read_calls,
            final(engine).last_error == old(engine).last_error,
            old(self).state matches FindState::Active { handle } ==> (final(engine).finds@ == old(
                engine,
            ).finds@.update(handle as int, final(engine).finds@[handle as int]) && !final(engine).finds@[handle as int].open && final(engine).find_close_calls == old(
                engine,
            ).find_close_calls + 1),
            !(old(self).state is Active) ==> *final(engine) == *old(engine),
    {
        let state = self.state;
        match state {
            FindState::Active { handle } => {
                engine.find_close(handle);
                self.state = FindState::Exhausted;
            },
            _ => {
                self.state = FindState::Exhausted;
            },
        }
    }
}

} // verus!
