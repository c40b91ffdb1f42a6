//! Storage lifecycle: opening an archive, the cached entry count, and the
//! factories for find sessions and file entries.

use crate::error::{error_from_code, CascError};
use crate::file::FileEntry;
use crate::find::Find;
use crate::names;
use crate::native::{
    archive_index_from, first_match_from, lemma_first_match_from_range, mask_matches, EntryData,
    FindFirstOutcome, NativeEngine, StorageSlot, MASK_ALL_BYTE,
};
use vstd::prelude::*;
use vstd::string::StringSliceAdditionalSpecFns;
use vstd::utf8::{decode_utf8, valid_utf8};

verus! {

/// The (name, size) pairs a bulk enumeration reports: every matched,
/// available entry in engine order, cut off before the first such entry
/// whose name is not valid text.
pub open spec fn visits(entries: Seq<EntryData>, mask: Seq<u8>, start: int) -> Seq<
    (Seq<char>, usize),
>
    decreases entries.len() - start,
{
    if start < 0 || start >= entries.len() {
        Seq::empty()
    } else if mask_matches(mask, entries[start].name@) && entries[start].available {
        if valid_utf8(entries[start].name@) {
            seq![(decode_utf8(entries[start].name@), entries[start].data@.len() as usize)]
                + visits(entries, mask, start + 1)
        } else {
            Seq::empty()
        }
    } else {
        visits(entries, mask, start + 1)
    }
}

/// Whether a bulk enumeration runs into a matched, available entry whose
/// name is not valid text.
pub open spec fn visit_fails(entries: Seq<EntryData>, mask: Seq<u8>, start: int) -> bool
    decreases entries.len() - start,
{
    if start < 0 || start >= entries.len() {
        false
    } else if mask_matches(mask, entries[start].name@) && entries[start].available {
        if valid_utf8(entries[start].name@) {
            visit_fails(entries, mask, start + 1)
        } else {
            true
        }
    } else {
        visit_fails(entries, mask, start + 1)
    }
}

/// Between one match and the next, the visit list and the failure flag do
/// not change; past the last match, the list is empty and nothing fails.
pub proof fn lemma_visits_step(entries: Seq<EntryData>, mask: Seq<u8>, start: int)
    ensures
        first_match_from(entries, mask, start) is None ==> visits(entries, mask, start) == Seq::<
            (Seq<char>, usize),
        >::empty() && !visit_fails(entries, mask, start),
        first_match_from(entries, mask, start) matches Some(i) ==> visits(entries, mask, start)
            == visits(entries, mask, i) && visit_fails(entries, mask, start) == visit_fails(
            entries,
            mask,
            i,
        ),
    decreases entries.len() - start,
{
    if start < 0 || start >= entries.len() {
    } else if mask_matches(mask, entries[start].name@) {
    } else {
        lemma_visits_step(entries, mask, start + 1);
    }
}

/// How many entries at or after `start` the mask matches: the number of
/// items a session over that mask yields when drained (counting an
/// undecodable name as its yielded error item).
pub open spec fn match_count(entries: Seq<EntryData>, mask: Seq<u8>, start: int) -> int
    decreases entries.len() - start,
{
    if start < 0 || start >= entries.len() {
        0
    } else if mask_matches(mask, entries[start].name@) {
        1 + match_count(entries, mask, start + 1)
    } else {
        match_count(entries, mask, start + 1)
    }
}

/// Each advance of a session accounts for exactly the matches it passes:
/// a match at `i` leaves `match_count` one smaller past it, and no match
/// leaves zero. With the session contract this says a full drain yields
/// exactly `match_count` items.
pub proof fn lemma_match_count_step(entries: Seq<EntryData>, mask: Seq<u8>, start: int)
    ensures
        first_match_from(entries, mask, start) is None ==> match_count(entries, mask, start) == 0,
        first_match_from(entries, mask, start) matches Some(i) ==> match_count(entries, mask, start)
            == 1 + match_count(entries, mask, i + 1),
    decreases entries.len() - start,
{
    if start < 0 || start >= entries.len() {
    } else if mask_matches(mask, entries[start].name@) {
    } else {
        lemma_match_count_step(entries, mask, start + 1);
    }
}

/// The match-all mask matches every entry.
pub proof fn lemma_match_count_all(entries: Seq<EntryData>, start: int)
    requires
        0 <= start <= entries.len(),
    ensures
        match_count(entries, seq![MASK_ALL_BYTE], start) == entries.len() - start,
    decreases entries.len() - start,
{
    if start < entries.len() {
        lemma_match_count_all(entries, start + 1);
    }
}

/// The cached `file_count` equals the number of items a drained
/// match-all enumeration yields: the count query and the find session
/// see the same entry table.
pub proof fn lemma_file_count_is_full_drain_count(s: Storage, e: NativeEngine)
    requires
        s.wf(e),
    ensures
        match_count(e.archive_of(s.handle as int).entries@, seq![MASK_ALL_BYTE], 0)
            == s.file_count,
{
    lemma_match_count_all(e.archive_of(s.handle as int).entries@, 0);
}

/// What a bulk enumeration calls for each visited entry. An
/// implementation records each call it receives.
pub trait Visitor {
    /// The (name, size) pairs received so far.
    spec fn model(&self) -> Seq<(Seq<char>, usize)>;

    /// Receive one matched, available entry's name and size.
    fn on_file(&mut self, name: &str, size: usize)
        ensures
            final(self).model() == old(self).model().push((name@, size)),
    ;
}

/// A visitor that keeps every reported (name, size) pair.
pub struct CollectingVisitor {
    /// The pairs received, in order.
    pub items: Vec<(String, usize)>,
}

impl CollectingVisitor {
    /// An empty collector.
    pub fn new() -> (r: Self)
        ensures
            r.model() == Seq::<(Seq<char>, usize)>::empty(),
    {
        let r = CollectingVisitor { items: Vec::new() };
        proof {
            assert(r.model() =~= Seq::<(Seq<char>, usize)>::empty());
        }
        r
    }
}

impl Visitor for CollectingVisitor {
    open spec fn model(&self) -> Seq<(Seq<char>, usize)> {
        self.items@.map_values(|p: (String, usize)| (p.0@, p.1))
    }

    fn on_file(&mut self, name: &str, size: usize) {
        self.items.push((name.to_owned(), size));
        proof {
            assert(self.model() =~= old(self).model().push((name@, size)));
        }
    }
}

/// One open archive handle, with the total entry count read once at open
/// time and never re-queried.
#[derive(Debug)]
pub struct Storage {
    /// The engine storage handle.
    pub handle: usize,
    /// The entry count cached at open time.
    pub file_count: u32,
}

impl Storage {
    /// The handle is still open and the cached count is the archive's
    /// true entry count.
    pub open spec fn wf(self, e: NativeEngine) -> bool {
        &&& e.wf()
        &&& self.handle < e.storages@.len()
        &&& e.storages@[self.handle as int].open
        &&& e.archive_of(self.handle as int).fault == 0
        &&& self.file_count == e.archive_of(self.handle as int).entries@.len()
    }

    /// Query the entry count through the engine's fixed 4-byte info word.
    fn read_file_count(engine: &mut NativeEngine, handle: usize) -> (r: Result<u32, CascError>)
        requires
            old(engine).wf(),
            handle < old(engine).storages@.len(),
            old(engine).storages@[handle as int].open,
        ensures
            final(engine).wf(),
            final(engine).archives == old(engine).archives,
            final(engine).storages == old(engine).storages,
            final(engine).finds == old(engine).finds,
            final(engine).files == old(engine).files,
            final(engine).read_calls == old(engine).read_calls,
            final(engine).find_close_calls == old(engine).find_close_calls,
            r matches Ok(c) ==> old(engine).archive_of(handle as int).fault == 0 && c == old(
                engine,
            ).archive_of(handle as int).entries@.len() && final(engine).last_error == old(
                engine,
            ).last_error,
            r matches Err(e) ==> old(engine).archive_of(handle as int).fault != 0 && e
                == error_from_code(old(engine).archive_of(handle as int).fault),
    {
        match engine.get_storage_file_count(handle) {
            Some(count) => Ok(count),
            None => Err(CascError::from_last_error(engine)),
        }
    }

    /// The cached total entry count. No engine call, so the answer never
    /// changes over the life of the storage.
    pub fn file_count(&self) -> (r: u32)
        ensures
            r == self.file_count,
    {
        self.file_count
    }

    /// A find session over every entry: the match-all pattern.
    pub fn files(&self) -> (r: Find)
        ensures
            r.storage == self.handle,
            r.mask@ == seq![MASK_ALL_BYTE],
    {
        let mut mask: Vec<u8> = Vec::new();
        mask.push(MASK_ALL_BYTE);
        proof {
            assert(mask@ =~= seq![MASK_ALL_BYTE]);
        }
        Find { mask, storage: self.handle }
    }

    /// A find session over the entries `mask` matches. A mask that cannot
    /// be encoded for the engine falls back to matching everything; that
    /// silent widening is this layer's documented behaviour, not an error.
    pub fn files_with_mask(&self, mask: &str) -> (r: Find)
        ensures
            r.storage == self.handle,
            !names::has_nul(mask.spec_bytes()) ==> r.mask@ == mask.spec_bytes(),
            names::has_nul(mask.spec_bytes()) ==> r.mask@ == seq![MASK_ALL_BYTE],
    {
        let bytes = names::encode(mask);
        if names::contains_nul(&bytes) {
            self.files()
        } else {
            Find { mask: bytes, storage: self.handle }
        }
    }

    /// A descriptor for the entry named `name`: pure, non-failing
    /// construction, no engine call.
    pub fn entry(&self, name: &str) -> (r: FileEntry)
        ensures
            r.storage == self.handle,
            r.name@ == name@,
    {
        FileEntry::new(self, name)
    }

    /// Bulk-visit every matched and available entry with its name and
    /// size, returning how many entries were visited.
    ///
    /// A pattern that cannot be encoded silently falls back to matching
    /// everything — documented behaviour of this layer, not an error. An
    /// entry whose data is indexed but not physically present is skipped:
    /// a valid archive state. The walk stops with the invalid-name error
    /// at the first matched, available entry whose name fails to decode;
    /// on that path and on every other, the find handle opened for the
    /// walk is released before returning.
    pub fn enumerate_files<V: Visitor>(
        &self,
        engine: &mut NativeEngine,
        pattern: &str,
        on_file_found: &mut V,
    ) -> (r: Result<usize, CascError>)
        requires
            self.wf(*old(engine)),
        ensures
            final(engine).wf(),
            self.wf(*final(engine)),
            final(engine).archives == old(engine).archives,
            final(engine).storages == old(engine).storages,
            final(engine).files == old(engine).files,
            final(engine).read_calls == old(engine).read_calls,
            // The walk's find handle is not left open: a find handle is
            // open afterwards exactly if it was open before.
            forall|i: int|
                0 <= i < final(engine).finds@.len() ==> ((#[trigger] final(engine).finds@[i]).open <==> (i < old(engine).finds@.len()
                    && old(engine).finds@[i].open)),
            // The visitor saw exactly the visit list, and the count or the
            // invalid-name error reports how the walk ended.
            ({
                let emask = if names::has_nul(pattern.spec_bytes()) {
                    seq![MASK_ALL_BYTE]
                } else {
                    pattern.spec_bytes()
                };
                let es = old(engine).archive_of(self.handle as int).entries@;
                &&& final(on_file_found).model() == old(on_file_found).model() + visits(
                    es,
                    emask,
                    0,
                )
                &&& (r matches Ok(n) ==> n == visits(es, emask, 0).len() && !visit_fails(
                    es,
                    emask,
                    0,
                ))
                &&& (r matches Err(e) ==> e == CascError::InvalidFileName && visit_fails(
                    es,
                    emask,
                    0,
                ))
            }),
    {
        let find = self.files_with_mask(pattern);
        let emask = find.mask;
        let ghost gmask: Seq<u8> = if names::has_nul(pattern.spec_bytes()) {
            seq![MASK_ALL_BYTE]
        } else {
            pattern.spec_bytes()
        };
        proof {
            assert(emask@ == gmask);
        }
        let ghost es = engine.archive_of(self.handle as int).entries@;
        match engine.find_first(self.handle, &emask) {
            FindFirstOutcome::Failed { code } => Err(CascError::Code(code)),
            FindFirstOutcome::NoMore => {
                proof {
                    lemma_visits_step(es, emask@, 0);
                    assert(old(on_file_found).model() + visits(es, emask@, 0) =~= old(
                        on_file_found,
                    ).model());
                }
                Ok(0)
            },
            FindFirstOutcome::Found { handle, item } => {
                let mut current = item;
                let mut visited: usize = 0;
                proof {
                    lemma_visits_step(es, emask@, 0);
                    lemma_first_match_from_range(es, emask@, 0);
                }
                let ghost mut idx: int = match first_match_from(es, emask@, 0) {
                    Some(i) => i,
                    None => 0,
                };
                loop
                    invariant
                        engine.wf(),
                        self.wf(*engine),
                        engine.archives == old(engine).archives,
                        engine.storages == old(engine).storages,
                        engine.files == old(engine).files,
                        engine.read_calls == old(engine).read_calls,
                        engine.find_close_calls == old(engine).find_close_calls,
                        handle == old(engine).finds@.len(),
                        engine.finds@.len() == old(engine).finds@.len() + 1,
                        forall|j: int|
                            0 <= j < old(engine).finds@.len() ==> engine.finds@[j] == old(
                                engine,
                            ).finds@[j],
                        engine.finds@[handle as int].open,
                        engine.finds@[handle as int].storage == self.handle,
                        engine.finds@[handle as int].mask@ == emask@,
                        engine.finds@[handle as int].cursor == idx + 1,
                        emask@ == (if names::has_nul(pattern.spec_bytes()) {
                            seq![MASK_ALL_BYTE]
                        } else {
                            pattern.spec_bytes()
                        }),
                        es == engine.archive_of(self.handle as int).entries@,
                        0 <= idx < es.len(),
                        mask_matches(emask@, es[idx].name@),
                        current.name@ == es[idx].name@,
                        current.size == es[idx].data@.len(),
                        current.available == es[idx].available,
                        old(on_file_found).model() + visits(es, emask@, 0) == on_file_found.model()
                            + visits(es, emask@, idx),
                        visit_fails(es, emask@, 0) == visit_fails(es, emask@, idx),
                        visited <= idx,
                        on_file_found.model().len() == old(on_file_found).model().len() + visited,
                    decreases es.len() - idx,
                {
                    if current.available {
                        match names::decode(&current.name) {
                            Some(name_str) => {
                                proof {
                                    assert(es[idx].data@.len() <= usize::MAX);
                                }
                                on_file_found.on_file(name_str.as_str(), current.size as usize);
                                visited = visited + 1;
                                proof {
                                    assert(visits(es, emask@, idx) == seq![
                                        (decode_utf8(es[idx].name@), es[idx].data@.len() as usize),
                                    ] + visits(es, emask@, idx + 1));
                                    assert(visit_fails(es, emask@, idx) == visit_fails(
                                        es,
                                        emask@,
                                        idx + 1,
                                    ));
                                    assert(old(on_file_found).model() + visits(es, emask@, 0)
                                        =~= on_file_found.model() + visits(es, emask@, idx + 1));
                                }
                            },
                            None => {
                                engine.find_close(handle);
                                proof {
                                    assert(visits(es, emask@, idx) =~= Seq::<
                                        (Seq<char>, usize),
                                    >::empty());
                                    assert(visit_fails(es, emask@, idx));
                                    assert(old(on_file_found).model() + visits(es, emask@, 0)
                                        =~= on_file_found.model());
                                }
                                return Err(CascError::InvalidFileName);
                            },
                        }
                    } else {
                        proof {
                            assert(visits(es, emask@, idx) == visits(es, emask@, idx + 1));
                            assert(visit_fails(es, emask@, idx) == visit_fails(
                                es,
                                emask@,
                                idx + 1,
                            ));
                        }
                    }
                    match engine.find_next(handle) {
                        Some(item2) => {
                            proof {
                                lemma_visits_step(es, emask@, idx + 1);
                                lemma_first_match_from_range(es, emask@, idx + 1);
                            }
                            let ghost ni: int = match first_match_from(es, emask@, idx + 1) {
                                Some(i) => i,
                                None => 0,
                            };
                            current = item2;
                            proof {
                                idx = ni;
                            }
                        },
                        None => {
                            engine.find_close(handle);
                            proof {
                                lemma_visits_step(es, emask@, idx + 1);
                                assert(old(on_file_found).model() + visits(es, emask@, 0)
                                    =~= on_file_found.model());
                            }
                            return Ok(visited);
                        },
                    }
                }
            },
        }
    }

    /// Release the storage handle. Consuming the storage here is what
    /// makes a second release impossible.
    pub fn close(self, engine: &mut NativeEngine)
        requires
            self.wf(*old(engine)),
        ensures
            final(engine).wf(),
            final(engine).archives == old(engine).archives,
            final(engine).finds == old(engine).finds,
            final(engine).files == old(engine).files,
            final(engine).last_error == old(engine).last_error,
            final(engine).read_calls == old(engine).read_calls,
            final(engine).find_close_calls == old(engine).find_close_calls,
            final(engine).storages@ == old(engine).storages@.update(
                self.handle as int,
                (StorageSlot {
                    archive: old(engine).storages@[self.handle as int].archive,
                    open: false,
                }),
            ),
    {
        engine.close_storage(self.handle);
    }
}

/// Open the archive found under `path` and read its entry count.
///
/// A path the engine's C strings cannot carry is refused before any engine
/// call. When the count query fails right after a successful open, the
/// just-opened handle is closed again before the error propagates: on every
/// failure path, no storage handle is left open.
pub fn open(engine: &mut NativeEngine, path: &str) -> (r: Result<Storage, CascError>)
    requires
        old(engine).wf(),
    ensures
        final(engine).wf(),
        final(engine).archives == old(engine).archives,
        final(engine).finds == old(engine).finds,
        final(engine).files == old(engine).files,
        final(engine).read_calls == old(engine).read_calls,
        final(engine).find_close_calls == old(engine).find_close_calls,
        // On failure no storage handle is left allocated: a handle is open
        // afterwards exactly if it was open before.
        r is Err ==> forall|i: int|
            0 <= i < final(engine).storages@.len() ==> ((#[trigger] final(engine).storages@[i]).open <==> (i < old(engine).storages@.len()
                && old(engine).storages@[i].open)),
        // A path with an interior NUL is refused before any engine call.
        names::has_nul(path.spec_bytes()) ==> r == Err::<Storage, CascError>(
            CascError::InvalidPath,
        ) && *final(engine) == *old(engine),
        // No archive under this path: the engine's "not found" error.
        !names::has_nul(path.spec_bytes()) && archive_index_from(
            old(engine).archives@,
            path.spec_bytes(),
            0,
        ) is None ==> r == Err::<Storage, CascError>(CascError::FileNotFound) && final(engine).storages == old(engine).storages,
        // Archive found: the count query decides between a live storage
        // and a mapped engine error.
        !names::has_nul(path.spec_bytes()) ==> (archive_index_from(
            old(engine).archives@,
            path.spec_bytes(),
            0,
        ) matches Some(a) ==> {
            let fault = old(engine).archives@[a].fault;
            if fault == 0 {
                r matches Ok(s) && s.wf(*final(engine)) && s.handle == old(
                    engine,
                ).storages@.len() && s.file_count == old(engine).archives@[a].entries@.len()
                    && final(engine).storages@ == old(engine).storages@.push(
                    (StorageSlot { archive: a as usize, open: true }),
                )
            } else {
                r == Err::<Storage, CascError>(error_from_code(fault)) && final(engine).storages@
                    == old(engine).storages@.push((StorageSlot { archive: a as usize, open: false }))
            }
        }),
{
    let bytes = names::encode(path);
    if names::contains_nul(&bytes) {
        return Err(CascError::InvalidPath);
    }
    match engine.open_storage(bytes.as_slice()) {
        None => Err(CascError::from_last_error(engine)),
        Some(handle) => {
            match Storage::read_file_count(engine, handle) {
                Ok(count) => Ok(Storage { handle, file_count: count }),
                Err(e) => {
                    engine.close_storage(handle);
                    proof {
                        assert(engine.storages@ =~= old(engine).storages@.push(
                            (StorageSlot {
                                archive: engine.storages@[handle as int].archive,
                                open: false,
                            }),
                        ));
                    }
                    Err(e)
                },
            }
        },
    }
}

} // verus!
