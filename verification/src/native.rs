//! A state model of the opaque native archive engine.
//!
//! The engine is the black box that actually understands the on-disk
//! archive format. This module gives it an explicit, verifiable state:
//! archives addressed by path, and three tables of handles (storages, find
//! sessions, file handles), each slot either open or already released. The
//! primitives below mirror the engine's surface one for one: open/close a
//! storage, query the entry count, find-first/find-next/find-close, open and
//! close a file, read, and move the file pointer, plus the sticky
//! last-error word that must be consulted after calls whose success and
//! end-of-data signals coincide.
//!
//! Handles are indices into the tables; a slot is never reused, so "released
//! exactly once" is the statement that a slot's `open` flag goes from `true`
//! to `false` at most once, which every close primitive's contract enforces.

use vstd::prelude::*;

verus! {

/// The engine reports no failure.
pub const ERROR_SUCCESS: u32 = 0;

/// The engine's "no such entry / no such archive" code.
pub const ERROR_FILE_NOT_FOUND: u32 = 2;

/// The engine's "bad argument" code, reported for unreachable seek targets.
pub const ERROR_INVALID_PARAMETER: u32 = 22;

/// The engine's "enumeration exhausted" signal. Explicitly not an error:
/// it is how find-first and find-next say the match set is empty or done.
pub const ERROR_NO_MORE_FILES: u32 = 1004;

/// The glyph that makes a pattern match every entry name: `*` (ASCII 42).
pub const MASK_ALL_BYTE: u8 = 42;

/// Seek origin: from the start of the file.
pub const SEEK_ORIGIN_BEGIN: u32 = 0;

/// Seek origin: from the current position.
pub const SEEK_ORIGIN_CURRENT: u32 = 1;

/// Seek origin: from the end of the file.
pub const SEEK_ORIGIN_END: u32 = 2;

/// One named entry inside an archive.
pub struct EntryData {
    /// The archive-internal logical name, as the engine reports it.
    pub name: Vec<u8>,
    /// The entry's content.
    pub data: Vec<u8>,
    /// Whether the content is physically present. An indexed-but-absent
    /// entry is a valid archive state, not an error.
    pub available: bool,
    /// Nonzero: every read call on this entry fails with this code.
    pub read_fault: u32,
}

/// One archive the engine can open, addressed by path.
pub struct Archive {
    /// The platform-encoded path under which the archive is found.
    pub path: Vec<u8>,
    /// Nonzero: storage-info and find-first calls on this archive fail
    /// with this code.
    pub fault: u32,
    /// The entries, in the order the engine enumerates them.
    pub entries: Vec<EntryData>,
}

/// A storage-handle slot.
#[derive(Clone, Copy)]
pub struct StorageSlot {
    /// Index of the archive this handle is open on.
    pub archive: usize,
    /// False once the handle has been released.
    pub open: bool,
}

/// A find-session-handle slot.
pub struct FindSlot {
    /// The storage handle the session enumerates under.
    pub storage: usize,
    /// The session's name pattern.
    pub mask: Vec<u8>,
    /// The entry index the next find-next call scans from.
    pub cursor: usize,
    /// False once the handle has been released.
    pub open: bool,
}

/// A file-handle slot.
#[derive(Clone, Copy)]
pub struct FileSlot {
    /// The storage handle the file was opened under.
    pub storage: usize,
    /// The index of the entry this handle reads.
    pub entry: usize,
    /// The current read position.
    pub pos: u64,
    /// False once the handle has been released.
    pub open: bool,
}

/// The whole engine state.
pub struct NativeEngine {
    /// The archives reachable by path.
    pub archives: Vec<Archive>,
    /// Storage handles ever issued; a handle is the slot index.
    pub storages: Vec<StorageSlot>,
    /// Find-session handles ever issued.
    pub finds: Vec<FindSlot>,
    /// File handles ever issued.
    pub files: Vec<FileSlot>,
    /// The sticky last-error word.
    pub last_error: u32,
    /// How many read calls have been made (saturating).
    pub read_calls: u64,
    /// How many find handles have been released; equals the number of
    /// closed find slots.
    pub find_close_calls: u64,
}

/// Does `mask` match the entry name `name`? The engine's pattern language
/// as modelled here: the single glyph `*` matches everything, and any other
/// mask matches exactly the name it spells.
pub open spec fn mask_matches(mask: Seq<u8>, name: Seq<u8>) -> bool {
    mask == seq![MASK_ALL_BYTE] || mask == name
}

/// The first entry index at or after `start` whose name `mask` matches.
pub open spec fn first_match_from(entries: Seq<EntryData>, mask: Seq<u8>, start: int) -> Option<int>
    decreases entries.len() - start,
{
    if start < 0 || start >= entries.len() {
        None
    } else if mask_matches(mask, entries[start].name@) {
        Some(start)
    } else {
        first_match_from(entries, mask, start + 1)
    }
}

/// The first entry index at or after `start` whose name is exactly `name`.
pub open spec fn entry_index_from(entries: Seq<EntryData>, name: Seq<u8>, start: int) -> Option<int>
    decreases entries.len() - start,
{
    if start < 0 || start >= entries.len() {
        None
    } else if entries[start].name@ == name {
        Some(start)
    } else {
        entry_index_from(entries, name, start + 1)
    }
}

/// The first archive index whose path is `path`.
pub open spec fn archive_index_from(archives: Seq<Archive>, path: Seq<u8>, start: int) -> Option<int>
    decreases archives.len() - start,
{
    if start < 0 || start >= archives.len() {
        None
    } else if archives[start].path@ == path {
        Some(start)
    } else {
        archive_index_from(archives, path, start + 1)
    }
}

/// How many find slots have been released.
pub open spec fn closed_find_count(finds: Seq<FindSlot>) -> int
    decreases finds.len(),
{
    if finds.len() == 0 {
        0
    } else {
        closed_find_count(finds.drop_last()) + if finds.last().open { 0int } else { 1int }
    }
}

/// A saturating counter step.
pub open spec fn bump(c: u64) -> u64 {
    if c < u64::MAX {
        (c + 1) as u64
    } else {
        c
    }
}

/// How many bytes a read call of `max_len` delivers at position `pos` of a
/// file `data_len` bytes long: the rest of the file, capped at `max_len`,
/// and nothing past the end.
pub open spec fn read_amount(data_len: int, pos: int, max_len: int) -> int {
    if pos >= data_len {
        0
    } else if data_len - pos < max_len {
        data_len - pos
    } else {
        max_len
    }
}

/// The bytes that read call delivers.
pub open spec fn read_window(data: Seq<u8>, pos: int, max_len: int) -> Seq<u8> {
    if pos >= data.len() {
        Seq::empty()
    } else {
        data.subrange(pos, pos + read_amount(data.len() as int, pos, max_len))
    }
}

proof fn lemma_closed_find_count_push(s: Seq<FindSlot>, v: FindSlot)
    ensures
        closed_find_count(s.push(v)) == closed_find_count(s) + if v.open {
            0int
        } else {
            1int
        },
{
    assert(s.push(v).drop_last() =~= s);
    assert(s.push(v).last() == v);
}

proof fn lemma_closed_find_count_update(s: Seq<FindSlot>, h: int, v: FindSlot)
    requires
        0 <= h < s.len(),
    ensures
        closed_find_count(s.update(h, v)) == closed_find_count(s) - (if s[h].open {
            0int
        } else {
            1int
        }) + (if v.open {
            0int
        } else {
            1int
        }),
    decreases s.len(),
{
    if h == s.len() - 1 {
        assert(s.update(h, v).drop_last() =~= s.drop_last());
        assert(s.update(h, v).last() == v);
    } else {
        assert(s.update(h, v).drop_last() =~= s.drop_last().update(h, v));
        assert(s.update(h, v).last() == s.last());
        lemma_closed_find_count_update(s.drop_last(), h, v);
    }
}

proof fn lemma_closed_find_count_le_len(s: Seq<FindSlot>)
    ensures
        0 <= closed_find_count(s) <= s.len(),
    decreases s.len(),
{
    if s.len() > 0 {
        lemma_closed_find_count_le_len(s.drop_last());
    }
}

/// A found index lies between the scan start and the end of the table.
pub proof fn lemma_archive_index_from_range(archives: Seq<Archive>, path: Seq<u8>, start: int)
    ensures
        archive_index_from(archives, path, start) matches Some(i) ==> 0 <= start <= i
            < archives.len(),
    decreases archives.len() - start,
{
    if 0 <= start < archives.len() && archives[start].path@ != path {
        lemma_archive_index_from_range(archives, path, start + 1);
    }
}

/// A found index lies between the scan start and the end of the table.
pub proof fn lemma_entry_index_from_range(entries: Seq<EntryData>, name: Seq<u8>, start: int)
    ensures
        entry_index_from(entries, name, start) matches Some(i) ==> 0 <= start <= i < entries.len(),
    decreases entries.len() - start,
{
    if 0 <= start < entries.len() && entries[start].name@ != name {
        lemma_entry_index_from_range(entries, name, start + 1);
    }
}

/// A found index lies between the scan start and the end of the table,
/// and the entry there is one the mask matches.
pub proof fn lemma_first_match_from_range(entries: Seq<EntryData>, mask: Seq<u8>, start: int)
    ensures
        first_match_from(entries, mask, start) matches Some(i) ==> 0 <= start <= i < entries.len()
            && mask_matches(mask, entries[i].name@),
    decreases entries.len() - start,
{
    if 0 <= start < entries.len() && !mask_matches(mask, entries[start].name@) {
        lemma_first_match_from_range(entries, mask, start + 1);
    }
}

/// One yielded enumeration entry, as the engine reports it.
pub struct FindItem {
    /// The entry's archive-internal name.
    pub name: Vec<u8>,
    /// The entry's size in bytes.
    pub size: u64,
    /// Whether the entry's content is physically present.
    pub available: bool,
}

/// What a find-first call comes back with.
pub enum FindFirstOutcome {
    /// A session handle was issued and the first match is at hand.
    Found { handle: usize, item: FindItem },
    /// Nothing matches; no session handle was issued.
    NoMore,
    /// The call failed; no session handle was issued.
    Failed { code: u32 },
}

impl NativeEngine {
    /// The archive a storage handle is open on.
    pub open spec fn archive_of(self, storage: int) -> Archive {
        self.archives@[self.storages@[storage].archive as int]
    }

    /// The entry a file handle reads.
    pub open spec fn entry_of(self, file: int) -> EntryData {
        self.archive_of(self.files@[file].storage as int).entries@[self.files@[file].entry as int]
    }

    /// Well-formedness: every slot's indices stay inside the tables, entry
    /// counts fit the engine's 32-bit count word, and the find-close
    /// counter agrees with the number of released find slots.
    pub open spec fn wf(self) -> bool {
        &&& forall|i: int|
            0 <= i < self.storages@.len() ==> (#[trigger] self.storages@[i]).archive
                < self.archives@.len()
        &&& forall|i: int|
            0 <= i < self.finds@.len() ==> (#[trigger] self.finds@[i]).storage
                < self.storages@.len()
        &&& forall|i: int|
            0 <= i < self.files@.len() ==> (#[trigger] self.files@[i]).storage
                < self.storages@.len()
        &&& forall|i: int|
            0 <= i < self.files@.len() ==> (#[trigger] self.files@[i]).entry < self.archive_of(
                self.files@[i].storage as int,
            ).entries@.len()
        &&& forall|i: int|
            0 <= i < self.archives@.len() ==> (#[trigger] self.archives@[i]).entries@.len()
                <= u32::MAX
        &&& forall|i: int, j: int|
            0 <= i < self.archives@.len() && 0 <= j < self.archives@[i].entries@.len() ==> (
            #[trigger] self.archives@[i].entries@[j]).data@.len() <= usize::MAX
        &&& self.find_close_calls == closed_find_count(self.finds@)
    }

    /// A fresh engine with the given archives and no handles issued.
    pub fn with_archives(archives: Vec<Archive>) -> (r: Self)
        requires
            forall|i: int|
                0 <= i < archives@.len() ==> (#[trigger] archives@[i]).entries@.len() <= u32::MAX,
            forall|i: int, j: int|
                0 <= i < archives@.len() && 0 <= j < archives@[i].entries@.len() ==> (
                #[trigger] archives@[i].entries@[j]).data@.len() <= usize::MAX,
        ensures
            r.wf(),
            r.archives == archives,
            r.storages@.len() == 0,
            r.finds@.len() == 0,
            r.files@.len() == 0,
            r.last_error == ERROR_SUCCESS,
            r.read_calls == 0,
            r.find_close_calls == 0,
    {
        NativeEngine {
            archives,
            storages: Vec::new(),
            finds: Vec::new(),
            files: Vec::new(),
            last_error: ERROR_SUCCESS,
            read_calls: 0,
            find_close_calls: 0,
        }
    }

    /// Read the sticky last-error word.
    pub fn get_last_error(&self) -> (r: u32)
        ensures
            r == self.last_error,
    {
        self.last_error
    }

    /// Overwrite the sticky last-error word.
    pub fn set_last_error(&mut self, code: u32)
        ensures
            *final(self) == (NativeEngine { last_error: code, ..*old(self) }),
    {
        self.last_error = code;
    }
}

/// Byte-for-byte equality of two byte strings.
pub fn bytes_eq(a: &[u8], b: &[u8]) -> (r: bool)
    ensures
        r <==> a@ == b@,
{
    if a.len() != b.len() {
        return false;
    }
    let mut i: usize = 0;
    while i < a.len()
        invariant
            i <= a@.len(),
            a@.len() == b@.len(),
            forall|j: int| 0 <= j < i ==> a@[j] == b@[j],
        decreases a@.len() - i,
    {
        if a[i] != b[i] {
            return false;
        }
        i = i + 1;
    }
    proof {
        assert(a@ =~= b@);
    }
    true
}

/// Scan `entries` from `start` for the first name that `mask` matches.
fn scan_for_mask(entries: &Vec<EntryData>, mask: &Vec<u8>, start: usize) -> (r: Option<usize>)
    ensures
        r matches Some(i) ==> start <= i < entries@.len() && first_match_from(
            entries@,
            mask@,
            start as int,
        ) == Some(i as int),
        r is None ==> first_match_from(entries@, mask@, start as int) is None,
{
    if start >= entries.len() {
        proof {
            assert(first_match_from(entries@, mask@, start as int) is None);
        }
        return None;
    }
    let star: bool = mask.len() == 1 && mask[0] == MASK_ALL_BYTE;
    proof {
        if star {
            assert(mask@ =~= seq![MASK_ALL_BYTE]);
        }
    }
    let mut i: usize = start;
    while i < entries.len()
        invariant
            start <= i <= entries@.len(),
            star <==> mask@ == seq![MASK_ALL_BYTE],
            first_match_from(entries@, mask@, start as int) == first_match_from(
                entries@,
                mask@,
                i as int,
            ),
        decreases entries@.len() - i,
    {
        let hit = star || bytes_eq(entries[i].name.as_slice(), mask.as_slice());
        if hit {
            proof {
                assert(first_match_from(entries@, mask@, i as int) == Some(i as int));
            }
            return Some(i);
        }
        proof {
            assert(first_match_from(entries@, mask@, i as int) == first_match_from(
                entries@,
                mask@,
                i as int + 1,
            ));
        }
        i = i + 1;
    }
    proof {
        assert(first_match_from(entries@, mask@, i as int) is None);
    }
    None
}

/// Scan `entries` for the first one named exactly `name`.
fn scan_for_name(entries: &Vec<EntryData>, name: &Vec<u8>) -> (r: Option<usize>)
    ensures
        r matches Some(i) ==> 0 <= i < entries@.len() && entry_index_from(entries@, name@, 0)
            == Some(i as int),
        r is None ==> entry_index_from(entries@, name@, 0) is None,
{
    let mut i: usize = 0;
    while i < entries.len()
        invariant
            i <= entries@.len(),
            entry_index_from(entries@, name@, 0) == entry_index_from(entries@, name@, i as int),
        decreases entries@.len() - i,
    {
        if bytes_eq(entries[i].name.as_slice(), name.as_slice()) {
            proof {
                assert(entry_index_from(entries@, name@, i as int) == Some(i as int));
            }
            return Some(i);
        }
        proof {
            assert(entry_index_from(entries@, name@, i as int) == entry_index_from(
                entries@,
                name@,
                i as int + 1,
            ));
        }
        i = i + 1;
    }
    proof {
        assert(entry_index_from(entries@, name@, i as int) is None);
    }
    None
}

impl NativeEngine {
    /// Open a storage by platform-encoded path. On success a fresh storage
    /// handle is issued; on failure nothing is allocated and the sticky
    /// error is set to the "not found" code.
    pub fn open_storage(&mut self, path: &[u8]) -> (r: Option<usize>)
        requires
            old(self).wf(),
        ensures
            final(self).wf(),
            final(self).archives == old(self).archives,
            final(self).finds == old(self).finds,
            final(self).files == old(self).files,
            final(self).read_calls == old(self).read_calls,
            final(self).find_close_calls == old(self).find_close_calls,
            r matches Some(h) ==> (archive_index_from(old(self).archives@, path@, 0) matches Some(
                a,
            ) && 0 <= a <= usize::MAX as int && final(self).storages@ == old(self).storages@.push(
                (StorageSlot { archive: a as usize, open: true }),
            ) && h == old(self).storages@.len() && final(self).last_error == old(self).last_error),
            r is None ==> archive_index_from(old(self).archives@, path@, 0) is None && final(self).storages == old(self).storages && final(self).last_error == ERROR_FILE_NOT_FOUND,
    {
        let mut i: usize = 0;
        while i < self.archives.len()
            invariant
                *self == *old(self),
                old(self).wf(),
                i <= self.archives@.len(),
                archive_index_from(self.archives@, path@, 0) == archive_index_from(
                    self.archives@,
                    path@,
                    i as int,
                ),
            decreases self.archives@.len() - i,
        {
            if bytes_eq(self.archives[i].path.as_slice(), path) {
                proof {
                    assert(archive_index_from(self.archives@, path@, i as int) == Some(i as int));
                }
                let h = self.storages.len();
                self.storages.push(StorageSlot { archive: i, open: true });
                return Some(h);
            }
            proof {
                assert(archive_index_from(self.archives@, path@, i as int) == archive_index_from(
                    self.archives@,
                    path@,
                    i as int + 1,
                ));
            }
            i = i + 1;
        }
        proof {
            assert(archive_index_from(self.archives@, path@, i as int) is None);
        }
        self.last_error = ERROR_FILE_NOT_FOUND;
        None
    }

    /// Release a storage handle. The handle must still be open: a handle is
    /// released at most once.
    pub fn close_storage(&mut self, h: usize)
        requires
            old(self).wf(),
            h < old(self).storages@.len(),
            old(self).storages@[h as int].open,
        ensures
            final(self).wf(),
            final(self).storages@ == old(self).storages@.update(
                h as int,
                (StorageSlot { archive: old(self).storages@[h as int].archive, open: false }),
            ),
            final(self).archives == old(self).archives,
            final(self).finds == old(self).finds,
            final(self).files == old(self).files,
            final(self).last_error == old(self).last_error,
            final(self).read_calls == old(self).read_calls,
            final(self).find_close_calls == old(self).find_close_calls,
    {
        let archive = self.storages[h].archive;
        self.storages.set(h, StorageSlot { archive, open: false });
    }

    /// Query the total entry count of an open storage, a 32-bit word.
    pub fn get_storage_file_count(&mut self, h: usize) -> (r: Option<u32>)
        requires
            old(self).wf(),
            h < old(self).storages@.len(),
            old(self).storages@[h as int].open,
        ensures
            final(self).wf(),
            final(self).archives == old(self).archives,
            final(self).storages == old(self).storages,
            final(self).finds == old(self).finds,
            final(self).files == old(self).files,
            final(self).read_calls == old(self).read_calls,
            final(self).find_close_calls == old(self).find_close_calls,
            r matches Some(c) ==> old(self).archive_of(h as int).fault == 0 && c == old(
                self,
            ).archive_of(h as int).entries@.len() && final(self).last_error == old(
                self,
            ).last_error,
            r is None ==> old(self).archive_of(h as int).fault != 0 && final(self).last_error
                == old(self).archive_of(h as int).fault,
    {
        let archive = self.storages[h].archive;
        let fault = self.archives[archive].fault;
        if fault != 0 {
            self.last_error = fault;
            None
        } else {
            Some(self.archives[archive].entries.len() as u32)
        }
    }

    /// Begin an enumeration under an open storage. A session handle is
    /// issued only when a first match exists; an empty match set is the
    /// "no more files" signal, not an error.
    pub fn find_first(&mut self, storage: usize, mask: &Vec<u8>) -> (r: FindFirstOutcome)
        requires
            old(self).wf(),
            storage < old(self).storages@.len(),
            old(self).storages@[storage as int].open,
        ensures
            final(self).wf(),
            final(self).archives == old(self).archives,
            final(self).storages == old(self).storages,
            final(self).files == old(self).files,
            final(self).read_calls == old(self).read_calls,
            final(self).find_close_calls == old(self).find_close_calls,
            r matches FindFirstOutcome::Failed { code } ==> old(self).archive_of(
                storage as int,
            ).fault == code && code != 0 && final(self).finds == old(self).finds && final(self).last_error == code,
            r is NoMore ==> old(self).archive_of(storage as int).fault == 0 && first_match_from(
                old(self).archive_of(storage as int).entries@,
                mask@,
                0,
            ) is None && final(self).finds == old(self).finds && final(self).last_error
                == ERROR_NO_MORE_FILES,
            r matches FindFirstOutcome::Found { handle, item } ==> (first_match_from(
                old(self).archive_of(storage as int).entries@,
                mask@,
                0,
            ) matches Some(i) && 0 <= i < old(self).archive_of(storage as int).entries@.len() && i
                + 1 <= usize::MAX as int && old(self).archive_of(storage as int).fault == 0
                && handle == old(
                self,
            ).finds@.len() && final(self).finds@ == old(self).finds@.push(final(self).finds@.last())
                && final(self).finds@.last().storage == storage && final(self).finds@.last().mask@
                == mask@ && final(self).finds@.last().cursor == i + 1
                && final(self).finds@.last().open && item.name@ == old(self).archive_of(
                storage as int,
            ).entries@[i].name@ && item.size == old(self).archive_of(
                storage as int,
            ).entries@[i].data@.len() && item.available == old(self).archive_of(
                storage as int,
            ).entries@[i].available && final(self).last_error == old(self).last_error),
    {
        let archive = self.storages[storage].archive;
        let fault = self.archives[archive].fault;
        if fault != 0 {
            self.last_error = fault;
            return FindFirstOutcome::Failed { code: fault };
        }
        match scan_for_mask(&self.archives[archive].entries, mask, 0) {
            None => {
                self.last_error = ERROR_NO_MORE_FILES;
                FindFirstOutcome::NoMore
            },
            Some(i) => {
                let entry = &self.archives[archive].entries[i];
                let item = FindItem {
                    name: clone_bytes(&entry.name),
                    size: entry.data.len() as u64,
                    available: entry.available,
                };
                let handle = self.finds.len();
                let slot = FindSlot {
                    storage,
                    mask: clone_bytes(mask),
                    cursor: i + 1,
                    open: true,
                };
                proof {
                    lemma_closed_find_count_push(self.finds@, slot);
                }
                self.finds.push(slot);
                FindFirstOutcome::Found { handle, item }
            },
        }
    }

    /// Advance an open enumeration session whose storage is still open.
    /// `None` is exhaustion, never an error.
    pub fn find_next(&mut self, h: usize) -> (r: Option<FindItem>)
        requires
            old(self).wf(),
            h < old(self).finds@.len(),
            old(self).finds@[h as int].open,
            old(self).storages@[old(self).finds@[h as int].storage as int].open,
        ensures
            final(self).wf(),
            final(self).archives == old(self).archives,
            final(self).storages == old(self).storages,
            final(self).files == old(self).files,
            final(self).read_calls == old(self).read_calls,
            final(self).find_close_calls == old(self).find_close_calls,
            r matches Some(item) ==> (first_match_from(
                old(self).archive_of(old(self).finds@[h as int].storage as int).entries@,
                old(self).finds@[h as int].mask@,
                old(self).finds@[h as int].cursor as int,
            ) matches Some(i) && 0 <= i < old(self).archive_of(
                old(self).finds@[h as int].storage as int,
            ).entries@.len() && i + 1 <= usize::MAX as int && final(self).finds@ == old(
                self,
            ).finds@.update(
                h as int,
                final(self).finds@[h as int],
            ) && final(self).finds@[h as int].storage == old(self).finds@[h as int].storage && final(self).finds@[h as int].mask@ == old(self).finds@[h as int].mask@ && final(self).finds@[h as int].cursor == i + 1 && final(self).finds@[h as int].open && item.name@
                == old(self).archive_of(
                old(self).finds@[h as int].storage as int,
            ).entries@[i].name@ && item.size == old(self).archive_of(
                old(self).finds@[h as int].storage as int,
            ).entries@[i].data@.len() && item.available == old(self).archive_of(
                old(self).finds@[h as int].storage as int,
            ).entries@[i].available && final(self).last_error == old(self).last_error),
            r is None ==> first_match_from(
                old(self).archive_of(old(self).finds@[h as int].storage as int).entries@,
                old(self).finds@[h as int].mask@,
                old(self).finds@[h as int].cursor as int,
            ) is None && final(self).finds == old(self).finds && final(self).last_error
                == ERROR_NO_MORE_FILES,
    {
        let storage = self.finds[h].storage;
        let archive = self.storages[storage].archive;
        let cursor = self.finds[h].cursor;
        let found = scan_for_mask(&self.archives[archive].entries, &self.finds[h].mask, cursor);
        match found {
            None => {
                self.last_error = ERROR_NO_MORE_FILES;
                None
            },
            Some(i) => {
                let entry = &self.archives[archive].entries[i];
                let item = FindItem {
                    name: clone_bytes(&entry.name),
                    size: entry.data.len() as u64,
                    available: entry.available,
                };
                let mask = clone_bytes(&self.finds[h].mask);
                let slot = FindSlot { storage, mask, cursor: i + 1, open: true };
                proof {
                    lemma_closed_find_count_update(self.finds@, h as int, slot);
                }
                self.finds.set(h, slot);
                proof {
                    assert(final(self).finds@ =~= old(self).finds@.update(
                        h as int,
                        final(self).finds@[h as int],
                    ));
                }
                Some(item)
            },
        }
    }

    /// Release a find-session handle. The handle must still be open: a
    /// handle is released at most once. The release counter records it.
    pub fn find_close(&mut self, h: usize)
        requires
            old(self).wf(),
            h < old(self).finds@.len(),
            old(self).finds@[h as int].open,
        ensures
            final(self).wf(),
            final(self).archives == old(self).archives,
            final(self).storages == old(self).storages,
            final(self).files == old(self).files,
            final(self).read_calls == old(self).read_calls,
            final(self).last_error == old(self).last_error,
            final(self).finds@ == old(self).finds@.update(h as int, final(self).finds@[h as int]),
            final(self).finds@[h as int].storage == old(self).finds@[h as int].storage,
            final(self).finds@[h as int].mask@ == old(self).finds@[h as int].mask@,
            final(self).finds@[h as int].cursor == old(self).finds@[h as int].cursor,
            !final(self).finds@[h as int].open,
            final(self).find_close_calls == old(self).find_close_calls + 1,
    {
        let issued: usize = self.finds.len();
        let storage = self.finds[h].storage;
        let cursor = self.finds[h].cursor;
        let mask = clone_bytes(&self.finds[h].mask);
        let slot = FindSlot { storage, mask, cursor, open: false };
        proof {
            lemma_closed_find_count_update(self.finds@, h as int, slot);
            lemma_closed_find_count_le_len(self.finds@.update(h as int, slot));
            assert(closed_find_count(self.finds@.update(h as int, slot)) <= issued);
        }
        self.finds.set(h, slot);
        self.find_close_calls = self.find_close_calls + 1;
        proof {
            assert(final(self).finds@ =~= old(self).finds@.update(
                h as int,
                final(self).finds@[h as int],
            ));
        }
    }

    /// Open the entry named `name` under an open storage. Fails with the
    /// "not found" code when no entry has that name or its content is not
    /// physically present; on failure nothing is allocated.
    pub fn open_file(&mut self, storage: usize, name: &Vec<u8>) -> (r: Option<usize>)
        requires
            old(self).wf(),
            storage < old(self).storages@.len(),
            old(self).storages@[storage as int].open,
        ensures
            final(self).wf(),
            final(self).archives == old(self).archives,
            final(self).storages == old(self).storages,
            final(self).finds == old(self).finds,
            final(self).read_calls == old(self).read_calls,
            final(self).find_close_calls == old(self).find_close_calls,
            r matches Some(h) ==> (entry_index_from(
                old(self).archive_of(storage as int).entries@,
                name@,
                0,
            ) matches Some(i) && 0 <= i <= usize::MAX as int && old(self).archive_of(
                storage as int,
            ).entries@[i].available && final(self).files@ == old(self).files@.push(
                (FileSlot { storage, entry: i as usize, pos: 0, open: true }),
            ) && h == old(self).files@.len() && final(self).last_error == old(self).last_error),
            r is None ==> (entry_index_from(old(self).archive_of(storage as int).entries@, name@, 0)
                is None || !old(self).archive_of(storage as int).entries@[entry_index_from(
                old(self).archive_of(storage as int).entries@,
                name@,
                0,
            ).unwrap()].available) && final(self).files == old(self).files && final(self).last_error
                == ERROR_FILE_NOT_FOUND,
    {
        let archive = self.storages[storage].archive;
        match scan_for_name(&self.archives[archive].entries, name) {
            None => {
                self.last_error = ERROR_FILE_NOT_FOUND;
                None
            },
            Some(i) => {
                if self.archives[archive].entries[i].available {
                    let h = self.files.len();
                    self.files.push(FileSlot { storage, entry: i, pos: 0, open: true });
                    Some(h)
                } else {
                    self.last_error = ERROR_FILE_NOT_FOUND;
                    None
                }
            },
        }
    }

    /// Release a file handle. The handle must still be open: a handle is
    /// released at most once.
    pub fn close_file(&mut self, h: usize)
        requires
            old(self).wf(),
            h < old(self).files@.len(),
            old(self).files@[h as int].open,
        ensures
            final(self).wf(),
            final(self).files@ == old(self).files@.update(
                h as int,
                (FileSlot { open: false, ..old(self).files@[h as int] }),
            ),
            final(self).archives == old(self).archives,
            final(self).storages == old(self).storages,
            final(self).finds == old(self).finds,
            final(self).last_error == old(self).last_error,
            final(self).read_calls == old(self).read_calls,
            final(self).find_close_calls == old(self).find_close_calls,
    {
        let slot = self.files[h];
        self.files.set(h, FileSlot { open: false, ..slot });
    }

    /// The size of an open file, split into its low and high 32-bit words.
    pub fn get_file_size(&self, h: usize) -> (r: (u32, u32))
        requires
            self.wf(),
            h < self.files@.len(),
            self.files@[h as int].open,
            self.storages@[self.files@[h as int].storage as int].open,
        ensures
            r.0 as int + r.1 as int * 0x1_0000_0000 == self.entry_of(h as int).data@.len(),
    {
        let slot = self.files[h];
        let archive = self.storages[slot.storage].archive;
        let len: u64 = self.archives[archive].entries[slot.entry].data.len() as u64;
        let low: u32 = (len % 0x1_0000_0000) as u32;
        let high: u32 = (len / 0x1_0000_0000) as u32;
        (low, high)
    }

    /// Read up to `max_len` bytes from the current position of an open
    /// file. Short reads at the end of the data are normal; `None` is a
    /// genuine failure, which sets the sticky error. Every call is counted.
    pub fn read_file(&mut self, h: usize, max_len: u32) -> (r: Option<Vec<u8>>)
        requires
            old(self).wf(),
            h < old(self).files@.len(),
            old(self).files@[h as int].open,
            old(self).storages@[old(self).files@[h as int].storage as int].open,
        ensures
            final(self).wf(),
            final(self).archives == old(self).archives,
            final(self).storages == old(self).storages,
            final(self).finds == old(self).finds,
            final(self).find_close_calls == old(self).find_close_calls,
            final(self).read_calls == bump(old(self).read_calls),
            r is None ==> old(self).entry_of(h as int).read_fault != 0 && final(self).last_error
                == old(self).entry_of(h as int).read_fault && final(self).files == old(self).files,
            r matches Some(v) ==> old(self).entry_of(h as int).read_fault == 0 && v@ == read_window(
                old(self).entry_of(h as int).data@,
                old(self).files@[h as int].pos as int,
                max_len as int,
            ) && final(self).files@ == old(self).files@.update(
                h as int,
                (FileSlot {
                    pos: (old(self).files@[h as int].pos + read_amount(
                        old(self).entry_of(h as int).data@.len() as int,
                        old(self).files@[h as int].pos as int,
                        max_len as int,
                    )) as u64,
                    ..old(self).files@[h as int]
                }),
            ) && final(self).last_error == old(self).last_error,
    {
        self.read_calls = if self.read_calls < u64::MAX {
            self.read_calls + 1
        } else {
            self.read_calls
        };
        let slot = self.files[h];
        let archive = self.storages[slot.storage].archive;
        let entry = &self.archives[archive].entries[slot.entry];
        if entry.read_fault != 0 {
            let fault = entry.read_fault;
            self.last_error = fault;
            return None;
        }
        let len: usize = entry.data.len();
        let amount: usize = if slot.pos >= len as u64 {
            0
        } else {
            let rest: usize = len - slot.pos as usize;
            if rest < max_len as usize {
                rest
            } else {
                max_len as usize
            }
        };
        let base: usize = if slot.pos >= len as u64 {
            0
        } else {
            slot.pos as usize
        };
        let mut out: Vec<u8> = Vec::new();
        let mut j: usize = 0;
        while j < amount
            invariant
                j <= amount,
                base + amount <= len,
                len == entry.data@.len(),
                out@ == entry.data@.subrange(base as int, base as int + j as int),
            decreases amount - j,
        {
            out.push(entry.data[base + j]);
            proof {
                assert(out@ =~= entry.data@.subrange(base as int, base as int + j as int + 1));
            }
            j = j + 1;
        }
        proof {
            assert(out@ =~= read_window(
                self.entry_of(h as int).data@,
                self.files@[h as int].pos as int,
                max_len as int,
            ));
        }
        self.files.set(h, FileSlot { pos: slot.pos + amount as u64, ..slot });
        Some(out)
    }

    /// The absolute position a seek resolves to: the origin's base plus
    /// the offset.
    pub open spec fn seek_base(self, h: int, origin: u32) -> int {
        if origin == SEEK_ORIGIN_BEGIN {
            0
        } else if origin == SEEK_ORIGIN_CURRENT {
            self.files@[h].pos as int
        } else {
            self.entry_of(h).data@.len() as int
        }
    }

    /// Move the file pointer of an open file. A target outside the
    /// unsigned 64-bit range is refused with the "bad argument" code and
    /// leaves the position alone; seeking past the end is allowed.
    pub fn set_file_pointer(&mut self, h: usize, offset: i64, origin: u32) -> (r: Option<u64>)
        requires
            old(self).wf(),
            h < old(self).files@.len(),
            old(self).files@[h as int].open,
            old(self).storages@[old(self).files@[h as int].storage as int].open,
            origin == SEEK_ORIGIN_BEGIN || origin == SEEK_ORIGIN_CURRENT || origin
                == SEEK_ORIGIN_END,
        ensures
            final(self).wf(),
            final(self).archives == old(self).archives,
            final(self).storages == old(self).storages,
            final(self).finds == old(self).finds,
            final(self).read_calls == old(self).read_calls,
            final(self).find_close_calls == old(self).find_close_calls,
            r matches Some(p) ==> 0 <= old(self).seek_base(h as int, origin) + offset
                <= u64::MAX && p == old(self).seek_base(h as int, origin) + offset && final(self).files@ == old(self).files@.update(
                h as int,
                (FileSlot { pos: p, ..old(self).files@[h as int] }),
            ) && final(self).last_error == old(self).last_error,
            r is None ==> (old(self).seek_base(h as int, origin) + offset < 0 || old(self).seek_base(
                h as int,
                origin,
            ) + offset > u64::MAX) && final(self).files == old(self).files && final(self).last_error
                == ERROR_INVALID_PARAMETER,
    {
        let slot = self.files[h];
        let archive = self.storages[slot.storage].archive;
        let base: u64 = if origin == SEEK_ORIGIN_BEGIN {
            0
        } else if origin == SEEK_ORIGIN_CURRENT {
            slot.pos
        } else {
            self.archives[archive].entries[slot.entry].data.len() as u64
        };
        let target: i128 = base as i128 + offset as i128;
        if target < 0 || target > u64::MAX as i128 {
            self.last_error = ERROR_INVALID_PARAMETER;
            None
        } else {
            let p: u64 = target as u64;
            self.files.set(h, FileSlot { pos: p, ..slot });
            Some(p)
        }
    }
}

/// A plain copy of a byte string.
pub fn clone_bytes(v: &Vec<u8>) -> (r: Vec<u8>)
    ensures
        r@ == v@,
{
    let mut out: Vec<u8> = Vec::new();
    let mut i: usize = 0;
    while i < v.len()
        invariant
            i <= v@.len(),
            out@ == v@.subrange(0, i as int),
        decreases v@.len() - i,
    {
        out.push(v[i]);
        proof {
            assert(out@ =~= v@.subrange(0, i as int + 1));
        }
        i = i + 1;
    }
    proof {
        assert(out@ =~= v@);
    }
    out
}

} // verus!
