//! File entries and opened file handles: the read/seek/extract layer.

use crate::error::{CascError, IoDetail};
use crate::names;
use crate::native::{
    entry_index_from, read_amount, read_window, FileSlot, NativeEngine, ERROR_FILE_NOT_FOUND,
    ERROR_INVALID_PARAMETER, ERROR_SUCCESS, SEEK_ORIGIN_BEGIN, SEEK_ORIGIN_CURRENT,
    SEEK_ORIGIN_END,
};
use crate::storage::Storage;
use vstd::prelude::*;
use vstd::string::StringSliceAdditionalSpecFns;
use vstd::utf8::encode_utf8;

verus! {

/// A lazy, unopened reference to a named entry of a storage. Holding one
/// acquires nothing from the engine.
#[derive(Debug)]
pub struct FileEntry {
    /// The storage handle the entry belongs to.
    pub storage: usize,
    /// The entry's archive-internal logical name.
    pub name: String,
}

impl FileEntry {
    /// The entry refers to a storage handle that is still open.
    pub open spec fn wf(self, e: NativeEngine) -> bool {
        &&& e.wf()
        &&& self.storage < e.storages@.len()
        &&& e.storages@[self.storage as int].open
    }

    /// A descriptor for `name` under `storage`: pure construction.
    pub fn new(storage: &Storage, name: &str) -> (r: FileEntry)
        ensures
            r.storage == storage.handle,
            r.name@ == name@,
    {
        FileEntry { storage: storage.handle, name: name.to_owned() }
    }

    /// The entry's name.
    pub fn get_name(&self) -> (r: &str)
        ensures
            r@ == self.name@,
    {
        self.name.as_str()
    }

    /// Open the entry: encode its name, ask the engine for a file handle,
    /// and compose the 64-bit size from the engine's low and high words.
    /// Nothing was acquired before the engine call, so a failure needs no
    /// cleanup; on success the (name, storage) pair moves into the handle.
    pub fn open(self, engine: &mut NativeEngine) -> (r: Result<File, CascError>)
        requires
            self.wf(*old(engine)),
        ensures
            final(engine).wf(),
            final(engine).archives == old(engine).archives,
            final(engine).storages == old(engine).storages,
            final(engine).finds == old(engine).finds,
            final(engine).read_calls == old(engine).read_calls,
            final(engine).find_close_calls == old(engine).find_close_calls,
            // A name with an interior NUL is refused before any engine
            // call.
            names::has_nul(encode_utf8(self.name@)) ==> r == Err::<File, CascError>(
                CascError::InvalidFileName,
            ) && *final(engine) == *old(engine),
            // The entry exists and its content is present: a fresh handle,
            // positioned at the start, with the true size cached.
            !names::has_nul(encode_utf8(self.name@)) ==> (entry_index_from(
                old(engine).archive_of(self.storage as int).entries@,
                encode_utf8(self.name@),
                0,
            ) matches Some(i) ==> ((old(engine).archive_of(self.storage as int).entries@[i].available
                ==> (r matches Ok(f) && f.entry == self && f.handle == old(engine).files@.len()
                && f.size == old(engine).archive_of(self.storage as int).entries@[i].data@.len()
                && f.wf(*final(engine)) && final(engine).files@ == old(engine).files@.push(
                (FileSlot { storage: self.storage, entry: i as usize, pos: 0, open: true }),
            ) && final(engine).last_error == old(engine).last_error)) && (!old(engine).archive_of(
                self.storage as int,
            ).entries@[i].available ==> (r == Err::<File, CascError>(CascError::FileNotFound)
                && final(engine).files == old(engine).files && final(engine).last_error
                == ERROR_FILE_NOT_FOUND)))),
            // No entry of that name: the engine's "not found" error.
            !names::has_nul(encode_utf8(self.name@)) && entry_index_from(
                old(engine).archive_of(self.storage as int).entries@,
                encode_utf8(self.name@),
                0,
            ) is None ==> r == Err::<File, CascError>(CascError::FileNotFound) && final(engine).files == old(engine).files && final(engine).last_error == ERROR_FILE_NOT_FOUND,
    {
        let bytes = names::encode(self.name.as_str());
        if names::contains_nul(&bytes) {
            return Err(CascError::InvalidFileName);
        }
        match engine.open_file(self.storage, &bytes) {
            None => Err(CascError::from_last_error(engine)),
            Some(handle) => {
                let size_parts = engine.get_file_size(handle);
                let size: u64 = (size_parts.1 as u64) * 0x1_0000_0000u64 + (size_parts.0 as u64);
                Ok(File { entry: self, handle, size })
            },
        }
    }
}

/// Where a seek measures its offset from.
#[derive(Clone, Copy, Debug, PartialEq, Eq, Structural)]
pub enum SeekFrom {
    /// An absolute offset from the start.
    Start(u64),
    /// A signed offset from the current position.
    Current(i64),
    /// A signed offset from the end of the data.
    End(i64),
}

/// An opened, readable and seekable handle onto one entry. It owns one
/// engine file handle and a size fixed at open time.
pub struct File {
    /// The entry the handle was opened from.
    pub entry: FileEntry,
    /// The engine file handle.
    pub handle: usize,
    /// The entry's size, composed from the engine's two 32-bit words at
    /// open time and never re-queried.
    pub size: u64,
}

impl File {
    /// The handle and its parent storage are still open, and the cached
    /// size is the entry's true size.
    pub open spec fn wf(self, e: NativeEngine) -> bool {
        &&& e.wf()
        &&& self.handle < e.files@.len()
        &&& e.files@[self.handle as int].open
        &&& e.files@[self.handle as int].storage == self.entry.storage
        &&& self.entry.storage < e.storages@.len()
        &&& e.storages@[self.entry.storage as int].open
        &&& self.size == e.entry_of(self.handle as int).data@.len()
    }

    /// The bytes this handle reads.
    pub open spec fn data(self, e: NativeEngine) -> Seq<u8> {
        e.entry_of(self.handle as int).data@
    }

    /// The handle's current read position.
    pub open spec fn pos(self, e: NativeEngine) -> int {
        e.files@[self.handle as int].pos as int
    }

    /// The read-fault knob of the entry this handle reads.
    pub open spec fn read_fault(self, e: NativeEngine) -> u32 {
        e.entry_of(self.handle as int).read_fault
    }

    /// Everything about `e2` equals `e1` except that this handle's file
    /// slot may sit at a different position, and the sticky error word and
    /// the read-call counter may have moved.
    pub open spec fn only_pos_moved(self, e1: NativeEngine, e2: NativeEngine) -> bool {
        &&& e2.archives == e1.archives
        &&& e2.storages == e1.storages
        &&& e2.finds == e1.finds
        &&& e2.find_close_calls == e1.find_close_calls
        &&& e2.files@.len() == e1.files@.len()
        &&& forall|i: int|
            0 <= i < e1.files@.len() && i != self.handle ==> e2.files@[i] == e1.files@[i]
        &&& e2.files@[self.handle as int] == (FileSlot {
            pos: e2.files@[self.handle as int].pos,
            ..e1.files@[self.handle as int]
        })
    }

    /// The entry's name.
    pub fn get_name(&self) -> (r: &str)
        ensures
            r@ == self.entry.name@,
    {
        self.entry.name.as_str()
    }

    /// The size cached at open time. No engine call.
    pub fn get_size(&self) -> (r: u64)
        ensures
            r == self.size,
    {
        self.size
    }

    /// Read up to `buf.len()` bytes into the front of `buf`.
    ///
    /// A zero-length buffer is answered with 0 immediately, without any
    /// engine call. Otherwise one engine read runs; fewer bytes than asked
    /// for is a normal short read, not an error, and a failed call maps to
    /// the I/O error carrying the engine's code.
    pub fn read(&self, engine: &mut NativeEngine, buf: &mut Vec<u8>) -> (r: Result<
        usize,
        CascError,
    >)
        requires
            self.wf(*old(engine)),
            old(buf)@.len() <= u32::MAX,
        ensures
            final(engine).wf(),
            self.wf(*final(engine)),
            self.only_pos_moved(*old(engine), *final(engine)),
            final(buf)@.len() == old(buf)@.len(),
            // The zero-length buffer answer costs no engine call at all.
            old(buf)@.len() == 0 ==> r == Ok::<usize, CascError>(0) && *final(engine) == *old(
                engine,
            ) && final(buf)@ == old(buf)@,
            old(buf)@.len() > 0 && self.read_fault(*old(engine)) != 0 ==> r == Err::<
                usize,
                CascError,
            >(
                (CascError::Io(IoDetail::ReadFailed { code: self.read_fault(*old(engine)) })),
            ) && final(buf)@ == old(buf)@ && final(engine).files == old(engine).files,
            old(buf)@.len() > 0 && self.read_fault(*old(engine)) == 0 ==> (r matches Ok(n) && n
                == read_amount(
                self.data(*old(engine)).len() as int,
                self.pos(*old(engine)),
                old(buf)@.len() as int,
            ) && final(buf)@ == read_window(
                self.data(*old(engine)),
                self.pos(*old(engine)),
                old(buf)@.len() as int,
            ) + old(buf)@.skip(n as int) && self.pos(*final(engine)) == self.pos(*old(engine)) + n
                && final(engine).last_error == old(engine).last_error),
    {
        if buf.len() == 0 {
            return Ok(0);
        }
        match engine.read_file(self.handle, buf.len() as u32) {
            None => Err(CascError::Io(IoDetail::ReadFailed { code: engine.get_last_error() })),
            Some(chunk) => {
                let n = chunk.len();
                proof {
                    assert(buf@ =~= chunk@.subrange(0, 0) + buf@.skip(0));
                }
                let mut j: usize = 0;
                while j < n
                    invariant
                        j <= n,
                        n == chunk@.len(),
                        n <= buf@.len(),
                        buf@.len() == old(buf)@.len(),
                        buf@ == chunk@.subrange(0, j as int) + old(buf)@.skip(j as int),
                    decreases n - j,
                {
                    buf.set(j, chunk[j]);
                    proof {
                        assert(buf@ =~= chunk@.subrange(0, j as int + 1) + old(buf)@.skip(
                            j as int + 1,
                        ));
                    }
                    j = j + 1;
                }
                proof {
                    assert(buf@ =~= chunk@ + old(buf)@.skip(n as int));
                }
                Ok(n)
            },
        }
    }

    /// Read exactly `len` bytes as one fixed-size record.
    ///
    /// A short read — fewer bytes than the record needs, including none at
    /// the end of the data — never yields a value: it is the
    /// unexpected-end-of-data error instead, so a partial read can never
    /// look like a whole record.
    pub fn read_struct(&self, engine: &mut NativeEngine, len: usize) -> (r: Result<
        Vec<u8>,
        CascError,
    >)
        requires
            self.wf(*old(engine)),
            len <= u32::MAX,
        ensures
            final(engine).wf(),
            self.wf(*final(engine)),
            self.only_pos_moved(*old(engine), *final(engine)),
            self.read_fault(*old(engine)) != 0 ==> r == Err::<Vec<u8>, CascError>(
                (CascError::Io(IoDetail::UnexpectedEof { expected: len as u32, got: 0 })),
            ) && final(engine).files == old(engine).files,
            self.read_fault(*old(engine)) == 0 && read_amount(
                self.data(*old(engine)).len() as int,
                self.pos(*old(engine)),
                len as int,
            ) == len ==> (r matches Ok(v) && v@ == read_window(
                self.data(*old(engine)),
                self.pos(*old(engine)),
                len as int,
            ) && v@.len() == len && self.pos(*final(engine)) == self.pos(*old(engine)) + len
                && final(engine).last_error == old(engine).last_error),
            self.read_fault(*old(engine)) == 0 && read_amount(
                self.data(*old(engine)).len() as int,
                self.pos(*old(engine)),
                len as int,
            ) < len ==> r == Err::<Vec<u8>, CascError>(
                (CascError::Io(
                    IoDetail::UnexpectedEof {
                        expected: len as u32,
                        got: read_amount(
                            self.data(*old(engine)).len() as int,
                            self.pos(*old(engine)),
                            len as int,
                        ) as u32,
                    },
                )),
            ),
    {
        match engine.read_file(self.handle, len as u32) {
            None => Err(
                CascError::Io(IoDetail::UnexpectedEof { expected: len as u32, got: 0 }),
            ),
            Some(v) => {
                if v.len() == len {
                    Ok(v)
                } else {
                    let got = v.len() as u32;
                    Err(CascError::Io(IoDetail::UnexpectedEof { expected: len as u32, got }))
                }
            },
        }
    }

    /// The absolute position `pos` resolves to against this handle's
    /// current position and size.
    pub open spec fn seek_target(self, e: NativeEngine, pos: SeekFrom) -> int {
        match pos {
            SeekFrom::Start(n) => n as int,
            SeekFrom::Current(d) => self.pos(e) + d,
            SeekFrom::End(d) => self.data(e).len() + d,
        }
    }

    /// Move the read position. The resulting absolute position is
    /// returned; a target the engine's unsigned position word cannot hold
    /// is refused with the engine's "bad argument" code.
    pub fn seek(&self, engine: &mut NativeEngine, pos: SeekFrom) -> (r: Result<u64, CascError>)
        requires
            self.wf(*old(engine)),
            pos matches SeekFrom::Start(n) ==> n <= i64::MAX as u64,
        ensures
            final(engine).wf(),
            self.wf(*final(engine)),
            self.only_pos_moved(*old(engine), *final(engine)),
            final(engine).read_calls == old(engine).read_calls,
            0 <= self.seek_target(*old(engine), pos) <= u64::MAX ==> (r matches Ok(p) && p
                == self.seek_target(*old(engine), pos) && self.pos(*final(engine))
                == self.seek_target(*old(engine), pos) && final(engine).last_error == old(
                engine,
            ).last_error),
            !(0 <= self.seek_target(*old(engine), pos) <= u64::MAX) ==> r == Err::<u64, CascError>(
                (CascError::Code(ERROR_INVALID_PARAMETER)),
            ) && final(engine).files == old(engine).files && final(engine).last_error
                == ERROR_INVALID_PARAMETER,
    {
        let translated: (i64, u32) = match pos {
            SeekFrom::Start(n) => (n as i64, SEEK_ORIGIN_BEGIN),
            SeekFrom::End(n) => (n, SEEK_ORIGIN_END),
            SeekFrom::Current(n) => (n, SEEK_ORIGIN_CURRENT),
        };
        match engine.set_file_pointer(self.handle, translated.0, translated.1) {
            Some(p) => Ok(p),
            None => Err(CascError::Code(engine.get_last_error())),
        }
    }

    /// Release the engine file handle. Consuming the handle here is what
    /// makes a second release impossible.
    pub fn close(self, engine: &mut NativeEngine)
        requires
            self.wf(*old(engine)),
        ensures
            final(engine).wf(),
            final(engine).archives == old(engine).archives,
            final(engine).storages == old(engine).storages,
            final(engine).finds == old(engine).finds,
            final(engine).last_error == old(engine).last_error,
            final(engine).read_calls == old(engine).read_calls,
            final(engine).find_close_calls == old(engine).find_close_calls,
            final(engine).files@ == old(engine).files@.update(
                self.handle as int,
                (FileSlot { open: false, ..old(engine).files@[self.handle as int] }),
            ),
    {
        engine.close_file(self.handle);
    }

    /// Copy the whole entry through a fixed-size buffer into `sink`.
    ///
    /// The sticky error word is cleared, the position is reset to the
    /// start (a failure there would be fatal to the call), and the loop
    /// reads and writes until a read delivers no bytes or fails. The
    /// engine signals end-of-data and failure identically at the read
    /// call, so the sticky word is consulted afterwards to tell them
    /// apart: zero yields the total written, anything else the I/O error
    /// carrying the code and the partial total.
    pub fn extract<S: Sink>(&self, engine: &mut NativeEngine, sink: &mut S) -> (r: Result<
        usize,
        CascError,
    >)
        requires
            self.wf(*old(engine)),
        ensures
            final(engine).wf(),
            self.wf(*final(engine)),
            self.only_pos_moved(*old(engine), *final(engine)),
            // Success is exactly a clean, whole copy of the entry.
            r matches Ok(n) ==> n == self.data(*old(engine)).len() && final(sink).model() == old(
                sink,
            ).model() + self.data(*old(engine)) && self.read_fault(*old(engine)) == 0 && final(engine).last_error == ERROR_SUCCESS,
            // A failing read surfaces as the I/O error carrying the sticky
            // code and the bytes already written (here: none, since every
            // read of such an entry fails).
            self.read_fault(*old(engine)) != 0 ==> r == Err::<usize, CascError>(
                (CascError::Io(
                    IoDetail::ExtractFailed { code: self.read_fault(*old(engine)), total: 0 },
                )),
            ) && final(sink).model() == old(sink).model(),
            // A refused write surfaces as the write error; what the sink
            // holds is what it had accepted: a prefix of the entry.
            r matches Err(e) ==> (e == CascError::Io(
                IoDetail::ExtractFailed { code: self.read_fault(*old(engine)), total: 0 },
            ) && self.read_fault(*old(engine)) != 0) || (e == CascError::Io(IoDetail::WriteFailed)
                && self.read_fault(*old(engine)) == 0 && exists|k: int|
                0 <= k <= self.data(*old(engine)).len() && final(sink).model() == old(
                    sink,
                ).model() + self.data(*old(engine)).subrange(0, k)),
            // A sink that accepts every write cannot make a clean entry
            // fail: the total equals the entry's size.
            (forall|s: S, b: Seq<u8>| s.accepts(b)) && self.read_fault(*old(engine)) == 0 ==> (
            r matches Ok(n) && n == self.data(*old(engine)).len()),
    {
        engine.set_last_error(ERROR_SUCCESS);
        match engine.set_file_pointer(self.handle, 0, SEEK_ORIGIN_BEGIN) {
            None => {
                // A move to absolute position zero is always in range, so
                // the engine's contract rules this arm out.
                proof {
                    assert(false);
                }
                Err(CascError::Code(engine.get_last_error()))
            },
            Some(_) => {
                let mut total: usize = 0;
                proof {
                    assert(sink.model() =~= old(sink).model() + self.data(*engine).subrange(0, 0));
                }
                loop
                    invariant_except_break
                        engine.last_error == ERROR_SUCCESS,
                    invariant
                        self.wf(*engine),
                        self.only_pos_moved(*old(engine), *engine),
                        total == self.pos(*engine),
                        total <= self.data(*old(engine)).len(),
                        sink.model() == old(sink).model() + self.data(*old(engine)).subrange(
                            0,
                            total as int,
                        ),
                        self.read_fault(*old(engine)) != 0 ==> total == 0,
                    ensures
                        self.wf(*engine),
                        self.only_pos_moved(*old(engine), *engine),
                        total <= self.data(*old(engine)).len(),
                        sink.model() == old(sink).model() + self.data(*old(engine)).subrange(
                            0,
                            total as int,
                        ),
                        engine.last_error == ERROR_SUCCESS ==> total == self.data(
                            *old(engine),
                        ).len() && self.read_fault(*old(engine)) == 0,
                        engine.last_error != ERROR_SUCCESS ==> engine.last_error == self.read_fault(
                            *old(engine),
                        ) && self.read_fault(*old(engine)) != 0 && total == 0,
                    decreases self.data(*old(engine)).len() - total,
                {
                    let chunk = match engine.read_file(self.handle, EXTRACT_CHUNK) {
                        None => {
                            break ;
                        },
                        Some(c) => c,
                    };
                    if chunk.len() == 0 {
                        break ;
                    }
                    match sink.write_all(chunk.as_slice()) {
                        Ok(_) => {
                            proof {
                                assert(old(sink).model() + self.data(*old(engine)).subrange(
                                    0,
                                    total as int,
                                ) + chunk@ =~= old(sink).model() + self.data(
                                    *old(engine),
                                ).subrange(0, total as int + chunk@.len()));
                            }
                            total = total + chunk.len();
                        },
                        Err(_) => {
                            return Err(CascError::Io(IoDetail::WriteFailed));
                        },
                    }
                }
                let code = engine.get_last_error();
                if code == ERROR_SUCCESS {
                    Ok(total)
                } else {
                    Err(CascError::Io(IoDetail::ExtractFailed { code, total }))
                }
            },
        }
    }

    /// Read the whole entry, from its start, into a fresh byte vector.
    pub fn read_all(&self, engine: &mut NativeEngine) -> (r: Result<Vec<u8>, CascError>)
        requires
            self.wf(*old(engine)),
        ensures
            final(engine).wf(),
            self.wf(*final(engine)),
            self.only_pos_moved(*old(engine), *final(engine)),
            // A clean entry is returned whole; the vector is its bytes.
            self.read_fault(*old(engine)) == 0 ==> (r matches Ok(v) && v@ == self.data(
                *old(engine),
            )),
            r matches Ok(v) ==> v@ == self.data(*old(engine)),
            r matches Err(e) ==> self.read_fault(*old(engine)) != 0 && e == CascError::Io(
                IoDetail::ExtractFailed { code: self.read_fault(*old(engine)), total: 0 },
            ),
    {
        let mut sink = VecSink { data: Vec::new() };
        proof {
            assert(forall|s: VecSink, b: Seq<u8>| s.accepts(b));
        }
        match self.extract(engine, &mut sink) {
            Ok(_) => {
                proof {
                    assert(sink.data@ =~= self.data(*old(engine)));
                }
                Ok(sink.data)
            },
            Err(e) => Err(e),
        }
    }
}

/// The fixed buffer size of the extract loop.
pub const EXTRACT_CHUNK: u32 = 4096;

/// Where extracted bytes go. The original archive layer hands its callers
/// a generic writable target; implementations promise only that a chunk is
/// taken whole or refused whole.
pub trait Sink {
    /// The bytes accepted so far.
    spec fn model(&self) -> Seq<u8>;

    /// Whether the sink, in its current state, will take this chunk.
    spec fn accepts(&self, data: Seq<u8>) -> bool;

    /// Take a chunk whole, or refuse it and leave the accepted bytes
    /// alone.
    fn write_all(&mut self, data: &[u8]) -> (r: Result<(), ()>)
        ensures
            old(self).accepts(data@) ==> r is Ok,
            r is Ok ==> final(self).model() == old(self).model() + data@,
            r is Err ==> final(self).model() == old(self).model(),
    ;
}

/// Handles opened on the same storage — even on the same entry name — are
/// independent: after one is released, the other is still a well-formed
/// handle onto the same bytes, at the same position, ready to be read.
pub proof fn lemma_close_leaves_other_handle_intact(
    f1: File,
    f2: File,
    e1: NativeEngine,
    e2: NativeEngine,
)
    requires
        f1.wf(e1),
        f2.wf(e1),
        f1.handle != f2.handle,
        e2.files@ == e1.files@.update(
            f1.handle as int,
            (FileSlot { open: false, ..e1.files@[f1.handle as int] }),
        ),
        e2.archives == e1.archives,
        e2.storages == e1.storages,
        e2.finds == e1.finds,
        e2.last_error == e1.last_error,
        e2.read_calls == e1.read_calls,
        e2.find_close_calls == e1.find_close_calls,
    ensures
        f2.wf(e2),
        f2.data(e2) == f2.data(e1),
        f2.pos(e2) == f2.pos(e1),
{
}

/// A sink that accepts everything into a growing byte vector.
pub struct VecSink {
    /// The bytes accepted so far.
    pub data: Vec<u8>,
}

impl Sink for VecSink {
    open spec fn model(&self) -> Seq<u8> {
        self.data@
    }

    open spec fn accepts(&self, data: Seq<u8>) -> bool {
        true
    }

    fn write_all(&mut self, data: &[u8]) -> (r: Result<(), ()>) {
        let mut j: usize = 0;
        proof {
            assert(self.data@ =~= old(self).data@ + data@.subrange(0, 0));
        }
        while j < data.len()
            invariant
                j <= data@.len(),
                self.data@ == old(self).data@ + data@.subrange(0, j as int),
            decreases data@.len() - j,
        {
            self.data.push(data[j]);
            proof {
                assert(self.data@ =~= old(self).data@ + data@.subrange(0, j as int + 1));
            }
            j = j + 1;
        }
        proof {
            assert(self.data@ =~= old(self).data@ + data@);
        }
        Ok(())
    }
}

/// A sink with a fixed capacity: it takes a chunk only while the whole
/// chunk still fits, and refuses anything more, leaving what it already
/// holds alone.
pub struct BoundedSink {
    /// The bytes accepted so far.
    pub data: Vec<u8>,
    /// The most bytes the sink will ever hold.
    pub capacity: usize,
}

impl Sink for BoundedSink {
    open spec fn model(&self) -> Seq<u8> {
        self.data@
    }

    open spec fn accepts(&self, data: Seq<u8>) -> bool {
        self.data@.len() + data.len() <= self.capacity
    }

    fn write_all(&mut self, data: &[u8]) -> (r: Result<(), ()>) {
        if data.len() > self.capacity || self.data.len() > self.capacity - data.len() {
            return Err(());
        }
        let mut j: usize = 0;
        proof {
            assert(self.data@ =~= old(self).data@ + data@.subrange(0, 0));
        }
        while j < data.len()
            invariant
                j <= data@.len(),
                self.data@ == old(self).data@ + data@.subrange(0, j as int),
            decreases data@.len() - j,
        {
            self.data.push(data[j]);
            proof {
                assert(self.data@ =~= old(self).data@ + data@.subrange(0, j as int + 1));
            }
            j = j + 1;
        }
        proof {
            assert(self.data@ =~= old(self).data@ + data@);
        }
        Ok(())
    }
}

} // verus!
