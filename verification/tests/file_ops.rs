use casclib::native::{Archive, EntryData, NativeEngine, ERROR_INVALID_PARAMETER};
use casclib::{open, BoundedSink, CascError, IoDetail, SeekFrom, Storage, VecSink};

fn entry(name: &[u8], data: &[u8]) -> EntryData {
    EntryData { name: name.to_vec(), data: data.to_vec(), available: true, read_fault: 0 }
}

fn engine_with(entries: Vec<EntryData>) -> NativeEngine {
    NativeEngine::with_archives(vec![Archive {
        path: b"game.casc".to_vec(),
        fault: 0,
        entries,
    }])
}

fn open_storage(engine: &mut NativeEngine) -> Storage {
    open(engine, "game.casc").unwrap()
}

#[test]
fn entry_is_pure_and_open_composes_the_size() {
    let mut engine = engine_with(vec![entry(b"a.txt", b"hello")]);
    let storage = open_storage(&mut engine);
    let descriptor = storage.entry("a.txt");
    assert_eq!(descriptor.get_name(), "a.txt");
    // Holding a descriptor acquires nothing.
    assert_eq!(engine.files.len(), 0);
    let file = descriptor.open(&mut engine).unwrap();
    assert_eq!(file.get_name(), "a.txt");
    assert_eq!(file.get_size(), 5);
}

#[test]
fn open_unknown_entry_is_file_not_found() {
    let mut engine = engine_with(vec![entry(b"a.txt", b"hello")]);
    let storage = open_storage(&mut engine);
    let r = storage.entry("b.txt").open(&mut engine);
    assert!(matches!(r, Err(CascError::FileNotFound)));
    assert_eq!(engine.files.len(), 0);
}

#[test]
fn open_unavailable_entry_is_file_not_found() {
    let mut ghost_entry = entry(b"ghost.dat", b"123");
    ghost_entry.available = false;
    let mut engine = engine_with(vec![ghost_entry]);
    let storage = open_storage(&mut engine);
    let r = storage.entry("ghost.dat").open(&mut engine);
    assert!(matches!(r, Err(CascError::FileNotFound)));
}

#[test]
fn open_name_with_nul_is_invalid_file_name() {
    let mut engine = engine_with(vec![entry(b"a.txt", b"hello")]);
    let storage = open_storage(&mut engine);
    let r = storage.entry("a\0txt").open(&mut engine);
    assert!(matches!(r, Err(CascError::InvalidFileName)));
    assert_eq!(engine.files.len(), 0);
}

#[test]
fn read_zero_length_buffer_returns_zero_without_engine_call() {
    let mut engine = engine_with(vec![entry(b"a.txt", b"hello")]);
    let storage = open_storage(&mut engine);
    let file = storage.entry("a.txt").open(&mut engine).unwrap();
    let calls_before = engine.read_calls;
    let mut buf: Vec<u8> = Vec::new();
    let n = file.read(&mut engine, &mut buf).unwrap();
    assert_eq!(n, 0);
    assert_eq!(engine.read_calls, calls_before);
}

#[test]
fn short_read_at_end_is_a_normal_outcome() {
    let mut engine = engine_with(vec![entry(b"a.txt", b"hello")]);
    let storage = open_storage(&mut engine);
    let file = storage.entry("a.txt").open(&mut engine).unwrap();
    let mut buf = vec![0u8; 3];
    assert_eq!(file.read(&mut engine, &mut buf).unwrap(), 3);
    assert_eq!(&buf, b"hel");
    let mut buf2 = vec![0u8; 8];
    assert_eq!(file.read(&mut engine, &mut buf2).unwrap(), 2);
    assert_eq!(&buf2[..2], b"lo");
    let mut buf3 = vec![0u8; 4];
    assert_eq!(file.read(&mut engine, &mut buf3).unwrap(), 0);
}

#[test]
fn failing_read_carries_the_engine_code() {
    let mut bad = entry(b"bad.bin", b"data");
    bad.read_fault = 77;
    let mut engine = engine_with(vec![bad]);
    let storage = open_storage(&mut engine);
    let file = storage.entry("bad.bin").open(&mut engine).unwrap();
    let mut buf = vec![0u8; 4];
    let r = file.read(&mut engine, &mut buf);
    assert_eq!(r, Err(CascError::Io(IoDetail::ReadFailed { code: 77 })));
}

#[test]
fn read_struct_returns_exactly_the_record() {
    let mut engine = engine_with(vec![entry(b"rec.bin", &[1, 2, 3, 4, 5, 6])]);
    let storage = open_storage(&mut engine);
    let file = storage.entry("rec.bin").open(&mut engine).unwrap();
    let first = file.read_struct(&mut engine, 4).unwrap();
    assert_eq!(first, vec![1, 2, 3, 4]);
}

#[test]
fn read_struct_past_the_end_never_yields_a_value() {
    let mut engine = engine_with(vec![entry(b"rec.bin", &[1, 2, 3, 4, 5, 6])]);
    let storage = open_storage(&mut engine);
    let file = storage.entry("rec.bin").open(&mut engine).unwrap();
    file.read_struct(&mut engine, 4).unwrap();
    let r = file.read_struct(&mut engine, 4);
    assert_eq!(
        r,
        Err(CascError::Io(IoDetail::UnexpectedEof { expected: 4, got: 2 }))
    );
}

#[test]
fn seek_resolves_each_origin_to_an_absolute_position() {
    let mut engine = engine_with(vec![entry(b"a.bin", &[0, 1, 2, 3, 4, 5, 6, 7, 8, 9])]);
    let storage = open_storage(&mut engine);
    let file = storage.entry("a.bin").open(&mut engine).unwrap();
    assert_eq!(file.seek(&mut engine, SeekFrom::Start(4)).unwrap(), 4);
    assert_eq!(file.seek(&mut engine, SeekFrom::Current(3)).unwrap(), 7);
    assert_eq!(file.seek(&mut engine, SeekFrom::Current(-5)).unwrap(), 2);
    assert_eq!(file.seek(&mut engine, SeekFrom::End(-1)).unwrap(), 9);
    assert_eq!(file.seek(&mut engine, SeekFrom::End(5)).unwrap(), 15);
}

#[test]
fn seek_before_the_start_is_refused_with_the_engine_code() {
    let mut engine = engine_with(vec![entry(b"a.bin", &[0, 1, 2])]);
    let storage = open_storage(&mut engine);
    let file = storage.entry("a.bin").open(&mut engine).unwrap();
    let r = file.seek(&mut engine, SeekFrom::End(-10));
    assert_eq!(r, Err(CascError::Code(ERROR_INVALID_PARAMETER)));
}

#[test]
fn extract_accepting_sink_gets_the_whole_entry() {
    let content: Vec<u8> = (0u16..5000u16).map(|i| (i % 251) as u8).collect();
    let mut engine = engine_with(vec![entry(b"big.bin", &content)]);
    let storage = open_storage(&mut engine);
    let file = storage.entry("big.bin").open(&mut engine).unwrap();
    let mut sink = VecSink { data: Vec::new() };
    let total = file.extract(&mut engine, &mut sink).unwrap();
    assert_eq!(total as u64, file.get_size());
    assert_eq!(sink.data, content);
}

#[test]
fn extract_rereads_from_the_start_after_a_seek() {
    let mut engine = engine_with(vec![entry(b"a.txt", b"hello")]);
    let storage = open_storage(&mut engine);
    let file = storage.entry("a.txt").open(&mut engine).unwrap();
    file.seek(&mut engine, SeekFrom::Start(3)).unwrap();
    let mut sink = VecSink { data: Vec::new() };
    assert_eq!(file.extract(&mut engine, &mut sink).unwrap(), 5);
    assert_eq!(sink.data, b"hello".to_vec());
}

#[test]
fn extract_surfaces_the_sticky_code_with_the_partial_total() {
    let mut bad = entry(b"bad.bin", b"data");
    bad.read_fault = 55;
    let mut engine = engine_with(vec![bad]);
    let storage = open_storage(&mut engine);
    let file = storage.entry("bad.bin").open(&mut engine).unwrap();
    let mut sink = VecSink { data: Vec::new() };
    let r = file.extract(&mut engine, &mut sink);
    assert_eq!(
        r,
        Err(CascError::Io(IoDetail::ExtractFailed { code: 55, total: 0 }))
    );
    assert!(sink.data.is_empty());
}

#[test]
fn refusing_sink_turns_extract_into_a_write_error() {
    let mut engine = engine_with(vec![entry(b"a.bin", &[7u8; 10])]);
    let storage = open_storage(&mut engine);
    let file = storage.entry("a.bin").open(&mut engine).unwrap();
    let mut sink = BoundedSink { data: Vec::new(), capacity: 4 };
    let r = file.extract(&mut engine, &mut sink);
    assert_eq!(r, Err(CascError::Io(IoDetail::WriteFailed)));
    assert!(sink.data.is_empty());
}

#[test]
fn bounded_sink_large_enough_behaves_like_an_accepting_one() {
    let mut engine = engine_with(vec![entry(b"a.bin", &[7u8; 10])]);
    let storage = open_storage(&mut engine);
    let file = storage.entry("a.bin").open(&mut engine).unwrap();
    let mut sink = BoundedSink { data: Vec::new(), capacity: 64 };
    assert_eq!(file.extract(&mut engine, &mut sink).unwrap(), 10);
    assert_eq!(sink.data, vec![7u8; 10]);
}

#[test]
fn zero_byte_entry_extracts_to_nothing() {
    let mut engine = engine_with(vec![entry(b"a.txt", b"12345"), entry(b"b.bin", b"")]);
    let storage = open_storage(&mut engine);
    let file = storage.entry("b.bin").open(&mut engine).unwrap();
    assert_eq!(file.get_size(), 0);
    let mut sink = VecSink { data: Vec::new() };
    let total = file.extract(&mut engine, &mut sink).unwrap();
    assert_eq!(total, 0);
    assert_eq!(sink.data, Vec::<u8>::new());
}

#[test]
fn read_all_returns_the_entry_bytes() {
    let mut engine = engine_with(vec![entry(b"a.txt", b"hello")]);
    let storage = open_storage(&mut engine);
    let file = storage.entry("a.txt").open(&mut engine).unwrap();
    assert_eq!(file.read_all(&mut engine).unwrap(), b"hello".to_vec());
}

#[test]
fn two_handles_on_one_entry_are_independent() {
    let mut engine = engine_with(vec![entry(b"a.txt", b"hello")]);
    let storage = open_storage(&mut engine);
    let first = storage.entry("a.txt").open(&mut engine).unwrap();
    let second = storage.entry("a.txt").open(&mut engine).unwrap();
    assert_ne!(first.handle, second.handle);
    // Move the first handle's position; the second is unaffected.
    first.seek(&mut engine, SeekFrom::Start(4)).unwrap();
    first.close(&mut engine);
    let mut buf = vec![0u8; 5];
    assert_eq!(second.read(&mut engine, &mut buf).unwrap(), 5);
    assert_eq!(&buf, b"hello");
    second.close(&mut engine);
}
