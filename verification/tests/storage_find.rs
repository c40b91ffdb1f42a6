use casclib::native::{Archive, EntryData, NativeEngine, ERROR_FILE_NOT_FOUND};
use casclib::{open, CascError, CollectingVisitor, FindState, Storage, Visitor};

fn entry(name: &[u8], data: &[u8]) -> EntryData {
    EntryData { name: name.to_vec(), data: data.to_vec(), available: true, read_fault: 0 }
}

fn engine_with(entries: Vec<EntryData>) -> NativeEngine {
    NativeEngine::with_archives(vec![Archive {
        path: b"game.casc".to_vec(),
        fault: 0,
        entries,
    }])
}

fn open_storage(engine: &mut NativeEngine) -> Storage {
    open(engine, "game.casc").unwrap()
}

fn open_handles(engine: &NativeEngine) -> usize {
    engine.storages.iter().filter(|s| s.open).count()
}

#[test]
fn open_nonexistent_path_maps_not_found_and_leaks_nothing() {
    let mut engine = engine_with(vec![entry(b"a.txt", b"hello")]);
    let r = open(&mut engine, "missing.casc");
    assert!(matches!(r, Err(CascError::FileNotFound)));
    assert_eq!(open_handles(&engine), 0);
}

#[test]
fn open_path_with_nul_is_invalid_before_any_engine_call() {
    let mut engine = engine_with(vec![]);
    let r = open(&mut engine, "bad\0path");
    assert!(matches!(r, Err(CascError::InvalidPath)));
    assert_eq!(open_handles(&engine), 0);
    assert_eq!(engine.get_last_error(), 0);
}

#[test]
fn open_closes_handle_when_count_query_fails() {
    let mut engine = NativeEngine::with_archives(vec![Archive {
        path: b"broken.casc".to_vec(),
        fault: 99,
        entries: vec![],
    }]);
    let r = open(&mut engine, "broken.casc");
    assert!(matches!(r, Err(CascError::Code(99))));
    assert_eq!(open_handles(&engine), 0);
}

#[test]
fn file_count_is_stable_and_needs_no_engine_call() {
    let mut engine = engine_with(vec![entry(b"a", b"1"), entry(b"b", b"2"), entry(b"c", b"3")]);
    let storage = open_storage(&mut engine);
    let first = storage.file_count();
    let second = storage.file_count();
    assert_eq!(first, 3);
    assert_eq!(first, second);
}

#[test]
fn file_count_equals_full_drain_of_match_all_enumeration() {
    let mut engine = engine_with(vec![entry(b"a", b"1"), entry(b"b", b"2"), entry(b"c", b"3")]);
    let storage = open_storage(&mut engine);
    let mut it = storage.files().into_iter();
    let mut drained: u32 = 0;
    while let Some(item) = it.next(&mut engine) {
        item.unwrap();
        drained += 1;
    }
    assert_eq!(drained, storage.file_count());
}

#[test]
fn enumeration_with_no_match_is_empty_not_an_error() {
    let mut engine = engine_with(vec![entry(b"a.txt", b"hello")]);
    let storage = open_storage(&mut engine);
    let mut it = storage.files_with_mask("nothing-like-this").into_iter();
    assert!(it.next(&mut engine).is_none());
    assert!(matches!(it.state, FindState::Exhausted));
    // No find handle was ever issued, so none was released.
    assert_eq!(engine.finds.len(), 0);
    assert_eq!(engine.find_close_calls, 0);
}

#[test]
fn enumeration_yields_entries_in_engine_order() {
    let mut engine = engine_with(vec![entry(b"a.txt", b"12345"), entry(b"b.bin", b"")]);
    let storage = open_storage(&mut engine);
    let mut it = storage.files().into_iter();
    let first = it.next(&mut engine).unwrap().unwrap();
    let second = it.next(&mut engine).unwrap().unwrap();
    assert_eq!(first.get_name(), "a.txt");
    assert_eq!(second.get_name(), "b.bin");
    assert!(it.next(&mut engine).is_none());
    assert_eq!(engine.find_close_calls, 1);
}

#[test]
fn abandoned_session_releases_its_find_handle_exactly_once() {
    let mut engine = engine_with(vec![entry(b"a", b"1"), entry(b"b", b"2")]);
    let storage = open_storage(&mut engine);
    let mut it = storage.files().into_iter();
    // Mid-enumeration: one item taken, one remaining.
    it.next(&mut engine).unwrap().unwrap();
    assert_eq!(engine.find_close_calls, 0);
    it.close(&mut engine);
    assert_eq!(engine.find_close_calls, 1);
    // A second close releases nothing twice.
    it.close(&mut engine);
    assert_eq!(engine.find_close_calls, 1);
    assert!(it.next(&mut engine).is_none());
    assert_eq!(engine.find_close_calls, 1);
}

#[test]
fn invalid_name_yields_one_error_item_and_enumeration_goes_on() {
    let mut engine = engine_with(vec![
        entry(b"ok.txt", b"x"),
        entry(&[0xff, 0xfe], b"y"),
        entry(b"later.txt", b"z"),
    ]);
    let storage = open_storage(&mut engine);
    let mut it = storage.files().into_iter();
    assert_eq!(it.next(&mut engine).unwrap().unwrap().get_name(), "ok.txt");
    let bad = it.next(&mut engine).unwrap();
    assert!(matches!(bad, Err(CascError::InvalidFileName)));
    assert_eq!(it.next(&mut engine).unwrap().unwrap().get_name(), "later.txt");
    assert!(it.next(&mut engine).is_none());
}

#[test]
fn enumerate_files_reports_names_and_sizes_and_count() {
    let mut engine = engine_with(vec![entry(b"a.txt", b"12345"), entry(b"b.bin", b"")]);
    let storage = open_storage(&mut engine);
    let mut visitor = CollectingVisitor::new();
    let n = storage.enumerate_files(&mut engine, "*", &mut visitor).unwrap();
    assert_eq!(n, 2);
    assert_eq!(visitor.items.len(), 2);
    assert_eq!(visitor.items[0], ("a.txt".to_string(), 5));
    assert_eq!(visitor.items[1], ("b.bin".to_string(), 0));
    // The walk's find handle was released.
    assert!(engine.finds.iter().all(|f| !f.open));
}

#[test]
fn enumerate_files_skips_unavailable_entries() {
    let mut unavailable = entry(b"ghost.dat", b"123");
    unavailable.available = false;
    let mut engine = engine_with(vec![entry(b"a.txt", b"12345"), unavailable]);
    let storage = open_storage(&mut engine);
    let mut visitor = CollectingVisitor::new();
    let n = storage.enumerate_files(&mut engine, "*", &mut visitor).unwrap();
    assert_eq!(n, 1);
    assert_eq!(visitor.items.len(), 1);
    assert_eq!(visitor.items[0].0, "a.txt");
}

#[test]
fn enumerate_files_stops_at_first_undecodable_name_and_releases_handle() {
    let mut engine = engine_with(vec![entry(b"a.txt", b"12345"), entry(&[0xff], b"y")]);
    let storage = open_storage(&mut engine);
    let mut visitor = CollectingVisitor::new();
    let r = storage.enumerate_files(&mut engine, "*", &mut visitor);
    assert!(matches!(r, Err(CascError::InvalidFileName)));
    assert_eq!(visitor.items.len(), 1);
    assert_eq!(engine.find_close_calls, 1);
    assert!(engine.finds.iter().all(|f| !f.open));
}

#[test]
fn mask_with_nul_falls_back_to_match_everything() {
    let mut engine = engine_with(vec![entry(b"a", b"1"), entry(b"b", b"2")]);
    let storage = open_storage(&mut engine);
    let mut visitor = CollectingVisitor::new();
    let n = storage.enumerate_files(&mut engine, "bad\0mask", &mut visitor).unwrap();
    assert_eq!(n, 2);
    let find = storage.files_with_mask("also\0bad");
    assert_eq!(find.mask, b"*".to_vec());
}

#[test]
fn from_last_error_maps_the_specific_not_found_code() {
    let mut engine = engine_with(vec![]);
    engine.set_last_error(ERROR_FILE_NOT_FOUND);
    assert_eq!(CascError::from_last_error(&engine), CascError::FileNotFound);
    engine.set_last_error(1234);
    assert_eq!(CascError::from_last_error(&engine), CascError::Code(1234));
}

#[test]
fn storage_close_releases_the_handle() {
    let mut engine = engine_with(vec![entry(b"a", b"1")]);
    let storage = open_storage(&mut engine);
    assert_eq!(open_handles(&engine), 1);
    storage.close(&mut engine);
    assert_eq!(open_handles(&engine), 0);
}
