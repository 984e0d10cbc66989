use sendme::collection::{collect_imports, sort_by_name, Collection, ImportedFile};
use sendme::error::ErrorKind;
use sendme::import::import_from_bytes;
use sendme::receive::{actual_payload_size, total_files, total_size_of, ReceiveTracker};
use sendme::progress::DownloadProgress;

fn file(name: &str, fill: u8, size: u64) -> ImportedFile {
    ImportedFile { name: name.to_string(), hash: [fill; 32], size }
}

fn entries(c: &Collection) -> Vec<(String, [u8; 32])> {
    c.entries.iter().map(|e| (e.name.clone(), e.hash)).collect()
}

#[test]
fn nested_directory_names_sort_bytewise() {
    let (c, total) = collect_imports(vec![file("src/sub/b.txt", 2, 7), file("src/a.txt", 1, 5)]);
    assert_eq!(c.names(), vec!["src/a.txt".to_string(), "src/sub/b.txt".to_string()]);
    assert_eq!(total, 12);
    assert_eq!(entries(&c), vec![("src/a.txt".to_string(), [1; 32]), ("src/sub/b.txt".to_string(), [2; 32])]);
}

#[test]
fn sort_orders_by_bytes_not_case() {
    let sorted = sort_by_name(vec![file("b", 0, 0), file("B", 0, 0), file("a", 0, 0), file("ab", 0, 0)]);
    let names: Vec<String> = sorted.iter().map(|f| f.name.clone()).collect();
    assert_eq!(names, vec!["B", "a", "ab", "b"]);
}

#[test]
fn empty_import_gives_empty_collection() {
    let (c, total) = collect_imports(vec![]);
    assert_eq!(c.len(), 0);
    assert_eq!(total, 0);
}

#[test]
fn stored_parts_load_back() {
    let (c, _) = collect_imports(vec![file("x", 7, 1), file("y", 8, 2)]);
    let (hs, names) = c.to_parts([9; 32]);
    assert_eq!(hs, vec![[9; 32], [7; 32], [8; 32]]);
    assert_eq!(names, vec!["x".to_string(), "y".to_string()]);
    let back = Collection::from_parts(&hs, &names).ok().unwrap();
    assert_eq!(entries(&back), entries(&c));
}

#[test]
fn mismatched_parts_do_not_load() {
    let r = Collection::from_parts(&vec![[1; 32]], &vec!["a".to_string()]);
    assert_eq!(r.err(), Some(ErrorKind::DecodeProtocol));
    assert_eq!(Collection::from_parts(&vec![], &vec![]).err(), Some(ErrorKind::DecodeProtocol));
    assert_eq!(Collection::from_parts(&vec![[1; 32]], &vec![]).ok().unwrap().len(), 0);
}

#[test]
fn payload_counts_collection_entries_only() {
    let (c, _) = collect_imports(vec![file("a", 1, 0), file("b", 2, 0)]);
    let hash_seq = vec![[9; 32], [1; 32], [2; 32]];
    let sizes = vec![40, 5, 7];
    assert_eq!(actual_payload_size(&c, &hash_seq, &sizes), Some(12));
    assert_eq!(total_size_of(&sizes), Some(52));
    assert_eq!(total_files(&sizes), 2);
    let missing = vec![[9; 32], [1; 32]];
    assert_eq!(actual_payload_size(&c, &missing, &vec![40, 5]), Some(5));
}

#[test]
fn sizes_edge_cases() {
    assert_eq!(total_files(&vec![]), 0);
    assert_eq!(total_files(&vec![12]), 0);
    assert_eq!(total_size_of(&vec![u64::MAX, 1]), None);
    assert_eq!(total_size_of(&vec![]), Some(0));
}

#[test]
fn bytes_import_hashes_content() {
    let (c, size) = import_from_bytes("hello.txt".to_string(), &b"hi".to_vec()).ok().unwrap();
    assert_eq!(size, 2);
    let expected = *iroh_blobs::Hash::new(b"hi").as_bytes();
    assert_eq!(entries(&c), vec![("hello.txt".to_string(), expected)]);
    assert_ne!(expected[..2], b"hi"[..]);
    assert_eq!(import_from_bytes("a/../b".to_string(), &vec![]).err(), Some(ErrorKind::InvalidPath));
}

#[test]
fn tracker_polls_every_tenth_item_until_metadata() {
    let mut t = ReceiveTracker::new(100, 1000);
    let mut polls = Vec::new();
    for i in 0..21u64 {
        let step = t.on_progress(i);
        match step.event {
            DownloadProgress::Downloading { offset, total } => {
                assert_eq!(offset, 100 + i);
                assert_eq!(total, 1000);
            }
            _ => panic!("expected a downloading event"),
        }
        if step.try_metadata {
            polls.push(i);
        }
    }
    assert_eq!(polls, vec![0, 10, 20]);
    let first = t.on_metadata(2, 1, vec!["hello.txt".to_string()]);
    match first {
        Some(DownloadProgress::Metadata { total_size, file_count, names }) => {
            assert_eq!(total_size, 2);
            assert_eq!(file_count, 1);
            assert_eq!(names, vec!["hello.txt".to_string()]);
        }
        _ => panic!("expected metadata"),
    }
    assert!(t.on_metadata(2, 1, vec![]).is_none());
    assert!(!t.on_progress(5).try_metadata);
}

#[test]
fn loading_rejects_bad_or_repeated_names() {
    let hs = vec![[0; 32], [1; 32], [2; 32]];
    let dup = vec!["a".to_string(), "a".to_string()];
    assert_eq!(Collection::from_parts(&hs, &dup).err(), Some(ErrorKind::DecodeProtocol));
    let bad = vec!["a".to_string(), "../b".to_string()];
    assert_eq!(Collection::from_parts(&hs, &bad).err(), Some(ErrorKind::DecodeProtocol));
    let good = vec!["a".to_string(), "dir/b".to_string()];
    assert_eq!(Collection::from_parts(&hs, &good).ok().unwrap().len(), 2);
}

#[test]
fn single_file_import_gives_its_entry() {
    let (c, total) = collect_imports(vec![file("hello.txt", 4, 2)]);
    assert_eq!(entries(&c), vec![("hello.txt".to_string(), [4; 32])]);
    assert_eq!(total, 2);
}
