use core::cmp::Ordering;
use fmr::path::{cmp_bytes, compare_last_modified, compare_natural, get_folder_by, has_extension,
    parent_of, PathMeta, PathSorterInner};

fn meta(path: &str, modified: Option<u64>) -> PathMeta {
    let file_name = match path.rfind('/') {
        Some(i) => &path[i + 1..],
        None => path,
    };
    PathMeta {
        path: path.as_bytes().to_vec(),
        file_name: file_name.as_bytes().to_vec(),
        modified,
    }
}

#[test]
fn parents_walk_toward_the_root() {
    assert_eq!(parent_of(b"/a/b.zip/page1.jpg"), Some(b"/a/b.zip".to_vec()));
    assert_eq!(parent_of(b"/a/b.zip"), Some(b"/a".to_vec()));
    assert_eq!(parent_of(b"/a"), Some(b"/".to_vec()));
    assert_eq!(parent_of(b"/"), None);
    assert_eq!(parent_of(b"plain"), None);
    assert_eq!(parent_of(b"a/b"), Some(b"a".to_vec()));
}

#[test]
fn extensions_need_a_dot_after_the_first_character() {
    assert!(has_extension(b"/a/b.zip"));
    assert!(has_extension(b"/a/b.tar.gz"));
    assert!(!has_extension(b"/a/dir"));
    assert!(!has_extension(b"/a/.bashrc"));
    assert!(has_extension(b"/a/archive."));
    assert!(!has_extension(b"/a/dir/"));
}

#[test]
fn byte_paths_compare_lexicographically() {
    assert_eq!(cmp_bytes(b"/a/b", b"/a/b"), Ordering::Equal);
    assert_eq!(cmp_bytes(b"/a/a", b"/a/b"), Ordering::Less);
    assert_eq!(cmp_bytes(b"/a/b", b"/a"), Ordering::Greater);
    assert_eq!(cmp_bytes(b"", b"x"), Ordering::Less);
}

#[test]
fn natural_order_compares_embedded_numbers_by_value() {
    assert_eq!(compare_natural(b"rfc822.txt", b"rfc2086.txt"), Ordering::Less);
    assert_eq!(compare_natural(b"page2", b"page10"), Ordering::Less);
    assert_eq!(compare_natural(b"page2", b"page2"), Ordering::Equal);
}

#[test]
fn missing_metadata_compares_equal() {
    assert_eq!(compare_last_modified(Some(5), Some(9)), Ordering::Less);
    assert_eq!(compare_last_modified(Some(9), Some(5)), Ordering::Greater);
    assert_eq!(compare_last_modified(None, Some(5)), Ordering::Equal);
    assert_eq!(compare_last_modified(Some(5), None), Ordering::Equal);
}

#[test]
fn the_sorter_prefers_time_then_name_then_path() {
    let sorter = PathSorterInner { natural: true, last_modified: true, ascending: true };
    let older = meta("/d/page10.png", Some(1));
    let newer = meta("/d/page2.png", Some(9));
    assert_eq!(sorter.compare_path(&older, &newer), Ordering::Less);

    let same_time_a = meta("/d/page2.png", Some(5));
    let same_time_b = meta("/d/page10.png", Some(5));
    assert_eq!(sorter.compare_path(&same_time_a, &same_time_b), Ordering::Less);

    let by_name_only = PathSorterInner { natural: true, last_modified: false, ascending: true };
    assert_eq!(by_name_only.compare_path(&newer, &older), Ordering::Less);
}

#[test]
fn a_descending_sorter_swaps_the_sides() {
    let ascending = PathSorterInner { natural: true, last_modified: false, ascending: true };
    let descending = PathSorterInner { natural: true, last_modified: false, ascending: false };
    let a = meta("/d/page2.png", None);
    let b = meta("/d/page10.png", None);
    assert_eq!(ascending.compare_path(&a, &b), Ordering::Less);
    assert_eq!(descending.compare_path(&a, &b), Ordering::Greater);
}

#[test]
fn stepping_between_siblings_stays_inside_the_listing() {
    let entries = vec![b"/d/a".to_vec(), b"/d/b".to_vec(), b"/d/c".to_vec()];
    assert_eq!(get_folder_by(&entries, b"/d/b", 1), Some(2));
    assert_eq!(get_folder_by(&entries, b"/d/b", -1), Some(0));
    assert_eq!(get_folder_by(&entries, b"/d/c", 1), None);
    assert_eq!(get_folder_by(&entries, b"/d/a", -1), None);
    // An unlisted path steps from the front of the listing.
    assert_eq!(get_folder_by(&entries, b"/elsewhere", 1), Some(1));
}
