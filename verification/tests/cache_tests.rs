use fmr::cache::{sha_path, to_hex_lower, ExplorerLoaderCache};

const EMPTY_SHA256_HEX: &str = "e3b0c44298fc1c149afbf4c8996fb92427ae41e4649b934ca495991b7852b855";

#[test]
fn sha_path_is_the_digest_of_the_bytes() {
    let id = sha_path(b"");
    assert_eq!(id, EMPTY_SHA256_HEX.as_bytes().to_vec());
    let other = sha_path(b"/a/b.zip");
    assert_eq!(other.len(), 64);
    assert_ne!(other, id);
    assert_ne!(other, b"/a/b.zip".to_vec());
}

#[test]
fn hex_encoding_is_two_lowercase_digits_per_byte() {
    assert_eq!(to_hex_lower(&[]), Vec::<u8>::new());
    assert_eq!(to_hex_lower(&[0x00, 0xff, 0x1a]), b"00ff1a".to_vec());
}

#[test]
fn record_then_lookup_finds_the_artifact() {
    let mut cache = ExplorerLoaderCache::new();
    assert_eq!(cache.get_from_path(b"/a/img.png"), None);
    cache.insert_sha(b"/a/img.png", "artifact-1".to_string());
    assert_eq!(cache.get_from_path(b"/a/img.png"), Some("artifact-1".to_string()));
    let id = sha_path(b"/a/img.png");
    assert_eq!(cache.get_from_sha(&id), Some("artifact-1".to_string()));
}

#[test]
fn record_is_an_idempotent_upsert() {
    let mut cache = ExplorerLoaderCache::new();
    cache.insert_sha(b"/a/img.png", "one".to_string());
    cache.insert_sha(b"/a/img.png", "two".to_string());
    assert_eq!(cache.get_from_path(b"/a/img.png"), Some("two".to_string()));
    cache.insert_sha(b"/a/img.png", "two".to_string());
    assert_eq!(cache.get_from_path(b"/a/img.png"), Some("two".to_string()));
}

#[test]
fn remove_deletes_the_direct_entry_only() {
    let mut cache = ExplorerLoaderCache::new();
    cache.insert_sha(b"/a/img.png", "one".to_string());
    cache.insert_sha(b"/a/other.png", "two".to_string());
    cache.remove_path(b"/a/img.png");
    assert_eq!(cache.get_from_path(b"/a/img.png"), None);
    assert_eq!(cache.get_from_path(b"/a/other.png"), Some("two".to_string()));
}

#[test]
fn archive_root_inherits_the_recorded_artifact() {
    let mut cache = ExplorerLoaderCache::new();
    cache.insert_sha_recursive(b"/a/b.zip", b"/a/b.zip/page1.jpg", "X");
    assert_eq!(cache.get_from_path(b"/a/b.zip"), Some("X".to_string()));
    assert_eq!(cache.get_from_path(b"/a/b.zip/page1.jpg"), Some("X".to_string()));
    assert_eq!(cache.get_from_path(b"/a"), None);
}

#[test]
fn directory_root_does_not_inherit_but_descendants_do() {
    let mut cache = ExplorerLoaderCache::new();
    cache.insert_sha_recursive(b"/a/dir", b"/a/dir/sub/img.png", "X");
    assert_eq!(cache.get_from_path(b"/a/dir"), None);
    assert_eq!(cache.get_from_path(b"/a/dir/sub"), Some("X".to_string()));
    assert_eq!(cache.get_from_path(b"/a/dir/sub/img.png"), Some("X".to_string()));
}

#[test]
fn a_walk_that_never_meets_the_root_records_up_to_the_top() {
    let mut cache = ExplorerLoaderCache::new();
    cache.insert_sha_recursive(b"/elsewhere", b"/a/b/c.png", "X");
    assert_eq!(cache.get_from_path(b"/a/b/c.png"), Some("X".to_string()));
    assert_eq!(cache.get_from_path(b"/a/b"), Some("X".to_string()));
    assert_eq!(cache.get_from_path(b"/a"), Some("X".to_string()));
    assert_eq!(cache.get_from_path(b"/"), None);
}

#[test]
fn stale_entries_are_overwritten_by_a_new_recursive_record() {
    let mut cache = ExplorerLoaderCache::new();
    cache.insert_sha(b"/a/b.zip/page1.jpg", "stale".to_string());
    cache.insert_sha_recursive(b"/a/b.zip", b"/a/b.zip/page1.jpg", "fresh");
    assert_eq!(cache.get_from_path(b"/a/b.zip/page1.jpg"), Some("fresh".to_string()));
    assert_eq!(cache.get_from_path(b"/a/b.zip"), Some("fresh".to_string()));
}
