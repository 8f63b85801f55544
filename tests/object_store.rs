use std::collections::HashMap;
use stringvault::{FileObject, ObjectStore, ObjectStoreTrait, RunTime};

fn config() -> HashMap<String, String> {
    let mut c = HashMap::new();
    c.insert("region".to_string(), "eu-west-1".to_string());
    c
}

#[test]
fn s3_uri_names_a_bucket() {
    let store = ObjectStore::new("s3://my-bucket", config()).unwrap();
    assert!(matches!(store, ObjectStore::S3Bucket(_)));
    assert_eq!(store.name(), "my-bucket");
    assert_eq!(store.config(), &config());
}

#[test]
fn localfs_uri_names_a_directory() {
    let store = ObjectStore::new("localfs://tmp/data", HashMap::new()).unwrap();
    match &store {
        ObjectStore::LocalFs(fs) => assert_eq!(fs.name(), "tmp/data"),
        _ => panic!("expected a local store"),
    }
    assert_eq!(store.name(), "tmp/data");
    assert!(store.config().is_empty());
}

#[test]
fn repeated_scheme_is_stripped_entirely() {
    let store = ObjectStore::new("s3://s3://b", HashMap::new()).unwrap();
    assert_eq!(store.name(), "b");
}

#[test]
fn other_uris_are_unsupported() {
    assert_eq!(ObjectStore::new("ftp://x", HashMap::new()).err(), Some("Unsupported object store.".to_string()));
    assert_eq!(ObjectStore::new("s3:/x", HashMap::new()).err(), Some("Unsupported object store.".to_string()));
}

#[test]
fn file_object_keeps_its_fields() {
    let mut tags = HashMap::new();
    tags.insert("ETag".to_string(), "abc".to_string());
    let f = FileObject::new("dir/file.txt".to_string(), 42, Some(1_700_000_000), Some(tags.clone()));
    assert_eq!(f.name(), "dir/file.txt");
    assert_eq!(f.size(), 42);
    assert_eq!(f.modified(), Some(1_700_000_000));
    assert_eq!(f.tags(), &Some(tags));
    let p = FileObject::new("dir/".to_string(), 0, None, None);
    assert_eq!(p.modified(), None);
    assert_eq!(p.tags(), &None);
}

#[test]
fn runtime_starts_at_home_and_records_changes() {
    let mut rt = RunTime::new();
    assert_eq!(rt.previous_url(), "/home");
    assert!(!rt.vault_initialized());
    rt.set_previous_url("/settings".to_string());
    rt.set_vault_initialized(true);
    assert_eq!(rt.previous_url(), "/settings");
    assert!(rt.vault_initialized());
    let d = RunTime::default();
    assert_eq!(d.previous_url(), "/home");
}

fn parts(uri: &str) -> (Option<String>, Option<String>, Option<String>) {
    stringvault::ObjectStoreHandler::parse_uri(uri.to_string())
}

fn some(s: &str) -> Option<String> {
    Some(s.to_string())
}

#[test]
fn parse_uri_splits_scheme_bucket_and_prefix() {
    assert_eq!(parts(""), (None, None, None));
    assert_eq!(parts("s3://"), (some("s3"), None, None));
    assert_eq!(parts("s3://bucket"), (some("s3"), some("bucket"), None));
    assert_eq!(parts("s3://bucket/"), (some("s3"), some("bucket"), None));
    assert_eq!(parts("s3://bucket/dir"), (some("s3"), some("bucket"), some("dir/")));
    assert_eq!(parts("s3://bucket/dir/sub/"), (some("s3"), some("bucket"), some("dir/sub/")));
    assert_eq!(parts("localfs://tmp"), (some("localfs"), some("tmp"), None));
}

#[test]
fn parse_uri_without_scheme_reads_bucket_and_prefix() {
    assert_eq!(parts("bucket/dir"), (None, some("bucket"), some("dir/")));
    assert_eq!(parts("bucket"), (None, some("bucket"), None));
    assert_eq!(parts("S3://x"), (None, some("S3:"), some("/x/")));
}
