use gvk::download::{download_path, DownloadError};
use gvk::storage::{Lookup, Storage, StorageError};

fn empty_cache() -> Storage {
    Storage::new("/home/u/.cache/gvk".to_string(), "/home/u/.cache/gvk/files".to_string(), None)
}

fn hit(s: &Storage, url: &str) -> Option<String> {
    match s.lookup(url) {
        Ok(Lookup::Hit(p)) => Some(p),
        _ => None,
    }
}

#[test]
fn second_get_is_a_hit_with_the_same_path() {
    let mut s = empty_cache();
    let url = "http://x.org/a/pic.jpg";
    assert!(matches!(s.lookup(url), Ok(Lookup::Miss)));
    let first = s.store_fetched(url, Ok("/files/pic.jpg".to_string()));
    assert!(matches!(&first, Ok(p) if p == "/files/pic.jpg"));
    assert!(s.is_dirty());
    assert_eq!(hit(&s, url), Some("/files/pic.jpg".to_string()));
    assert_eq!(hit(&s, url), Some("/files/pic.jpg".to_string()));
}

#[test]
fn recorded_url_keeps_its_first_path() {
    let mut s = empty_cache();
    let url = "http://x.org/b.png";
    let _ = s.store_fetched(url, Ok("/files/b.png".to_string()));
    let again = s.store_fetched(url, Ok("/files/other.png".to_string()));
    assert!(matches!(&again, Ok(p) if p == "/files/b.png"));
    assert_eq!(hit(&s, url), Some("/files/b.png".to_string()));
}

#[test]
fn empty_reference_is_refused() {
    let mut s = empty_cache();
    assert!(matches!(s.lookup(""), Err(StorageError::InvalidReference)));
    assert!(matches!(s.store_fetched("", Ok("/p".to_string())), Err(StorageError::InvalidReference)));
    assert!(!s.is_dirty());
}

#[test]
fn failed_fetch_is_not_cached() {
    let mut s = empty_cache();
    let url = "http://x.org/c.png";
    let r = s.store_fetched(url, Err(DownloadError::UriGet));
    assert!(matches!(&r, Err(StorageError::DownloadFile(u)) if u == url));
    assert!(matches!(s.lookup(url), Ok(Lookup::Miss)));
    assert!(!s.is_dirty());
}

#[test]
fn persistence_round_trips() {
    let mut s = empty_cache();
    let _ = s.store_fetched("http://x.org/a.jpg", Ok("/f/a.jpg".to_string()));
    let _ = s.store_fetched("http://x.org/q\"uote.jpg", Ok("/f/q.jpg".to_string()));
    let text = s.save_state().expect("dirty cache has a state to save");
    let stamp = s.get_stamp();
    s.mark_saved(stamp);
    assert!(!s.is_dirty());
    assert!(s.save_state().is_none());
    let t = Storage::new("/h".to_string(), "/h/files".to_string(), Some(&text));
    assert_eq!(hit(&t, "http://x.org/a.jpg"), Some("/f/a.jpg".to_string()));
    assert_eq!(hit(&t, "http://x.org/q\"uote.jpg"), Some("/f/q.jpg".to_string()));
    assert!(!t.is_dirty());
}

#[test]
fn corrupted_cache_file_gives_an_empty_cache() {
    let t = Storage::new("/h".to_string(), "/h/files".to_string(), Some("{not json"));
    assert!(matches!(t.lookup("http://x.org/a.jpg"), Ok(Lookup::Miss)));
    let mut u = empty_cache();
    let _ = u.store_fetched("http://x.org/a.jpg", Ok("/f/a.jpg".to_string()));
    assert!(matches!(u.load_state("[1, 2]"), Err(StorageError::JsonDeserialize)));
    assert_eq!(hit(&u, "http://x.org/a.jpg"), Some("/f/a.jpg".to_string()));
    assert!(u.load_state("{\"http://y\": \"/f/y\"}").is_ok());
    assert_eq!(hit(&u, "http://y"), Some("/f/y".to_string()));
    assert!(matches!(u.lookup("http://x.org/a.jpg"), Ok(Lookup::Miss)));
}

#[test]
fn file_names() {
    let s = empty_cache();
    assert_eq!(s.get_cache_dir(), "/home/u/.cache/gvk");
    assert_eq!(s.get_files_dir(), "/home/u/.cache/gvk/files");
    assert_eq!(s.get_auth_file_name(), "/home/u/.cache/gvk/auth.json");
    assert_eq!(s.get_cache_files_name(), "/home/u/.cache/gvk/cache_files.json");
}

#[test]
fn download_paths() {
    assert_eq!(download_path("/d", "vx", Some("pic.jpg")), "/d/vxpic.jpg");
    assert_eq!(download_path("/d", "", Some("")), "/d/tmp.bin");
    assert_eq!(download_path("/d", "s", None), "/d/stmp.bin");
}

#[test]
fn error_messages() {
    assert_eq!(StorageError::OpenFile("a".to_string()).message(), "failed opening file a");
    assert_eq!(StorageError::InvalidReference.message(), "empty asset reference");
    assert_eq!(DownloadError::SaveFile("f".to_string()).message(), "failed writing file f");
    assert_eq!(DownloadError::Malformed.message(), "download URI is malformed or empty");
}

#[test]
fn cache_root_from_the_environment() {
    assert_eq!(Storage::cache_home_for(Some("/home/u"), None), "/home/u/.cache/gvk");
    assert_eq!(Storage::cache_home_for(None, Some("c")), "./c/gvk");
    assert_eq!(Storage::files_dir_for("/r"), "/r/files");
}

#[test]
fn silent_fallback_errors() {
    assert!(StorageError::OpenFile("a".to_string()).is_absent_or_malformed());
    assert!(StorageError::JsonDeserialize.is_absent_or_malformed());
    assert!(StorageError::JsonUtf8.is_absent_or_malformed());
    assert!(!StorageError::ReadWriteFile("e".to_string()).is_absent_or_malformed());
    assert!(!StorageError::CreateFile("f".to_string()).is_absent_or_malformed());
}

#[test]
fn entries_stored_while_saving_stay_dirty() {
    let mut s = empty_cache();
    let _ = s.store_fetched("http://x.org/a.jpg", Ok("/f/a.jpg".to_string()));
    let text = s.save_state().unwrap();
    let stamp = s.get_stamp();
    let _ = s.store_fetched("http://x.org/b.jpg", Ok("/f/b.jpg".to_string()));
    s.mark_saved(stamp);
    assert!(s.is_dirty());
    let reloaded = Storage::new("/h".to_string(), "/h/files".to_string(), Some(&text));
    assert!(matches!(reloaded.lookup("http://x.org/b.jpg"), Ok(Lookup::Miss)));
    let stamp = s.get_stamp();
    s.mark_saved(stamp);
    assert!(!s.is_dirty());
}
