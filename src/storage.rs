//! The asset cache: a persisted dictionary from a source URL to the local
//! path of the file downloaded from it.

use crate::download::DownloadError;
use std::collections::BTreeMap;
use vstd::prelude::*;

verus! {

/// The cache file name, relative to the cache root.
pub const CACHE_FILES_NAME: &'static str = "/cache_files.json";

/// The credential file name, relative to the cache root.
pub const AUTH_FILE_NAME: &'static str = "/auth.json";

/// No two entries have the same source URL.
pub open spec fn keys_unique(s: Seq<(String, String)>) -> bool {
    forall|i: int, j: int| 0 <= i < j < s.len() ==> s[i].0@ != s[j].0@
}

/// The dictionary that a list of (URL, path) entries stands for.
pub open spec fn entries_map(s: Seq<(String, String)>) -> Map<Seq<char>, Seq<char>>
    decreases s.len(),
{
    if s.len() == 0 {
        Map::empty()
    } else {
        entries_map(s.drop_last()).insert(s.last().0@, s.last().1@)
    }
}

/// JSON text of a URL-to-path dictionary, as serde_json writes it.
pub uninterp spec fn cache_json(m: Map<Seq<char>, Seq<char>>) -> Seq<char>;

/// The URL-to-path dictionary that serde_json reads from a text, if the text
/// is a JSON object of strings.
pub uninterp spec fn cache_from_json(s: Seq<char>) -> Option<Map<Seq<char>, Seq<char>>>;

/// Relies on `serde_json::to_string` on a `BTreeMap<&str, &str>`: the JSON
/// object of the dictionary, which depends on the dictionary alone.
#[verifier::external_body]
fn encode_files(files: &Vec<(String, String)>) -> (r: String)
    requires
        keys_unique(files@),
    ensures
        r@ == cache_json(entries_map(files@)),
        cache_from_json(r@) == Some(entries_map(files@)),
{
    let map: BTreeMap<&str, &str> = files.iter().map(|e| (e.0.as_str(), e.1.as_str())).collect();
    serde_json::to_string(&map).unwrap_or_default()
}

/// Relies on `serde_json::from_str` into a `BTreeMap<String, String>`: the
/// entries of the JSON object, with unique keys, or nothing when the text is
/// not such an object.
#[verifier::external_body]
fn decode_files(s: &str) -> (r: Option<Vec<(String, String)>>)
    ensures
        r is None <==> cache_from_json(s@) is None,
        r matches Some(v) ==> keys_unique(v@) && entries_map(v@) == cache_from_json(s@)->0,
{
    serde_json::from_str::<BTreeMap<String, String>>(s).ok().map(|m| m.into_iter().collect())
}

pub proof fn lemma_entries_map_push(s: Seq<(String, String)>, e: (String, String))
    ensures
        entries_map(s.push(e)) == entries_map(s).insert(e.0@, e.1@),
{
    assert(s.push(e).drop_last() =~= s);
}

/// With unique keys, the dictionary maps each entry's URL to its path, and
/// holds no other URL.
pub proof fn lemma_entries_map_unique(s: Seq<(String, String)>)
    requires
        keys_unique(s),
    ensures
        forall|i: int|
            0 <= i < s.len() ==> #[trigger] entries_map(s).contains_key(s[i].0@) && entries_map(
                s,
            )[s[i].0@] == s[i].1@,
        forall|u: Seq<char>|
            #[trigger] entries_map(s).contains_key(u) ==> exists|i: int|
                0 <= i < s.len() && s[i].0@ == u,
    decreases s.len(),
{
    if s.len() > 0 {
        let p = s.drop_last();
        assert(keys_unique(p));
        lemma_entries_map_unique(p);
        assert forall|i: int| 0 <= i < s.len() implies #[trigger] entries_map(s).contains_key(
            s[i].0@,
        ) && entries_map(s)[s[i].0@] == s[i].1@ by {
            assert(entries_map(s) == entries_map(p).insert(s.last().0@, s.last().1@));
            if i < s.len() - 1 {
                assert(p[i] == s[i]);
                assert(s[i].0@ != s[s.len() - 1].0@);
                assert(entries_map(p).contains_key(p[i].0@));
            }
        }
        assert forall|u: Seq<char>| #[trigger] entries_map(s).contains_key(u) implies exists|
            i: int,
        |
            0 <= i < s.len() && s[i].0@ == u by {
            if u != s.last().0@ {
                assert(entries_map(p).contains_key(u));
                let i = choose|i: int| 0 <= i < p.len() && p[i].0@ == u;
                assert(s[i] == p[i]);
            } else {
                assert(s[s.len() - 1].0@ == u);
            }
        }
    }
}

/// What a lookup decides for `u` on the dictionary `m`: `None` for an
/// empty reference, the cached path for a hit, `Some(None)` for a miss.
pub open spec fn lookup_spec(m: Map<Seq<char>, Seq<char>>, u: Seq<char>) -> Option<Option<Seq<char>>> {
    if u.len() == 0 {
        None
    } else if m.contains_key(u) {
        Some(Some(m[u]))
    } else {
        Some(None)
    }
}

/// The path returned and the dictionary kept after a fetch of `u` that gave
/// `fetched` (`None` when it failed).
pub open spec fn stored_spec(m: Map<Seq<char>, Seq<char>>, u: Seq<char>, fetched: Option<Seq<char>>) -> (
    Option<Seq<char>>,
    Map<Seq<char>, Seq<char>>,
) {
    if u.len() == 0 {
        (None, m)
    } else {
        match fetched {
            None => (None, m),
            Some(p) => if m.contains_key(u) {
                (Some(m[u]), m)
            } else {
                (Some(p), m.insert(u, p))
            },
        }
    }
}

/// Get-or-fetch called twice with a URL: when it was not cached, the first
/// call misses and fetches once, and after a successful fetch the second call
/// is a hit with the same path and fetches nothing; when it was cached, the
/// lookup (which changes nothing) is a hit with its path, so neither call
/// fetches.
pub proof fn lemma_get_or_fetch_twice(m: Map<Seq<char>, Seq<char>>, u: Seq<char>, p: Seq<char>)
    requires
        u.len() > 0,
    ensures
        !m.contains_key(u) ==> lookup_spec(m, u) == Some(None::<Seq<char>>) && stored_spec(
            m,
            u,
            Some(p),
        ).0 == Some(p) && lookup_spec(stored_spec(m, u, Some(p)).1, u) == Some(Some(p)),
        m.contains_key(u) ==> lookup_spec(m, u) == Some(Some(m[u])),
{
}

/// Persisting round-trips: a cache started from the text that `save_state`
/// gave for a dictionary holds that dictionary, and a text that does not read
/// as a dictionary (a corrupted file) gives an empty cache.
pub proof fn lemma_persistence_round_trip(saved: Map<Seq<char>, Seq<char>>, text: Seq<char>)
    requires
        cache_from_json(text) == Some(saved),
    ensures
        restored(text) == saved,
        forall|t: Seq<char>| cache_from_json(t) is None ==> #[trigger] restored(t) == Map::<
            Seq<char>,
            Seq<char>,
        >::empty(),
{
}

/// The dictionary a cache starts from, given the text of its file.
pub open spec fn restored(text: Seq<char>) -> Map<Seq<char>, Seq<char>> {
    match cache_from_json(text) {
        Some(m) => m,
        None => Map::empty(),
    }
}

/// An empty reference is refused before any fetch, whatever the dictionary.
pub proof fn lemma_empty_reference_refused(m: Map<Seq<char>, Seq<char>>)
    ensures
        lookup_spec(m, Seq::empty()) is None,
        stored_spec(m, Seq::empty(), None).1 == m,
{
}

/// Errors of the cache and of the credential store.
pub enum StorageError {
    JsonSerialize,
    JsonDeserialize,
    JsonUtf8,
    CreateFile(String),
    OpenFile(String),
    ReadWriteFile(String),
    /// Fetching the asset at this URL failed; nothing was cached for it.
    DownloadFile(String),
    FileCacheDictionary,
    /// The asset reference is empty; no fetch was attempted.
    InvalidReference,
}

impl StorageError {
    /// The stored state is absent or unreadable as such: the caller falls
    /// back silently (to an empty cache, or to signing in again). Other
    /// errors are worth a warning.
    pub fn is_absent_or_malformed(&self) -> (r: bool)
        ensures
            r == (self is OpenFile || self is JsonDeserialize || self is JsonUtf8),
    {
        match self {
            StorageError::OpenFile(_) => true,
            StorageError::JsonDeserialize => true,
            StorageError::JsonUtf8 => true,
            _ => false,
        }
    }

    /// A sentence that says what went wrong.
    pub fn message(&self) -> (r: String)
        ensures
            r@ == match self {
                StorageError::JsonSerialize => "serializing to JSON failed"@,
                StorageError::JsonDeserialize => "deserializing from JSON failed"@,
                StorageError::JsonUtf8 => "non-utf8 content while deserializing from JSON"@,
                StorageError::CreateFile(n) => "failed creating file "@ + n@,
                StorageError::OpenFile(n) => "failed opening file "@ + n@,
                StorageError::ReadWriteFile(e) => "failed reading or writing file: "@ + e@,
                StorageError::DownloadFile(n) => "failed downloading file "@ + n@,
                StorageError::FileCacheDictionary => "failed to access file cache dictionary"@,
                StorageError::InvalidReference => "empty asset reference"@,
            },
    {
        match self {
            StorageError::JsonSerialize => "serializing to JSON failed".to_owned(),
            StorageError::JsonDeserialize => "deserializing from JSON failed".to_owned(),
            StorageError::JsonUtf8 => "non-utf8 content while deserializing from JSON".to_owned(),
            StorageError::CreateFile(n) => "failed creating file ".to_owned().concat(n.as_str()),
            StorageError::OpenFile(n) => "failed opening file ".to_owned().concat(n.as_str()),
            StorageError::ReadWriteFile(e) => "failed reading or writing file: ".to_owned().concat(
                e.as_str(),
            ),
            StorageError::DownloadFile(n) => "failed downloading file ".to_owned().concat(
                n.as_str(),
            ),
            StorageError::FileCacheDictionary => "failed to access file cache dictionary".to_owned(),
            StorageError::InvalidReference => "empty asset reference".to_owned(),
        }
    }
}

/// What a cache lookup decides for one URL.
pub enum Lookup {
    /// The URL is cached at this local path: no fetch is needed.
    Hit(String),
    /// The URL is not cached: it has to be fetched.
    Miss,
}

/// The asset cache: URL to local path, with a flag that says whether it has
/// changed since it was last persisted.
pub struct Storage {
    cache_home: String,
    cache_files: String,
    files: Vec<(String, String)>,
    is_files_dirty: bool,
    generation: u64,
}

impl View for Storage {
    type V = Map<Seq<char>, Seq<char>>;

    closed spec fn view(&self) -> Map<Seq<char>, Seq<char>> {
        entries_map(self.files@)
    }
}

impl Storage {
    /// Well-formedness: no URL has two entries.
    pub closed spec fn wf(&self) -> bool {
        keys_unique(self.files@)
    }

    /// The cache root directory.
    pub closed spec fn home(&self) -> Seq<char> {
        self.cache_home@
    }

    /// The directory that downloaded files go to.
    pub closed spec fn files_dir(&self) -> Seq<char> {
        self.cache_files@
    }

    /// The dictionary changed since it was last persisted.
    pub closed spec fn dirty(&self) -> bool {
        self.is_files_dirty
    }

    /// A stamp that changes whenever the dictionary does.
    pub closed spec fn stamp(&self) -> u64 {
        self.generation
    }

    /// A cache rooted at `cache_home` that downloads into `cache_files`,
    /// starting from the persisted dictionary `saved` when there is one. A
    /// saved text that is not a JSON object of strings gives an empty cache.
    pub fn new(cache_home: String, cache_files: String, saved: Option<&str>) -> (r: Storage)
        ensures
            r.wf(),
            r.home() == cache_home@,
            r.files_dir() == cache_files@,
            !r.dirty(),
            r@ == match saved {
                Some(text) => restored(text@),
                None => Map::empty(),
            },
    {
        let files = match saved {
            Some(text) => match decode_files(text) {
                Some(v) => v,
                None => Vec::new(),
            },
            None => Vec::new(),
        };
        proof {
            if files@.len() == 0 {
                assert(entries_map(files@) =~= Map::empty());
            }
        }
        Storage { cache_home, cache_files, files, is_files_dirty: false, generation: 0 }
    }

    /// The cache root: `$HOME/$XDG_CACHE_HOME/gvk`, with `.` for an unknown
    /// home and `.cache` for an unknown cache directory.
    pub fn cache_home_for(home: Option<&str>, cache_dir: Option<&str>) -> (r: String)
        ensures
            r@ == match home {
                Some(h) => h@,
                None => "."@,
            } + seq!['/'] + match cache_dir {
                Some(c) => c@,
                None => ".cache"@,
            } + "/gvk"@,
    {
        let mut r = match home {
            Some(h) => h.to_owned(),
            None => ".".to_owned(),
        };
        r.push('/');
        let r = match cache_dir {
            Some(c) => r.concat(c),
            None => r.concat(".cache"),
        };
        r.concat("/gvk")
    }

    /// The directory for downloaded files under the cache root.
    pub fn files_dir_for(cache_home: &str) -> (r: String)
        ensures
            r@ == cache_home@ + "/files"@,
    {
        cache_home.to_owned().concat("/files")
    }

    /// The cache root directory.
    pub fn get_cache_dir(&self) -> (r: &str)
        ensures
            r@ == self.home(),
    {
        self.cache_home.as_str()
    }

    /// The directory that downloaded files go to.
    pub fn get_files_dir(&self) -> (r: &str)
        ensures
            r@ == self.files_dir(),
    {
        self.cache_files.as_str()
    }

    /// The path of the credential file.
    pub fn get_auth_file_name(&self) -> (r: String)
        ensures
            r@ == self.home() + AUTH_FILE_NAME@,
    {
        self.cache_home.clone().concat(AUTH_FILE_NAME)
    }

    /// The path of the persisted dictionary.
    pub fn get_cache_files_name(&self) -> (r: String)
        ensures
            r@ == self.home() + CACHE_FILES_NAME@,
    {
        self.cache_home.clone().concat(CACHE_FILES_NAME)
    }

    /// The dictionary changed since it was last persisted.
    pub fn is_dirty(&self) -> (r: bool)
        ensures
            r == self.dirty(),
    {
        self.is_files_dirty
    }

    /// The current stamp.
    pub fn get_stamp(&self) -> (r: u64)
        ensures
            r == self.stamp(),
    {
        self.generation
    }

    /// The next stamp.
    fn bump(&mut self)
        ensures
            final(self).stamp() != old(self).stamp(),
            final(self)@ == old(self)@,
            final(self).files == old(self).files,
            final(self).dirty() == old(self).dirty(),
            final(self).home() == old(self).home(),
            final(self).files_dir() == old(self).files_dir(),
    {
        self.generation = if self.generation == u64::MAX {
            0
        } else {
            self.generation + 1
        };
    }

    /// The index of the entry for `url`, if there is one.
    fn find(&self, url: &String) -> (r: Option<usize>)
        ensures
            r matches Some(i) ==> i < self.files@.len() && self.files@[i as int].0@ == url@,
            r is None ==> forall|i: int|
                0 <= i < self.files@.len() ==> self.files@[i].0@ != url@,
    {
        let mut i: usize = 0;
        while i < self.files.len()
            invariant
                i <= self.files@.len(),
                forall|k: int| 0 <= k < i ==> self.files@[k].0@ != url@,
            decreases self.files@.len() - i,
        {
            if self.files[i].0 == *url {
                return Some(i);
            }
            i = i + 1;
        }
        None
    }

    /// The first half of get-or-fetch: an empty reference is refused with no
    /// fetch; a cached URL gives its path with no I/O; any other URL has to
    /// be fetched.
    pub fn lookup(&self, url: &str) -> (r: Result<Lookup, StorageError>)
        requires
            self.wf(),
        ensures
            url@.len() == 0 ==> r matches Err(StorageError::InvalidReference),
            url@.len() > 0 && self@.contains_key(url@) ==> (r matches Ok(Lookup::Hit(p)) && p@
                == self@[url@]),
            url@.len() > 0 && !self@.contains_key(url@) ==> r matches Ok(Lookup::Miss),
            match r {
                Err(_) => lookup_spec(self@, url@) is None,
                Ok(Lookup::Hit(p)) => lookup_spec(self@, url@) == Some(Some(p@)),
                Ok(Lookup::Miss) => lookup_spec(self@, url@) == Some(None::<Seq<char>>),
            },
    {
        proof {
            lemma_entries_map_unique(self.files@);
        }
        if url.is_empty() {
            return Err(StorageError::InvalidReference);
        }
        let key = url.to_owned();
        match self.find(&key) {
            Some(i) => Ok(Lookup::Hit(self.files[i].1.clone())),
            None => Ok(Lookup::Miss),
        }
    }

    /// The second half of get-or-fetch, after a miss: a fetched file is
    /// recorded under its URL, the cache becomes dirty and the path is
    /// returned; a failed fetch records nothing, so a later reference retries.
    /// A URL that was recorded meanwhile keeps its first path.
    pub fn store_fetched(&mut self, url: &str, fetched: Result<String, DownloadError>) -> (r:
        Result<String, StorageError>)
        requires
            old(self).wf(),
        ensures
            final(self).wf(),
            fetched is Ok && url@.len() > 0 && !old(self)@.contains_key(url@) ==> (r matches Ok(p)
                && p@ == fetched->Ok_0@ && final(self)@ == old(self)@.insert(url@, p@)
                && final(self).dirty() && final(self).stamp() != old(self).stamp()),
            !(fetched is Ok && url@.len() > 0 && !old(self)@.contains_key(url@))
                ==> final(self).stamp() == old(self).stamp(),
            fetched is Ok && url@.len() > 0 && old(self)@.contains_key(url@) ==> (r matches Ok(p)
                && p@ == old(self)@[url@] && final(self)@ == old(self)@
                && final(self).dirty() == old(self).dirty()),
            fetched is Err || url@.len() == 0 ==> final(self)@ == old(self)@ && final(self).dirty()
                == old(self).dirty(),
            fetched is Err && url@.len() > 0 ==> (r matches Err(StorageError::DownloadFile(u))
                && u@ == url@),
            url@.len() == 0 ==> r matches Err(StorageError::InvalidReference),
            final(self).home() == old(self).home(),
            final(self).files_dir() == old(self).files_dir(),
            (match r {
                Ok(p) => Some(p@),
                Err(_) => None,
            }, final(self)@) == stored_spec(
                old(self)@,
                url@,
                match fetched {
                    Ok(p) => Some(p@),
                    Err(_) => None,
                },
            ),
    {
        if url.is_empty() {
            return Err(StorageError::InvalidReference);
        }
        match fetched {
            Ok(path) => {
                let key = url.to_owned();
                proof {
                    lemma_entries_map_unique(self.files@);
                }
                match self.find(&key) {
                    Some(i) => {
                        return Ok(self.files[i].1.clone());
                    },
                    None => {
                        let ghost old_files = self.files@;
                        proof {
                            lemma_entries_map_push(old_files, (key, path));
                        }
                        self.files.push((key, path.clone()));
                        proof {
                            assert(self.files@ == old_files.push((key, path)));
                        }
                    },
                }
                self.is_files_dirty = true;
                self.bump();
                Ok(path)
            },
            Err(_) => Err(StorageError::DownloadFile(url.to_owned())),
        }
    }

    /// The JSON text to persist, when the dictionary changed since it was
    /// last persisted.
    pub fn save_state(&self) -> (r: Option<String>)
        requires
            self.wf(),
        ensures
            r is Some <==> self.dirty(),
            r matches Some(t) ==> t@ == cache_json(self@) && cache_from_json(t@) == Some(self@),
    {
        if self.is_files_dirty {
            Some(encode_files(&self.files))
        } else {
            None
        }
    }

    /// Records that the dictionary as it stood at `stamp` was persisted: the
    /// cache is clean only when it has not changed since.
    pub fn mark_saved(&mut self, stamp: u64)
        requires
            old(self).wf(),
        ensures
            final(self).wf(),
            final(self)@ == old(self)@,
            final(self).dirty() == (old(self).dirty() && stamp != old(self).stamp()),
            final(self).stamp() == old(self).stamp(),
            final(self).home() == old(self).home(),
            final(self).files_dir() == old(self).files_dir(),
    {
        if stamp == self.generation {
            self.is_files_dirty = false;
        }
    }

    /// Replaces the dictionary by the one persisted in `text`; a text that is
    /// not a JSON object of strings is refused and changes nothing.
    pub fn load_state(&mut self, text: &str) -> (r: Result<(), StorageError>)
        requires
            old(self).wf(),
        ensures
            final(self).wf(),
            cache_from_json(text@) is None ==> (r matches Err(StorageError::JsonDeserialize)
                && final(self)@ == old(self)@),
            cache_from_json(text@) matches Some(m) ==> r is Ok && final(self)@ == m
                && final(self).stamp() != old(self).stamp(),
            cache_from_json(text@) is None ==> final(self).stamp() == old(self).stamp(),
            final(self).dirty() == old(self).dirty(),
            final(self).home() == old(self).home(),
            final(self).files_dir() == old(self).files_dir(),
    {
        match decode_files(text) {
            Some(v) => {
                self.files = v;
                self.bump();
                Ok(())
            },
            None => Err(StorageError::JsonDeserialize),
        }
    }
}

} // verus!
