//! Object stores (S3 buckets and local directories) and the files listed in them.
use std::collections::HashMap;
use vstd::prelude::*;

verus! {

/// URI prefix of an S3 bucket.
pub const S3_SCHEME: &'static str = "s3://";

/// URI prefix of a local directory.
pub const LOCALFS_SCHEME: &'static str = "localfs://";

/// Error text for a URI of any other kind.
pub const UNSUPPORTED_STORE: &'static str = "Unsupported object store.";

/// `s` begins with `p`.
pub open spec fn has_prefix(s: Seq<char>, p: Seq<char>) -> bool {
    p.len() <= s.len() && s.subrange(0, p.len() as int) == p
}

/// `s` with every leading repetition of a non-empty `p` removed.
pub open spec fn trim_prefixes(s: Seq<char>, p: Seq<char>) -> Seq<char>
    decreases s.len(),
{
    if p.len() > 0 && has_prefix(s, p) {
        trim_prefixes(s.subrange(p.len() as int, s.len() as int), p)
    } else {
        s
    }
}

/// Whether `s` begins with `p`.
fn starts_with(s: &str, p: &str) -> (r: bool)
    ensures
        r == has_prefix(s@, p@),
{
    let n = s.unicode_len();
    let m = p.unicode_len();
    if m > n {
        return false;
    }
    let mut i: usize = 0;
    while i < m
        invariant
            n == s@.len(),
            m == p@.len(),
            m <= n,
            i <= m,
            forall|j: int| 0 <= j < i ==> s@[j] == p@[j],
        decreases m - i,
    {
        if s.get_char(i) != p.get_char(i) {
            assert(s@.subrange(0, m as int)[i as int] != p@[i as int]);
            return false;
        }
        i = i + 1;
    }
    assert(s@.subrange(0, m as int) =~= p@);
    true
}

/// `s` with every leading repetition of `p` removed; `s` itself when `p` is empty.
fn trim_start_matches<'a>(s: &'a str, p: &str) -> (r: &'a str)
    ensures
        r@ == trim_prefixes(s@, p@),
{
    let m = p.unicode_len();
    if m == 0 {
        return s;
    }
    let mut rest = s;
    while starts_with(rest, p)
        invariant
            m == p@.len(),
            m > 0,
            trim_prefixes(rest@, p@) == trim_prefixes(s@, p@),
        decreases rest@.len(),
    {
        let n = rest.unicode_len();
        rest = rest.substring_char(m, n);
    }
    rest
}

/// What every kind of object store offers.
pub trait ObjectStoreTrait {
    /// The store's name (bucket or directory).
    spec fn spec_name(&self) -> Seq<char>;

    /// The store's settings.
    spec fn spec_config(&self) -> HashMap<String, String>;

    fn name(&self) -> (r: &str)
        ensures
            r@ == self.spec_name(),
    ;

    fn config(&self) -> (r: &HashMap<String, String>)
        ensures
            *r == self.spec_config(),
    ;
}

/// A directory of the local file system.
pub struct LocalFs {
    name: String,
    config: HashMap<String, String>,
}

impl LocalFs {
    /// A local store for the directory `name`.
    pub fn new(name: &str, config: HashMap<String, String>) -> (r: Result<LocalFs, &'static str>)
        ensures
            r matches Ok(fs) && fs.spec_name() == name@ && fs.spec_config() == config,
    {
        Ok(LocalFs { name: name.to_owned(), config })
    }
}

impl ObjectStoreTrait for LocalFs {
    closed spec fn spec_name(&self) -> Seq<char> {
        self.name@
    }

    closed spec fn spec_config(&self) -> HashMap<String, String> {
        self.config
    }

    fn name(&self) -> (r: &str) {
        self.name.as_str()
    }

    fn config(&self) -> (r: &HashMap<String, String>) {
        &self.config
    }
}

/// An S3 bucket and the settings (credentials, region) to reach it.
pub struct S3Bucket {
    name: String,
    config: HashMap<String, String>,
}

impl S3Bucket {
    /// The bucket `name` with its settings.
    pub fn new(name: &str, config: HashMap<String, String>) -> (r: S3Bucket)
        ensures
            r.spec_name() == name@,
            r.spec_config() == config,
    {
        S3Bucket { name: name.to_owned(), config }
    }
}

impl ObjectStoreTrait for S3Bucket {
    closed spec fn spec_name(&self) -> Seq<char> {
        self.name@
    }

    closed spec fn spec_config(&self) -> HashMap<String, String> {
        self.config
    }

    fn name(&self) -> (r: &str) {
        self.name.as_str()
    }

    fn config(&self) -> (r: &HashMap<String, String>) {
        &self.config
    }
}

/// A store of one of the supported kinds.
pub enum ObjectStore {
    S3Bucket(S3Bucket),
    LocalFs(LocalFs),
}

impl ObjectStore {
    /// The store's name.
    pub open spec fn spec_name(&self) -> Seq<char> {
        match self {
            ObjectStore::S3Bucket(b) => b.spec_name(),
            ObjectStore::LocalFs(fs) => fs.spec_name(),
        }
    }

    /// The store's settings.
    pub open spec fn spec_config(&self) -> HashMap<String, String> {
        match self {
            ObjectStore::S3Bucket(b) => b.spec_config(),
            ObjectStore::LocalFs(fs) => fs.spec_config(),
        }
    }

    /// The store that a URI names: `s3://bucket` or `localfs://path`, the scheme
    /// stripped from the name; any other URI is refused.
    pub fn new(name: &str, config: HashMap<String, String>) -> (r: Result<ObjectStore, String>)
        ensures
            match r {
                Ok(ObjectStore::S3Bucket(b)) => has_prefix(name@, S3_SCHEME@) && b.spec_name()
                    == trim_prefixes(name@, S3_SCHEME@) && b.spec_config() == config,
                Ok(ObjectStore::LocalFs(fs)) => !has_prefix(name@, S3_SCHEME@) && has_prefix(
                    name@,
                    LOCALFS_SCHEME@,
                ) && fs.spec_name() == trim_prefixes(name@, LOCALFS_SCHEME@) && fs.spec_config()
                    == config,
                Err(e) => !has_prefix(name@, S3_SCHEME@) && !has_prefix(name@, LOCALFS_SCHEME@)
                    && e@ == UNSUPPORTED_STORE@,
            },
    {
        if starts_with(name, S3_SCHEME) {
            let bucket_name = trim_start_matches(name, S3_SCHEME);
            Ok(ObjectStore::S3Bucket(S3Bucket::new(bucket_name, config)))
        } else if starts_with(name, LOCALFS_SCHEME) {
            let path = trim_start_matches(name, LOCALFS_SCHEME);
            match LocalFs::new(path, config) {
                Ok(fs) => Ok(ObjectStore::LocalFs(fs)),
                Err(e) => Err(e.to_owned()),
            }
        } else {
            Err(UNSUPPORTED_STORE.to_owned())
        }
    }

    /// The store's name.
    pub fn name(&self) -> (r: &str)
        ensures
            r@ == self.spec_name(),
    {
        match self {
            ObjectStore::S3Bucket(bucket) => bucket.name(),
            ObjectStore::LocalFs(local_fs) => local_fs.name(),
        }
    }

    /// The store's settings.
    pub fn config(&self) -> (r: &HashMap<String, String>)
        ensures
            *r == self.spec_config(),
    {
        match self {
            ObjectStore::S3Bucket(bucket) => bucket.config(),
            ObjectStore::LocalFs(local_fs) => local_fs.config(),
        }
    }
}

/// A file or a common prefix ("directory") found in a store.
#[derive(Debug, Clone)]
pub struct FileObject {
    name: String,
    size: u64,
    modified: Option<u64>,
    tags: Option<HashMap<String, String>>,
}

impl FileObject {
    /// Its key or path.
    pub closed spec fn spec_name(&self) -> Seq<char> {
        self.name@
    }

    /// Its size in bytes.
    pub closed spec fn spec_size(&self) -> u64 {
        self.size
    }

    /// Its modification time in seconds since the epoch; none for a prefix.
    pub closed spec fn spec_modified(&self) -> Option<u64> {
        self.modified
    }

    /// Its tags, such as the ETag of an S3 object.
    pub closed spec fn spec_tags(&self) -> Option<HashMap<String, String>> {
        self.tags
    }

    pub fn new(name: String, size: u64, modified: Option<u64>, tags: Option<HashMap<String, String>>) -> (r:
        FileObject)
        ensures
            r.spec_name() == name@,
            r.spec_size() == size,
            r.spec_modified() == modified,
            r.spec_tags() == tags,
    {
        FileObject { name, size, modified, tags }
    }

    pub fn name(&self) -> (r: &str)
        ensures
            r@ == self.spec_name(),
    {
        self.name.as_str()
    }

    pub fn size(&self) -> (r: u64)
        ensures
            r == self.spec_size(),
    {
        self.size
    }

    pub fn modified(&self) -> (r: Option<u64>)
        ensures
            r == self.spec_modified(),
    {
        self.modified
    }

    pub fn tags(&self) -> (r: &Option<HashMap<String, String>>)
        ensures
            *r == self.spec_tags(),
    {
        &self.tags
    }
}

/// What listing a URI gives: the buckets of an account, or the files under a prefix.
pub enum ListObjectsResult {
    Buckets(Vec<ObjectStore>),
    FileObjects(Vec<FileObject>),
}

/// One object of an S3 `ListBucketResult`.
#[allow(non_snake_case)]
pub struct Content {
    pub Key: String,
    pub LastModified: String,
    pub Size: u64,
    pub ETag: String,
}

/// One common prefix of an S3 `ListBucketResult`.
#[allow(non_snake_case)]
pub struct CommonPrefix {
    pub Prefix: String,
}

/// Pattern that finds the scheme at the start of a URI.
pub const SCHEME_PATTERN: &'static str = "^(?P<scheme>[a-z0-9]+)://";

/// A character that a scheme may hold.
pub open spec fn is_scheme_char(c: char) -> bool {
    ('a' <= c && c <= 'z') || ('0' <= c && c <= '9')
}

/// `uri` opens with `n` scheme characters followed by `://`.
pub open spec fn scheme_ends_at(uri: Seq<char>, n: int) -> bool {
    &&& 0 < n && n + 3 <= uri.len()
    &&& forall|i: int| 0 <= i < n ==> is_scheme_char(#[trigger] uri[i])
    &&& uri[n] == ':' && uri[n + 1] == '/' && uri[n + 2] == '/'
}

/// The scheme that opens `uri`, if any.
pub open spec fn scheme_of(uri: Seq<char>) -> Option<Seq<char>> {
    if exists|n: int| scheme_ends_at(uri, n) {
        Some(uri.subrange(0, choose|n: int| scheme_ends_at(uri, n)))
    } else {
        None
    }
}

/// `i` is the position of the first `/` in `path`.
pub open spec fn first_slash_at(path: Seq<char>, i: int) -> bool {
    0 <= i < path.len() && path[i] == '/' && forall|j: int| 0 <= j < i ==> path[j] != '/'
}

/// A non-empty prefix, ending in `/`.
pub open spec fn as_prefix(p: Seq<char>) -> Option<Seq<char>> {
    if p.len() == 0 {
        None
    } else if p.last() == '/' {
        Some(p)
    } else {
        Some(p.push('/'))
    }
}

/// Bucket and prefix of `bucket[/prefix]`.
pub open spec fn split_bucket(path: Seq<char>) -> (Option<Seq<char>>, Option<Seq<char>>) {
    if exists|i: int| first_slash_at(path, i) {
        let i = choose|i: int| first_slash_at(path, i);
        (Some(path.subrange(0, i)), as_prefix(path.subrange(i + 1, path.len() as int)))
    } else {
        (Some(path), None)
    }
}

/// Scheme, bucket and prefix of a URI `[scheme://]bucket[/prefix]`.
pub open spec fn parse_uri_spec(uri: Seq<char>) -> (Option<Seq<char>>, Option<Seq<char>>, Option<Seq<char>>) {
    if uri.len() == 0 {
        (None, None, None)
    } else {
        match scheme_of(uri) {
            Some(s) => {
                let rest = uri.subrange(s.len() + 3 as int, uri.len() as int);
                if rest.len() == 0 {
                    (Some(s), None, None)
                } else {
                    (Some(s), split_bucket(rest).0, split_bucket(rest).1)
                }
            },
            None => (None, split_bucket(uri).0, split_bucket(uri).1),
        }
    }
}

/// The view of an optional string.
pub open spec fn opt_view(o: Option<String>) -> Option<Seq<char>> {
    match o {
        Some(s) => Some(s@),
        None => None,
    }
}

/// Relies on `regex::Regex::captures` with the pattern `^(?P<scheme>[a-z0-9]+)://`:
/// the `scheme` group when `uri` opens with lower-case letters or digits and `://`.
#[verifier::external_body]
fn capture_scheme(pattern: &str, uri: &str) -> (r: Option<String>)
    requires
        pattern@ == SCHEME_PATTERN@,
    ensures
        opt_view(r) == scheme_of(uri@),
{
    let re = regex::Regex::new(pattern).ok()?;
    re.captures(uri).and_then(|c| c.name("scheme")).map(|m| m.as_str().to_string())
}

/// Splits `path` at its first `/` into bucket and prefix; the prefix is given a
/// trailing `/` and dropped when empty.
fn split_bucket_exec(path: &str) -> (r: (Option<String>, Option<String>))
    ensures
        (opt_view(r.0), opt_view(r.1)) == split_bucket(path@),
{
    let n = path.unicode_len();
    let mut i: usize = 0;
    while i < n
        invariant
            n == path@.len(),
            i <= n,
            forall|j: int| 0 <= j < i ==> path@[j] != '/',
        decreases n - i,
    {
        if path.get_char(i) == '/' {
            assert(first_slash_at(path@, i as int));
            let bucket = path.substring_char(0, i).to_owned();
            let rest = path.substring_char(i + 1, n);
            let m = rest.unicode_len();
            let prefix = if m == 0 {
                None
            } else if rest.get_char(m - 1) == '/' {
                Some(rest.to_owned())
            } else {
                let mut p = rest.to_owned();
                p.append("/");
                proof {
                    reveal_strlit("/");
                    assert(p@ =~= rest@.push('/'));
                }
                Some(p)
            };
            proof {
                let k = choose|k: int| first_slash_at(path@, k);
                assert(k == i as int) by {
                    if k < i as int {
                        assert(path@[k] != '/');
                    } else if k > i as int {
                        assert(path@[i as int] != '/');
                    }
                }
            }
            return (Some(bucket), prefix);
        }
        i = i + 1;
    }
    (Some(path.to_owned()), None)
}

/// Declares `serde_json::Value`, carried through unread.
#[verifier::external_type_specification]
#[verifier::external_body]
pub struct ExValue(serde_json::Value);

/// The object-store settings to list, as JSON values.
pub struct ObjectStoreHandler {
    configs: Vec<HashMap<String, serde_json::Value>>,
}

impl ObjectStoreHandler {
    /// The settings it holds.
    pub closed spec fn spec_configs(&self) -> Vec<HashMap<String, serde_json::Value>> {
        self.configs
    }

    pub fn new(configs: Vec<HashMap<String, serde_json::Value>>) -> (r: ObjectStoreHandler)
        ensures
            r.spec_configs() == configs,
    {
        ObjectStoreHandler { configs }
    }

    /// Splits `[scheme://]bucket[/prefix]` into scheme, bucket and prefix; the
    /// prefix ends in `/`, and parts that are absent or empty are `None`.
    pub fn parse_uri(uri: String) -> (r: (Option<String>, Option<String>, Option<String>))
        ensures
            (opt_view(r.0), opt_view(r.1), opt_view(r.2)) == parse_uri_spec(uri@),
    {
        if uri.as_str().unicode_len() == 0 {
            return (None, None, None);
        }
        match capture_scheme(SCHEME_PATTERN, uri.as_str()) {
            Some(scheme) => {
                let ghost n = choose|n: int| scheme_ends_at(uri@, n);
                assert(scheme@.len() == n);
                let len = uri.as_str().unicode_len();
                let rest = uri.as_str().substring_char(scheme.as_str().unicode_len() + 3, len);
                if rest.unicode_len() == 0 {
                    return (Some(scheme), None, None);
                }
                let (bucket, prefix) = split_bucket_exec(rest);
                (Some(scheme), bucket, prefix)
            },
            None => {
                let (bucket, prefix) = split_bucket_exec(uri.as_str());
                (None, bucket, prefix)
            },
        }
    }
}

} // verus!
