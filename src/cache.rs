//! The download cache: entries named by a fingerprint of their URL, checked
//! against an expected SHA-256 digest when one is given, and the decisions of
//! one fetch through it.

use crate::error::LifecycleError;
use crate::platform::{join, join_path};
use vstd::prelude::*;

verus! {

/// A lowercase hexadecimal digit.
pub open spec fn hex_digit(d: nat) -> char {
    if d < 10 {
        crate::text::digit_char(d)
    } else if d == 10 {
        'a'
    } else if d == 11 {
        'b'
    } else if d == 12 {
        'c'
    } else if d == 13 {
        'd'
    } else if d == 14 {
        'e'
    } else {
        'f'
    }
}

/// Two lowercase hex digits per byte, most significant first.
pub open spec fn hex_text(b: Seq<u8>) -> Seq<char>
    decreases b.len(),
{
    if b.len() == 0 {
        Seq::empty()
    } else {
        hex_text(b.drop_last()) + seq![hex_digit(b.last() as nat / 16), hex_digit(b.last() as nat % 16)]
    }
}

/// The shortest lowercase hexadecimal text of `n`.
pub open spec fn hex_number(n: nat) -> Seq<char>
    decreases n,
{
    if n < 16 {
        seq![hex_digit(n)]
    } else {
        hex_number(n / 16).push(hex_digit(n % 16))
    }
}

/// The SHA-256 digest of some bytes.
pub uninterp spec fn sha256_of(data: Seq<u8>) -> Seq<u8>;

/// The 64-bit fingerprint that std's default hasher gives a URL.
pub uninterp spec fn url_fingerprint_of(url: Seq<char>) -> u64;

/// Relies on `hex::encode`: two lowercase hex digits for each byte, in order.
#[verifier::external_body]
fn hex_encode(bytes: &[u8]) -> (r: String)
    ensures
        r@ == hex_text(bytes@),
{
    hex::encode(bytes)
}

/// Relies on `sha2::Sha256::digest`: the 32-byte SHA-256 digest of the data.
#[verifier::external_body]
fn sha256_digest(data: &[u8]) -> (r: Vec<u8>)
    ensures
        r@ == sha256_of(data@),
        r@.len() == 32,
{
    <sha2::Sha256 as sha2::Digest>::digest(data).to_vec()
}

/// Relies on `DefaultHasher::new`, `str`'s `Hash` and `Hasher::finish`: a
/// hasher made by `new` has fixed keys, so the same URL gives the same value.
#[verifier::external_body]
fn url_fingerprint(url: &str) -> (r: u64)
    ensures
        r == url_fingerprint_of(url@),
{
    let mut h = std::collections::hash_map::DefaultHasher::new();
    std::hash::Hash::hash(url, &mut h);
    std::hash::Hasher::finish(&h)
}

fn hex_digit_of(d: u64) -> (c: char)
    requires
        d < 16,
    ensures
        c == hex_digit(d as nat),
{
    if d < 10 {
        crate::text::decimal_chars(d)[0]
    } else if d == 10 {
        'a'
    } else if d == 11 {
        'b'
    } else if d == 12 {
        'c'
    } else if d == 13 {
        'd'
    } else if d == 14 {
        'e'
    } else {
        'f'
    }
}

fn hex_number_chars(n: u64) -> (r: Vec<char>)
    ensures
        r@ == hex_number(n as nat),
    decreases n,
{
    if n < 16 {
        let mut r: Vec<char> = Vec::new();
        r.push(hex_digit_of(n));
        assert(r@ =~= hex_number(n as nat));
        r
    } else {
        let mut r = hex_number_chars(n / 16);
        r.push(hex_digit_of(n % 16));
        r
    }
}

/// The name of the cache entry of a URL whose fingerprint is `fingerprint`:
/// the fingerprint in lowercase hexadecimal.
pub fn cache_name_of(fingerprint: u64) -> (r: String)
    ensures
        r@ == hex_number(fingerprint as nat),
{
    let v = hex_number_chars(fingerprint);
    crate::text::string_of(&v)
}

/// The name of the cache entry of `url`.
pub fn hash_url(url: &str) -> (r: String)
    ensures
        r@ == hex_number(url_fingerprint_of(url@) as nat),
{
    cache_name_of(url_fingerprint(url))
}

/// The lowercase hex SHA-256 digest of `data`, as checksums are written.
pub fn sha256_hex(data: &[u8]) -> (r: String)
    ensures
        r@ == hex_text(sha256_of(data@)),
{
    let d = sha256_digest(data);
    hex_encode(d.as_slice())
}

/// The bytes of `files`, one after another.
pub open spec fn concat(files: Seq<Vec<u8>>) -> Seq<u8>
    decreases files.len(),
{
    if files.len() == 0 {
        Seq::empty()
    } else {
        concat(files.drop_last()) + files.last()@
    }
}

/// The checksum of an installed tree: the digest of its files' contents, in
/// the order given.
pub fn tree_checksum(files: &Vec<Vec<u8>>) -> (r: String)
    ensures
        r@ == hex_text(sha256_of(concat(files@))),
{
    let mut all: Vec<u8> = Vec::new();
    let mut i: usize = 0;
    while i < files.len()
        invariant
            i <= files@.len(),
            all@ == concat(files@.subrange(0, i as int)),
        decreases files@.len() - i,
    {
        let f = &files[i];
        let ghost before = all@;
        let mut k: usize = 0;
        while k < f.len()
            invariant
                k <= f@.len(),
                all@ == before + f@.subrange(0, k as int),
            decreases f@.len() - k,
        {
            all.push(f[k]);
            k = k + 1;
            assert(all@ =~= before + f@.subrange(0, k as int));
        }
        assert(files@.subrange(0, i + 1).drop_last() =~= files@.subrange(0, i as int));
        assert(f@.subrange(0, f@.len() as int) =~= f@);
        i = i + 1;
    }
    assert(files@.subrange(0, files@.len() as int) =~= files@);
    sha256_hex(all.as_slice())
}

/// Whether a progress report is due: at least 100 ms since the last one, or
/// the last byte has arrived.
pub fn progress_due(ms_since_last: u64, downloaded: u64, total: u64) -> (r: bool)
    ensures
        r == (ms_since_last >= 100 || downloaded == total),
{
    ms_since_last >= 100 || downloaded == total
}

/// The recent throughput in bytes per second: the bytes received since the
/// last report over the time since it; 0 when no time has passed.
pub fn recent_throughput(bytes_since_last: u64, ms_since_last: u64) -> (r: u64)
    ensures
        ms_since_last == 0 ==> r == 0,
        ms_since_last > 0 ==> r as int == (bytes_since_last as int * 1000) / ms_since_last as int
            || (r == u64::MAX && (bytes_since_last as int * 1000) / ms_since_last as int
            > u64::MAX),
{
    if ms_since_last == 0 {
        return 0;
    }
    let q: u128 = (bytes_since_last as u128) * 1000 / (ms_since_last as u128);
    if q > u64::MAX as u128 {
        u64::MAX
    } else {
        q as u64
    }
}

#[derive(Debug, Clone, Copy, PartialEq, Eq, Structural)]
pub enum FetchStage {
    /// Waiting to learn whether the cache entry exists.
    Probing,
    /// Waiting for the digest of the cached entry.
    CheckingCached,
    /// Waiting for the download into the cache entry.
    Downloading,
    /// Waiting for the digest of the downloaded entry.
    CheckingDownload,
    Done,
    Failed,
}

/// What the caller learned by performing the last action.
pub enum FetchEvent {
    CacheProbed { exists: bool, size: u64 },
    /// The lowercase hex SHA-256 digest of the cached entry.
    CachedDigest(String),
    Downloaded(Result<(), LifecycleError>),
    /// The lowercase hex SHA-256 digest of the downloaded entry.
    DownloadDigest(String),
}

/// What the caller is to do next.
pub enum FetchAction {
    ProbeCache(String),
    /// Compute the digest of the cached entry.
    HashCached(String),
    /// Download `url` into `path`, replacing what is there.
    Download { url: String, path: String },
    /// Compute the digest of the downloaded entry.
    HashDownload(String),
    /// The cached entry serves; report `size` of `size` bytes at rate 0 once.
    UseCached { path: String, size: u64 },
    /// The downloaded entry serves.
    Finish(String),
    /// Delete the entry, then report `error`.
    DeleteAndFail { path: String, error: LifecycleError },
    Fail(LifecycleError),
    /// The event did not answer the pending action; nothing changed.
    Ignore,
}

pub enum FetchEventModel {
    CacheProbed(bool, u64),
    CachedDigest(Seq<char>),
    Downloaded(Result<(), LifecycleError>),
    DownloadDigest(Seq<char>),
}

pub enum FetchActionModel {
    ProbeCache(Seq<char>),
    HashCached(Seq<char>),
    Download(Seq<char>, Seq<char>),
    HashDownload(Seq<char>),
    UseCached(Seq<char>, u64),
    Finish(Seq<char>),
    DeleteAndFail(Seq<char>, LifecycleError),
    Fail(LifecycleError),
    Ignore,
}

impl View for FetchEvent {
    type V = FetchEventModel;

    open spec fn view(&self) -> FetchEventModel {
        match self {
            FetchEvent::CacheProbed { exists, size } => FetchEventModel::CacheProbed(*exists, *size),
            FetchEvent::CachedDigest(d) => FetchEventModel::CachedDigest(d@),
            FetchEvent::Downloaded(r) => FetchEventModel::Downloaded(*r),
            FetchEvent::DownloadDigest(d) => FetchEventModel::DownloadDigest(d@),
        }
    }
}

impl View for FetchAction {
    type V = FetchActionModel;

    open spec fn view(&self) -> FetchActionModel {
        match self {
            FetchAction::ProbeCache(p) => FetchActionModel::ProbeCache(p@),
            FetchAction::HashCached(p) => FetchActionModel::HashCached(p@),
            FetchAction::Download { url, path } => FetchActionModel::Download(url@, path@),
            FetchAction::HashDownload(p) => FetchActionModel::HashDownload(p@),
            FetchAction::UseCached { path, size } => FetchActionModel::UseCached(path@, *size),
            FetchAction::Finish(p) => FetchActionModel::Finish(p@),
            FetchAction::DeleteAndFail { path, error } => FetchActionModel::DeleteAndFail(
                path@,
                *error,
            ),
            FetchAction::Fail(e) => FetchActionModel::Fail(*e),
            FetchAction::Ignore => FetchActionModel::Ignore,
        }
    }
}

/// One fetch through the cache.
pub struct CacheFetch {
    pub stage: FetchStage,
    pub url: String,
    pub path: String,
    pub expected: Option<String>,
    pub cached_size: u64,
}

pub struct FetchModel {
    pub stage: FetchStage,
    pub url: Seq<char>,
    pub path: Seq<char>,
    pub expected: Option<Seq<char>>,
    pub cached_size: u64,
}

impl View for CacheFetch {
    type V = FetchModel;

    open spec fn view(&self) -> FetchModel {
        FetchModel {
            stage: self.stage,
            url: self.url@,
            path: self.path@,
            expected: crate::version::opt_view(self.expected),
            cached_size: self.cached_size,
        }
    }
}

/// What follows when the pending action of `f` reports `e`. A cached entry
/// serves only when no digest is expected or its digest is the expected one;
/// otherwise it is downloaded again. A download whose digest is not the
/// expected one is deleted.
pub open spec fn fetch_next(f: FetchModel, e: FetchEventModel) -> (FetchStage, FetchActionModel, u64) {
    match (f.stage, e) {
        (FetchStage::Probing, FetchEventModel::CacheProbed(exists, size)) => {
            if exists && f.expected is None {
                (FetchStage::Done, FetchActionModel::UseCached(f.path, size), size)
            } else if exists {
                (FetchStage::CheckingCached, FetchActionModel::HashCached(f.path), size)
            } else {
                (FetchStage::Downloading, FetchActionModel::Download(f.url, f.path), f.cached_size)
            }
        },
        (FetchStage::CheckingCached, FetchEventModel::CachedDigest(d)) => {
            if f.expected == Some(d) {
                (FetchStage::Done, FetchActionModel::UseCached(f.path, f.cached_size), f.cached_size)
            } else {
                (FetchStage::Downloading, FetchActionModel::Download(f.url, f.path), f.cached_size)
            }
        },
        (FetchStage::Downloading, FetchEventModel::Downloaded(r)) => match r {
            Ok(_) => if f.expected is Some {
                (FetchStage::CheckingDownload, FetchActionModel::HashDownload(f.path), f.cached_size)
            } else {
                (FetchStage::Done, FetchActionModel::Finish(f.path), f.cached_size)
            },
            Err(err) => (FetchStage::Failed, FetchActionModel::Fail(err), f.cached_size),
        },
        (FetchStage::CheckingDownload, FetchEventModel::DownloadDigest(d)) => {
            if f.expected == Some(d) {
                (FetchStage::Done, FetchActionModel::Finish(f.path), f.cached_size)
            } else {
                (
                    FetchStage::Failed,
                    FetchActionModel::DeleteAndFail(f.path, LifecycleError::ChecksumMismatch),
                    f.cached_size,
                )
            }
        },
        _ => (f.stage, FetchActionModel::Ignore, f.cached_size),
    }
}

fn same_digest(expected: &Option<String>, d: &String) -> (r: bool)
    ensures
        r == (crate::version::opt_view(*expected) == Some(d@)),
{
    match expected {
        Some(x) => x.eq(d),
        None => false,
    }
}

impl CacheFetch {
    /// Plans the fetch of `url` into the cache directory `cache_dir`, checked
    /// against `expected` when it is given, and asks first whether the entry
    /// exists.
    pub fn start(url: &str, cache_dir: &str, expected: Option<&str>) -> (r: (CacheFetch, FetchAction))
        ensures
            r.0@ == (FetchModel {
                stage: FetchStage::Probing,
                url: url@,
                path: join_path(cache_dir@, hex_number(url_fingerprint_of(url@) as nat)),
                expected: match expected {
                    Some(x) => Some(x@),
                    None => None,
                },
                cached_size: 0,
            }),
            r.1@ == FetchActionModel::ProbeCache(r.0@.path),
    {
        let name = hash_url(url);
        let path = join(cache_dir, name.as_str());
        let expected = match expected {
            Some(x) => Some(x.to_owned()),
            None => None,
        };
        let action = FetchAction::ProbeCache(path.clone());
        (
            CacheFetch { stage: FetchStage::Probing, url: url.to_owned(), path, expected, cached_size: 0 },
            action,
        )
    }

    /// Takes in what the pending action found and says what to do next.
    pub fn step(&mut self, event: FetchEvent) -> (a: FetchAction)
        ensures
            final(self)@ == (FetchModel {
                stage: fetch_next(old(self)@, event@).0,
                cached_size: fetch_next(old(self)@, event@).2,
                ..old(self)@
            }),
            a@ == fetch_next(old(self)@, event@).1,
    {
        match (self.stage, event) {
            (FetchStage::Probing, FetchEvent::CacheProbed { exists, size }) => {
                if exists {
                    self.cached_size = size;
                    if self.expected.is_none() {
                        self.stage = FetchStage::Done;
                        FetchAction::UseCached { path: self.path.clone(), size }
                    } else {
                        self.stage = FetchStage::CheckingCached;
                        FetchAction::HashCached(self.path.clone())
                    }
                } else {
                    self.stage = FetchStage::Downloading;
                    FetchAction::Download { url: self.url.clone(), path: self.path.clone() }
                }
            },
            (FetchStage::CheckingCached, FetchEvent::CachedDigest(d)) => {
                if same_digest(&self.expected, &d) {
                    self.stage = FetchStage::Done;
                    FetchAction::UseCached { path: self.path.clone(), size: self.cached_size }
                } else {
                    self.stage = FetchStage::Downloading;
                    FetchAction::Download { url: self.url.clone(), path: self.path.clone() }
                }
            },
            (FetchStage::Downloading, FetchEvent::Downloaded(r)) => match r {
                Ok(_) => {
                    if self.expected.is_some() {
                        self.stage = FetchStage::CheckingDownload;
                        FetchAction::HashDownload(self.path.clone())
                    } else {
                        self.stage = FetchStage::Done;
                        FetchAction::Finish(self.path.clone())
                    }
                },
                Err(e) => {
                    self.stage = FetchStage::Failed;
                    FetchAction::Fail(e)
                },
            },
            (FetchStage::CheckingDownload, FetchEvent::DownloadDigest(d)) => {
                if same_digest(&self.expected, &d) {
                    self.stage = FetchStage::Done;
                    FetchAction::Finish(self.path.clone())
                } else {
                    self.stage = FetchStage::Failed;
                    FetchAction::DeleteAndFail {
                        path: self.path.clone(),
                        error: LifecycleError::ChecksumMismatch,
                    }
                }
            },
            _ => FetchAction::Ignore,
        }
    }
}

/// A cached entry whose digest is not the expected one is not used: it is
/// downloaded again.
pub proof fn lemma_cached_mismatch_refetches(f: FetchModel, d: Seq<char>)
    requires
        f.stage == FetchStage::CheckingCached,
        f.expected != Some(d),
    ensures
        fetch_next(f, FetchEventModel::CachedDigest(d)).1 == FetchActionModel::Download(f.url, f.path),
{
}

/// When a digest is expected, an entry is handed out only right after its
/// digest was found to be the expected one; the caller never receives an
/// entry known to differ from it.
pub proof fn lemma_delivery_checked(f: FetchModel, e: FetchEventModel)
    requires
        f.expected is Some,
        fetch_next(f, e).1 is UseCached || fetch_next(f, e).1 is Finish,
    ensures
        (e matches FetchEventModel::CachedDigest(d) && f.expected == Some(d)) || (
        e matches FetchEventModel::DownloadDigest(d) && f.expected == Some(d)),
{
}

} // verus!
