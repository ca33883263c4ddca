//! What the front end is told about versions, the PATH and cached
//! downloads, computed from what the manager knows.

use crate::cache::{hash_url, hex_number, url_fingerprint_of};
use crate::platform::{join, join_path};
use crate::provider::{base_url_text, get_base_url, get_vs_version, vs_toolset, VersionInfo};
use crate::state::keys_of;
use crate::text::{byte_text, chars_of, parse_byte, push_str, split, split_chars, views};
use vstd::prelude::*;

verus! {

/// The status of one version as the front end shows it.
#[derive(Debug, Clone)]
pub struct VersionStatus {
    pub version: String,
    pub installed: bool,
    pub active: bool,
    pub online: bool,
    pub install_path: Option<String>,
    pub release_date: Option<String>,
    pub eol_date: Option<String>,
    /// `Some(true)` when only the thread-safe build is installed,
    /// `Some(false)` when only the other one is, `None` when both or neither.
    pub thread_safe: Option<bool>,
}

/// Whether the launcher directory is on PATH, and which directory that is.
#[derive(Debug, Clone)]
pub struct PathStatus {
    pub is_set: bool,
    pub current_path: String,
}

/// One entry of the download cache.
#[derive(Debug, Clone)]
pub struct CachedFile {
    pub hash: String,
    pub size: u64,
    pub modified: String,
    /// The install key whose archive this entry holds, when it is known.
    pub version: Option<String>,
}

/// An install request of the front end: a version and `ts` or `nts`.
#[derive(Debug, Clone)]
pub struct InstallVersionParams {
    pub version: String,
    pub thread_safe: String,
}

impl InstallVersionParams {
    /// The thread-safety flag that the request names.
    pub fn thread_safe_flag(&self) -> (r: Option<bool>)
        ensures
            r == Some(self.thread_safe@ != "nts"@),
    {
        thread_safe_param(self.thread_safe.as_str())
    }
}

/// The thread-safety flag that the front end's variant parameter stands for:
/// `nts` is non-thread-safe, anything else thread-safe.
pub fn thread_safe_param(variant: &str) -> (r: Option<bool>)
    ensures
        r == Some(variant@ != "nts"@),
{
    Some(!variant.eq("nts"))
}

fn contains_key(keys: &Vec<String>, k: &String) -> (r: bool)
    ensures
        r == keys_of(keys@).contains(k@),
{
    let mut i: usize = 0;
    while i < keys.len()
        invariant
            i <= keys@.len(),
            forall|j: int| 0 <= j < i ==> keys@[j]@ != k@,
        decreases keys@.len() - i,
    {
        if keys[i].eq(k) {
            assert(keys_of(keys@)[i as int] == k@);
            return true;
        }
        i = i + 1;
    }
    proof {
        if keys_of(keys@).contains(k@) {
            let j = choose|j: int| 0 <= j < keys_of(keys@).len() && keys_of(keys@)[j] == k@;
            assert(keys@[j]@ == k@);
        }
    }
    false
}

pub open spec fn opt_text(o: Option<String>) -> Option<Seq<char>> {
    match o {
        Some(s) => Some(s@),
        None => None,
    }
}

fn copy_text(o: &Option<String>) -> (r: Option<String>)
    ensures
        opt_text(r) == opt_text(*o),
{
    match o {
        Some(s) => Some(s.clone()),
        None => None,
    }
}

/// The status of `version` given the installed keys, the active key, the
/// install root and what the release server knows of it. The thread-safe
/// build's directory is named when both builds are installed.
pub fn version_status(
    version: &str,
    installed: &Vec<String>,
    active: Option<&str>,
    install_root: &str,
    info: Option<&VersionInfo>,
) -> (r: VersionStatus)
    ensures
        ({
            let ts = keys_of(installed@).contains(version@ + "-ts"@);
            let nts = keys_of(installed@).contains(version@ + "-nts"@);
            &&& r.version@ == version@
            &&& r.installed == (ts || nts)
            &&& r.active == (match active {
                Some(a) => a@ == version@,
                None => false,
            })
            &&& opt_text(r.install_path) == (if ts {
                Some(join_path(install_root@, "php-"@ + version@ + "-ts"@))
            } else if nts {
                Some(join_path(install_root@, "php-"@ + version@ + "-nts"@))
            } else {
                None
            })
            &&& r.thread_safe == (if ts && !nts {
                Some(true)
            } else if nts && !ts {
                Some(false)
            } else {
                None
            })
            &&& match info {
                Some(i) => opt_text(r.release_date) == opt_text(i.release_date) && opt_text(
                    r.eol_date,
                ) == opt_text(i.eol_date) && r.online == i.download_url is Some,
                None => r.release_date is None && r.eol_date is None && !r.online,
            }
        }),
{
    let mut ts_key = String::new();
    push_str(&mut ts_key, version);
    push_str(&mut ts_key, "-ts");
    let mut nts_key = String::new();
    push_str(&mut nts_key, version);
    push_str(&mut nts_key, "-nts");
    let ts = contains_key(installed, &ts_key);
    let nts = contains_key(installed, &nts_key);
    let is_active = match active {
        Some(a) => a.eq(version),
        None => false,
    };
    let install_path = if ts || nts {
        let mut name = String::new();
        push_str(&mut name, "php-");
        push_str(&mut name, version);
        if ts {
            push_str(&mut name, "-ts");
        } else {
            push_str(&mut name, "-nts");
        }
        proof {
            assert(name@ =~= "php-"@ + version@ + (if ts { "-ts"@ } else { "-nts"@ }));
        }
        Some(join(install_root, name.as_str()))
    } else {
        None
    };
    let thread_safe = if ts && !nts {
        Some(true)
    } else if nts && !ts {
        Some(false)
    } else {
        None
    };
    let (release_date, eol_date, online) = match info {
        Some(i) => (copy_text(&i.release_date), copy_text(&i.eol_date), i.download_url.is_some()),
        None => (None, None, false),
    };
    let r = VersionStatus {
        version: version.to_owned(),
        installed: ts || nts,
        active: is_active,
        online,
        install_path,
        release_date,
        eol_date,
        thread_safe,
    };
    r
}


/// A release archive's URL: below `base`, `php-`, the version, `-nts` for
/// the non-thread-safe build, the toolset.
pub open spec fn archive_url(base: Seq<char>, v: Seq<char>, nts: bool, vs: Seq<char>) -> Seq<char> {
    base + "php-"@ + v + (if nts {
        "-nts"@
    } else {
        Seq::<char>::empty()
    }) + "-Win32-"@ + vs + "-x64.zip"@
}

/// Both builds of `v` at one place, each with the install key it holds.
pub open spec fn pair_at(base: Seq<char>, v: Seq<char>, vs: Seq<char>) -> Seq<(Seq<char>, Seq<char>)> {
    seq![
        (archive_url(base, v, false, vs), v + "-ts"@),
        (archive_url(base, v, true, vs), v + "-nts"@),
    ]
}

/// The URLs that the archives of a listed version may have been fetched
/// from, each with the install key it holds: both builds where the server
/// keeps them, and both where it kept them under the previous toolset. A text
/// that does not read as three byte numbers has none.
pub open spec fn candidates_of(v: Seq<char>) -> Seq<(Seq<char>, Seq<char>)> {
    let parts = split(v, '.');
    if parts.len() >= 3 && byte_text(parts[0]) is Some && byte_text(parts[1]) is Some && byte_text(
        parts[2],
    ) is Some {
        let major = byte_text(parts[0])->Some_0;
        let minor = byte_text(parts[1])->Some_0;
        let vs = vs_toolset(major, minor);
        let main = pair_at(base_url_text(major, minor), v, vs);
        let releases = "https://windows.php.net/downloads/releases/"@;
        if vs == "vs17"@ {
            main + pair_at(releases, v, "vs16"@)
        } else if vs == "vs16"@ {
            main + pair_at(releases, v, "vc15"@)
        } else if vs == "VC15"@ {
            main + pair_at("https://windows.php.net/downloads/releases/archives/"@, v, "VC14"@)
        } else {
            main
        }
    } else {
        Seq::empty()
    }
}

fn archive_url_for(base: &str, v: &str, nts: bool, vs: &str) -> (r: String)
    ensures
        r@ == archive_url(base@, v@, nts, vs@),
{
    let mut r = String::new();
    push_str(&mut r, base);
    push_str(&mut r, "php-");
    push_str(&mut r, v);
    if nts {
        push_str(&mut r, "-nts");
    }
    push_str(&mut r, "-Win32-");
    push_str(&mut r, vs);
    push_str(&mut r, "-x64.zip");
    proof {
        assert(r@ =~= archive_url(base@, v@, nts, vs@));
    }
    r
}

fn push_pair(out: &mut Vec<(String, String)>, base: &str, v: &str, vs: &str)
    ensures
        pairs_view(final(out)@) == pairs_view(old(out)@) + pair_at(base@, v@, vs@),
{
    let mut ts = String::new();
    push_str(&mut ts, v);
    push_str(&mut ts, "-ts");
    let mut nts = String::new();
    push_str(&mut nts, v);
    push_str(&mut nts, "-nts");
    let ghost before = pairs_view(out@);
    out.push((archive_url_for(base, v, false, vs), ts));
    out.push((archive_url_for(base, v, true, vs), nts));
    proof {
        assert(pairs_view(out@) =~= before + pair_at(base@, v@, vs@));
    }
}

pub open spec fn pairs_view(v: Seq<(String, String)>) -> Seq<(Seq<char>, Seq<char>)> {
    v.map_values(|p: (String, String)| (p.0@, p.1@))
}

/// The URLs that the archives of `version_str` may have been fetched from,
/// each with the install key it holds.
pub fn cache_candidates(version_str: &str) -> (r: Vec<(String, String)>)
    ensures
        pairs_view(r@) == candidates_of(version_str@),
{
    let mut out: Vec<(String, String)> = Vec::new();
    let v = chars_of(version_str);
    let parts = split_chars(&v, '.');
    if parts.len() < 3 {
        assert(pairs_view(out@) =~= Seq::<(Seq<char>, Seq<char>)>::empty());
        return out;
    }
    assert(views(parts@)[0] == parts@[0]@);
    assert(views(parts@)[1] == parts@[1]@);
    assert(views(parts@)[2] == parts@[2]@);
    let (major, minor) = match (parse_byte(&parts[0]), parse_byte(&parts[1]), parse_byte(&parts[2])) {
        (Some(a), Some(b), Some(_)) => (a, b),
        _ => {
            assert(pairs_view(out@) =~= Seq::<(Seq<char>, Seq<char>)>::empty());
            return out;
        },
    };
    let vs = get_vs_version(major, minor);
    assert(pairs_view(out@) =~= Seq::<(Seq<char>, Seq<char>)>::empty());
    push_pair(&mut out, get_base_url(major, minor), version_str, vs);
    proof {
        reveal_strlit("vs17");
        reveal_strlit("vs16");
        reveal_strlit("VC15");
        reveal_strlit("vc15");
        reveal_strlit("VC14");
        reveal_strlit("VC11");
        assert(pairs_view(out@) =~= pair_at(base_url_text(major, minor), version_str@, vs@));
    }
    if vs.eq("vs17") {
        push_pair(&mut out, "https://windows.php.net/downloads/releases/", version_str, "vs16");
    } else if vs.eq("vs16") {
        push_pair(&mut out, "https://windows.php.net/downloads/releases/", version_str, "vc15");
    } else if vs.eq("VC15") {
        push_pair(&mut out, "https://windows.php.net/downloads/releases/archives/", version_str, "VC14");
    }
    out
}

/// The cache entry names of the candidates of the available versions, in
/// order, each with the install key it holds.
pub open spec fn named_candidates(available: Seq<Seq<char>>) -> Seq<(Seq<char>, Seq<char>)>
    decreases available.len(),
{
    if available.len() == 0 {
        Seq::empty()
    } else {
        named_candidates(available.drop_last()) + candidates_of(available.last()).map_values(
            |c: (Seq<char>, Seq<char>)| (hex_number(url_fingerprint_of(c.0) as nat), c.1),
        )
    }
}

/// The install key of the cache entry `name`: that of the last candidate
/// with this name, as a map filled in order keeps it.
pub open spec fn label_in(named: Seq<(Seq<char>, Seq<char>)>, name: Seq<char>) -> Option<Seq<char>>
    decreases named.len(),
{
    if named.len() == 0 {
        None
    } else if named.last().0 == name {
        Some(named.last().1)
    } else {
        label_in(named.drop_last(), name)
    }
}

/// The cache entry names of the candidates of the available versions.
pub fn cache_names(available: &Vec<String>) -> (r: Vec<(String, String)>)
    ensures
        pairs_view(r@) == named_candidates(keys_of(available@)),
{
    let mut out: Vec<(String, String)> = Vec::new();
    let mut i: usize = 0;
    let ghost ks = keys_of(available@);
    assert(ks.subrange(0, 0) =~= Seq::<Seq<char>>::empty());
    assert(pairs_view(out@) =~= Seq::<(Seq<char>, Seq<char>)>::empty());
    while i < available.len()
        invariant
            ks == keys_of(available@),
            i <= available@.len(),
            pairs_view(out@) == named_candidates(ks.subrange(0, i as int)),
        decreases available@.len() - i,
    {
        let c = cache_candidates(available[i].as_str());
        let ghost before = pairs_view(out@);
        let mut k: usize = 0;
        while k < c.len()
            invariant
                k <= c@.len(),
                pairs_view(out@) == before + pairs_view(c@).subrange(0, k as int).map_values(
                    |p: (Seq<char>, Seq<char>)| (hex_number(url_fingerprint_of(p.0) as nat), p.1),
                ),
            decreases c@.len() - k,
        {
            let ghost m0 = pairs_view(out@);
            let name = hash_url(c[k].0.as_str());
            let label = c[k].1.clone();
            out.push((name, label));
            proof {
                let f = |p: (Seq<char>, Seq<char>)|
                    (hex_number(url_fingerprint_of(p.0) as nat), p.1);
                let cs = pairs_view(c@);
                assert(pairs_view(out@) =~= m0.push((name@, label@)));
                assert(cs[k as int] == (c@[k as int].0@, c@[k as int].1@));
                assert(cs.subrange(0, k + 1).map_values(f) =~= cs.subrange(0, k as int).map_values(
                    f,
                ).push(f(cs[k as int])));
            }
            k = k + 1;
        }
        let ghost post = ks.subrange(0, i + 1);
        assert(post.drop_last() =~= ks.subrange(0, i as int));
        assert(post.last() == available@[i as int]@);
        assert(pairs_view(c@).subrange(0, c@.len() as int) =~= pairs_view(c@));
        i = i + 1;
    }
    assert(ks.subrange(0, available@.len() as int) =~= ks);
    out
}

/// The install key that the cache entry `name` holds, among `named`.
pub fn label_of(name: &str, named: &Vec<(String, String)>) -> (r: Option<String>)
    ensures
        opt_text(r) == label_in(pairs_view(named@), name@),
{
    let mut j: usize = named.len();
    let ghost all = pairs_view(named@);
    assert(all.subrange(0, j as int) =~= all);
    while j > 0
        invariant
            all == pairs_view(named@),
            j <= named@.len(),
            label_in(all, name@) == label_in(all.subrange(0, j as int), name@),
        decreases j,
    {
        let ghost pre = all.subrange(0, j as int);
        assert(pre.last() == (named@[j - 1].0@, named@[j - 1].1@));
        if named[j - 1].0.as_str().eq(name) {
            return Some(named[j - 1].1.clone());
        }
        assert(pre.drop_last() =~= all.subrange(0, j - 1));
        j = j - 1;
    }
    None
}


/// Whether a progress event goes on to the front end: 100 ms after the last
/// one sent, when the download is complete, or when a known total arrives
/// before anything was sent.
pub fn forward_progress(ms_since_sent: u64, downloaded: u64, total: u64, last_sent: u64) -> (r: bool)
    ensures
        r == (ms_since_sent >= 100 || downloaded == total || (total > 0 && last_sent == 0)),
{
    ms_since_sent >= 100 || downloaded == total || (total > 0 && last_sent == 0)
}

/// The share of the download done, in whole percent; 0 while the total is
/// unknown.
pub fn percent_done(downloaded: u64, total: u64) -> (r: u64)
    ensures
        total == 0 ==> r == 0,
        total > 0 ==> r as int == (downloaded as int * 100) / total as int || (r == u64::MAX && (
        downloaded as int * 100) / total as int > u64::MAX),
{
    if total == 0 {
        return 0;
    }
    let q: u128 = (downloaded as u128) * 100 / (total as u128);
    if q > u64::MAX as u128 {
        u64::MAX
    } else {
        q as u64
    }
}

} // verus!
