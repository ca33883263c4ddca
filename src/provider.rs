//! What the core needs of the release server's conventions: the toolset in an
//! archive's name, the download URL of a release, the end-of-life dates of
//! the release lines, and the thread-safety flavour that a name shows.

use crate::text::{
    byte_text, chars_of, contains_str, contains_text, decimal, is_space, lower_of, lowercase,
    parse_byte, parse_u32, push_decimal, push_str, space_char, string_of, u32_text,
};
use crate::version::{parse_version, result_view, PhpVersion};
use vstd::prelude::*;

verus! {

/// A release that can be offered for install.
#[derive(Debug, Clone)]
pub struct VersionInfo {
    pub version: String,
    pub release_date: Option<String>,
    pub eol_date: Option<String>,
    pub download_url: Option<String>,
    pub checksum: Option<String>,
}

/// The toolset in the name of a release archive: `vs17` from 8.4, `vs16`
/// for 8.0 to 8.3, `vc15` for 7.4, `VC15` for 7.2 and 7.3, `VC14` for 7.0
/// and 7.1, `VC11` before 7.
pub open spec fn vs_toolset(major: u8, minor: u8) -> Seq<char> {
    if major > 8 || (major == 8 && minor >= 4) {
        "vs17"@
    } else if major == 8 {
        "vs16"@
    } else if major == 7 {
        if minor >= 4 {
            "vc15"@
        } else if minor >= 2 {
            "VC15"@
        } else {
            "VC14"@
        }
    } else {
        "VC11"@
    }
}

pub fn get_vs_version(major: u8, minor: u8) -> (r: &'static str)
    ensures
        r@ == vs_toolset(major, minor),
{
    if major > 8 || (major == 8 && minor >= 4) {
        "vs17"
    } else if major == 8 {
        "vs16"
    } else if major == 7 {
        if minor >= 4 {
            "vc15"
        } else if minor >= 2 {
            "VC15"
        } else {
            "VC14"
        }
    } else {
        "VC11"
    }
}

pub open spec fn base_url_text(major: u8, minor: u8) -> Seq<char> {
    if major < 7 || (major == 7 && minor < 4) {
        "https://windows.php.net/downloads/releases/archives/"@
    } else {
        "https://windows.php.net/downloads/releases/"@
    }
}

/// The directory of the server that holds a release line's archives.
pub fn get_base_url(major: u8, minor: u8) -> (r: &'static str)
    ensures
        r@ == base_url_text(major, minor),
{
    if Provider::is_archived_version(major, minor) {
        "https://windows.php.net/downloads/releases/archives/"
    } else {
        "https://windows.php.net/downloads/releases/"
    }
}

pub open spec fn download_url_text(version: Seq<char>, major: u8, minor: u8) -> Seq<char> {
    base_url_text(major, minor) + "php-"@ + version + "-Win32-"@ + vs_toolset(major, minor)
        + "-x64.zip"@
}

/// The end-of-life date of a release line, for the lines that have one
/// on record.
pub open spec fn eol_text(major: u8, minor: u8) -> Option<Seq<char>> {
    if major == 8 && minor == 5 {
        Some("2029-12-31"@)
    } else if major == 8 && minor == 4 {
        Some("2028-12-31"@)
    } else if major == 8 && minor == 3 {
        Some("2027-12-31"@)
    } else if major == 8 && minor == 2 {
        Some("2026-12-31"@)
    } else if major == 8 && minor == 1 {
        Some("2025-12-31"@)
    } else if major == 8 && minor == 0 {
        Some("2023-11-26"@)
    } else if major == 7 && minor == 4 {
        Some("2022-11-28"@)
    } else if major == 7 && minor == 3 {
        Some("2021-12-06"@)
    } else if major == 7 && minor == 2 {
        Some("2020-11-30"@)
    } else if major == 7 && minor == 1 {
        Some("2019-12-01"@)
    } else if major == 7 && minor == 0 {
        Some("2019-01-10"@)
    } else if major == 5 && minor == 6 {
        Some("2018-12-31"@)
    } else {
        None
    }
}

/// The release server's conventions, as associated functions.
pub struct Provider {}

impl Provider {
    /// The toolset in the name of a release archive.
    pub fn get_vs_version(major: u8, minor: u8) -> (r: &'static str)
        ensures
            r@ == vs_toolset(major, minor),
    {
        get_vs_version(major, minor)
    }

    /// Releases before 7.4 live in the archive directory of the server.
    pub fn is_archived_version(major: u8, minor: u8) -> (r: bool)
        ensures
            r == (major < 7 || (major == 7 && minor < 4)),
    {
        major < 7 || (major == 7 && minor < 4)
    }

    /// The Windows x64 archive of `version_str` in the release line
    /// `major.minor`.
    pub fn generate_download_url(version_str: &str, major: u8, minor: u8) -> (r: String)
        ensures
            r@ == download_url_text(version_str@, major, minor),
    {
        let mut r = String::new();
        push_str(&mut r, get_base_url(major, minor));
        push_str(&mut r, "php-");
        push_str(&mut r, version_str);
        push_str(&mut r, "-Win32-");
        push_str(&mut r, get_vs_version(major, minor));
        push_str(&mut r, "-x64.zip");
        r
    }

    pub fn get_eol_date(major: u8, minor: u8) -> (r: Option<String>)
        ensures
            match r {
                Some(d) => eol_text(major, minor) == Some(d@),
                None => eol_text(major, minor) is None,
            },
    {
        let d = if major == 8 && minor == 5 {
            "2029-12-31"
        } else if major == 8 && minor == 4 {
            "2028-12-31"
        } else if major == 8 && minor == 3 {
            "2027-12-31"
        } else if major == 8 && minor == 2 {
            "2026-12-31"
        } else if major == 8 && minor == 1 {
            "2025-12-31"
        } else if major == 8 && minor == 0 {
            "2023-11-26"
        } else if major == 7 && minor == 4 {
            "2022-11-28"
        } else if major == 7 && minor == 3 {
            "2021-12-06"
        } else if major == 7 && minor == 2 {
            "2020-11-30"
        } else if major == 7 && minor == 1 {
            "2019-12-01"
        } else if major == 7 && minor == 0 {
            "2019-01-10"
        } else if major == 5 && minor == 6 {
            "2018-12-31"
        } else {
            return None;
        };
        Some(d.to_owned())
    }

    /// The flavour that a download URL shows: non-thread-safe when it holds
    /// `-nts` or `NTS`, thread-safe otherwise.
    pub fn detect_thread_safe_from_url(url: &str) -> (r: Option<bool>)
        ensures
            r == Some(
                !(contains_text(url@, "-nts"@) || contains_text(url@, "NTS"@)),
            ),
    {
        if contains_str(url, "-nts") || contains_str(url, "NTS") {
            Some(false)
        } else {
            Some(true)
        }
    }

    /// The flavour that a file name shows, decided on its lowercase form.
    pub fn detect_thread_safe_from_filename(filename: &str) -> (r: Option<bool>)
        ensures
            r == flavour_of_lowered(lower_of(filename@)),
    {
        let lower = lowercase(filename);
        Provider::thread_safe_from_lowered(lower.as_str())
    }

    /// The flavour that a lowercase file name shows: `-nts` or `_nts` for
    /// non-thread-safe, else `-ts` or `_ts` for thread-safe, else unknown.
    pub fn thread_safe_from_lowered(lower: &str) -> (r: Option<bool>)
        ensures
            r == flavour_of_lowered(lower@),
    {
        if contains_str(lower, "-nts") || contains_str(lower, "_nts") {
            Some(false)
        } else if contains_str(lower, "-ts") || contains_str(lower, "_ts") {
            Some(true)
        } else {
            None
        }
    }
}

pub open spec fn flavour_of_lowered(lower: Seq<char>) -> Option<bool> {
    if contains_text(lower, "-nts"@) || contains_text(lower, "_nts"@) {
        Some(false)
    } else if contains_text(lower, "-ts"@) || contains_text(lower, "_ts"@) {
        Some(true)
    } else {
        None
    }
}


/// The position of the first release listed under `v`.
pub open spec fn first_listed(infos: Seq<VersionInfo>, v: Seq<char>, i: int) -> Option<int>
    decreases infos.len() - i,
{
    if i < 0 || i >= infos.len() {
        None
    } else if infos[i].version@ == v {
        Some(i)
    } else {
        first_listed(infos, v, i + 1)
    }
}

pub open spec fn filled_eol(given: Option<String>, v: Seq<char>) -> Option<Seq<char>> {
    match given {
        Some(d) => Some(d@),
        None => match parse_version(v) {
            Ok(m) => eol_text(m.major, m.minor),
            Err(_) => None,
        },
    }
}

pub open spec fn filled_url(given: Option<String>, v: Seq<char>) -> Option<Seq<char>> {
    match given {
        Some(u) => Some(u@),
        None => match parse_version(v) {
            Ok(m) => Some(download_url_text(v, m.major, m.minor)),
            Err(_) => None,
        },
    }
}

pub open spec fn text_of(o: Option<String>) -> Option<Seq<char>> {
    match o {
        Some(s) => Some(s@),
        None => None,
    }
}

/// What is known of `version_str`: the first release listed under it, with
/// a missing end-of-life date and download URL filled in from its release
/// line when the text reads as a version; when none is listed, a release
/// with just those, or nothing when the text does not read as a version.
pub fn version_info_for(version_str: &str, fetched: Vec<VersionInfo>) -> (r: Option<VersionInfo>)
    ensures
        match first_listed(fetched@, version_str@, 0) {
            Some(i) => r matches Some(x) && x.version@ == version_str@ && text_of(x.release_date)
                == text_of(fetched@[i].release_date) && text_of(x.checksum) == text_of(
                fetched@[i].checksum,
            ) && text_of(x.eol_date) == filled_eol(fetched@[i].eol_date, version_str@) && text_of(
                x.download_url,
            ) == filled_url(fetched@[i].download_url, version_str@),
            None => match parse_version(version_str@) {
                Ok(m) => r matches Some(x) && x.version@ == version_str@ && x.release_date is None
                    && x.checksum is None && text_of(x.eol_date) == eol_text(m.major, m.minor)
                    && text_of(x.download_url) == Some(
                    download_url_text(version_str@, m.major, m.minor),
                ),
                Err(_) => r is None,
            },
        },
{
    let ghost all = fetched@;
    let mut pool = fetched;
    let parsed = PhpVersion::from_string(version_str);
    let mut i: usize = 0;
    while i < pool.len()
        invariant
            pool@ == all,
            fetched@ == all,
            result_view(parsed) == parse_version(version_str@),
            i <= all.len(),
            first_listed(all, version_str@, 0) == first_listed(all, version_str@, i as int),
        decreases all.len() - i,
    {
        if pool[i].version.as_str().eq(version_str) {
            assert(all[i as int].version@ == version_str@);
            assert(first_listed(all, version_str@, i as int) == Some(i as int));
            let mut info = pool.remove(i);
            assert(info == all[i as int]);
            match &parsed {
                Ok(v) => {
                    if info.eol_date.is_none() {
                        info.eol_date = Provider::get_eol_date(v.major, v.minor);
                    }
                    if info.download_url.is_none() {
                        info.download_url = Some(
                            Provider::generate_download_url(version_str, v.major, v.minor),
                        );
                    }
                },
                Err(_) => {},
            }
            return Some(info);
        }
        i = i + 1;
    }
    match parsed {
        Ok(v) => Some(
            VersionInfo {
                version: version_str.to_owned(),
                release_date: None,
                eol_date: Provider::get_eol_date(v.major, v.minor),
                download_url: Some(Provider::generate_download_url(version_str, v.major, v.minor)),
                checksum: None,
            },
        ),
        Err(_) => None,
    }
}


/// The releases offered when no release page can be read: the latest patch
/// of each release line from 5.6 on, with its release and end-of-life dates.
pub open spec fn fallback_table() -> Seq<(Seq<char>, u8, u8, Seq<char>, Seq<char>)> {
    seq![
        ("8.5.1"@, 8u8, 5u8, "2025-11-20"@, "2029-12-31"@),
        ("8.4.16"@, 8u8, 4u8, "2025-12-18"@, "2028-12-31"@),
        ("8.3.29"@, 8u8, 3u8, "2025-12-18"@, "2027-12-31"@),
        ("8.2.30"@, 8u8, 2u8, "2025-12-18"@, "2026-12-31"@),
        ("8.1.34"@, 8u8, 1u8, "2025-12-18"@, "2025-12-31"@),
        ("8.0.30"@, 8u8, 0u8, "2023-08-03"@, "2023-11-26"@),
        ("7.4.33"@, 7u8, 4u8, "2022-11-03"@, "2022-11-28"@),
        ("7.3.33"@, 7u8, 3u8, "2021-11-18"@, "2021-12-06"@),
        ("7.2.34"@, 7u8, 2u8, "2020-10-01"@, "2020-11-30"@),
        ("7.1.33"@, 7u8, 1u8, "2019-10-24"@, "2019-12-01"@),
        ("7.0.33"@, 7u8, 0u8, "2019-01-10"@, "2019-01-10"@),
        ("5.6.40"@, 5u8, 6u8, "2019-01-10"@, "2018-12-31"@),
    ]
}

pub open spec fn entry_matches(x: VersionInfo, row: (Seq<char>, u8, u8, Seq<char>, Seq<char>)) -> bool {
    &&& x.version@ == row.0
    &&& text_of(x.release_date) == Some(row.3)
    &&& text_of(x.eol_date) == Some(row.4)
    &&& text_of(x.download_url) == Some(download_url_text(row.0, row.1, row.2))
    &&& x.checksum is None
}

fn fallback_entry(version: &str, major: u8, minor: u8, released: &str, eol: &str) -> (r: VersionInfo)
    ensures
        entry_matches(r, (version@, major, minor, released@, eol@)),
{
    VersionInfo {
        version: version.to_owned(),
        release_date: Some(released.to_owned()),
        eol_date: Some(eol.to_owned()),
        download_url: Some(Provider::generate_download_url(version, major, minor)),
        checksum: None,
    }
}

/// The built-in release list, newest line first.
pub fn fallback_versions() -> (r: Vec<VersionInfo>)
    ensures
        r@.len() == fallback_table().len(),
        forall|i: int| 0 <= i < r@.len() ==> entry_matches(#[trigger] r@[i], fallback_table()[i]),
{
    let mut out: Vec<VersionInfo> = Vec::new();
    out.push(fallback_entry("8.5.1", 8, 5, "2025-11-20", "2029-12-31"));
    out.push(fallback_entry("8.4.16", 8, 4, "2025-12-18", "2028-12-31"));
    out.push(fallback_entry("8.3.29", 8, 3, "2025-12-18", "2027-12-31"));
    out.push(fallback_entry("8.2.30", 8, 2, "2025-12-18", "2026-12-31"));
    out.push(fallback_entry("8.1.34", 8, 1, "2025-12-18", "2025-12-31"));
    out.push(fallback_entry("8.0.30", 8, 0, "2023-08-03", "2023-11-26"));
    out.push(fallback_entry("7.4.33", 7, 4, "2022-11-03", "2022-11-28"));
    out.push(fallback_entry("7.3.33", 7, 3, "2021-11-18", "2021-12-06"));
    out.push(fallback_entry("7.2.34", 7, 2, "2020-10-01", "2020-11-30"));
    out.push(fallback_entry("7.1.33", 7, 1, "2019-10-24", "2019-12-01"));
    out.push(fallback_entry("7.0.33", 7, 0, "2019-01-10", "2019-01-10"));
    out.push(fallback_entry("5.6.40", 5, 6, "2019-01-10", "2018-12-31"));
    out
}


/// The numeric triple a listed release sorts by; 0.0.0 when its text does
/// not read as a version.
pub open spec fn release_key(v: Seq<char>) -> (u8, u8, u8) {
    match parse_version(v) {
        Ok(m) => (m.major, m.minor, m.patch),
        Err(_) => (0, 0, 0),
    }
}

pub open spec fn key_lt(a: (u8, u8, u8), b: (u8, u8, u8)) -> bool {
    a.0 < b.0 || (a.0 == b.0 && (a.1 < b.1 || (a.1 == b.1 && a.2 < b.2)))
}

/// Newest first: no release is older than the one after it.
pub open spec fn newest_first(s: Seq<VersionInfo>) -> bool {
    forall|i: int|
        0 <= i < s.len() - 1 ==> !key_lt(
            release_key((#[trigger] s[i]).version@),
            release_key(s[i + 1].version@),
        )
}

fn key_of(info: &VersionInfo) -> (r: (u8, u8, u8))
    ensures
        r == release_key(info.version@),
{
    match PhpVersion::from_string(info.version.as_str()) {
        Ok(v) => (v.major, v.minor, v.patch),
        Err(_) => (0, 0, 0),
    }
}

fn lt_exec(a: (u8, u8, u8), b: (u8, u8, u8)) -> (r: bool)
    ensures
        r == key_lt(a, b),
{
    a.0 < b.0 || (a.0 == b.0 && (a.1 < b.1 || (a.1 == b.1 && a.2 < b.2)))
}

fn insert_by_age(out: &mut Vec<VersionInfo>, x: VersionInfo)
    requires
        newest_first(old(out)@),
    ensures
        newest_first(final(out)@),
        final(out)@.to_multiset() == old(out)@.to_multiset().insert(x),
{
    let kx = key_of(&x);
    let mut k: usize = 0;
    while k < out.len() && !lt_exec(key_of(&out[k]), kx)
        invariant
            k <= out@.len(),
            kx == release_key(x.version@),
            k > 0 ==> !key_lt(release_key(out@[k - 1].version@), kx),
        decreases out@.len() - k,
    {
        k = k + 1;
    }
    let ghost before = out@;
    out.insert(k, x);
    proof {
        let after = out@;
        assert(after =~= before.insert(k as int, x));
        assert forall|j: int| 0 <= j < after.len() - 1 implies !key_lt(
            release_key((#[trigger] after[j]).version@),
            release_key(after[j + 1].version@),
        ) by {
            if j + 1 < k {
                assert(after[j] == before[j]);
                assert(after[j + 1] == before[j + 1]);
            } else if j + 1 == k {
                assert(after[j] == before[j]);
            } else if j == k {
                assert(after[j + 1] == before[j]);
            } else {
                assert(after[j] == before[j - 1]);
                assert(after[j + 1] == before[j]);
            }
        }
        vstd::seq_lib::to_multiset_insert(before, k as int, x);
    }
}

/// Puts releases newest first; releases of the same triple keep their order.
pub fn sort_newest_first(infos: Vec<VersionInfo>) -> (r: Vec<VersionInfo>)
    ensures
        newest_first(r@),
        r@.to_multiset() == infos@.to_multiset(),
{
    let ghost src = infos@;
    let mut rest = infos;
    let mut out: Vec<VersionInfo> = Vec::new();
    let ghost mut taken: int = 0;
    assert(src.subrange(0, 0) =~= Seq::<VersionInfo>::empty());
    assert(rest@ =~= src.subrange(0, src.len() as int));
    while rest.len() > 0
        invariant
            0 <= taken <= src.len(),
            rest@ == src.subrange(taken, src.len() as int),
            newest_first(out@),
            out@.to_multiset() == src.subrange(0, taken).to_multiset(),
        decreases rest@.len(),
    {
        let x = rest.remove(0);
        proof {
            assert(x == src[taken]);
            assert(rest@ =~= src.subrange(taken + 1, src.len() as int));
            let pre = src.subrange(0, taken);
            assert(src.subrange(0, taken + 1) =~= pre.push(x));
            pre.to_multiset_ensures();
        }
        insert_by_age(&mut out, x);
        proof {
            taken = taken + 1;
        }
    }
    assert(src.subrange(0, taken) =~= src);
    out
}

/// The `limit` newest releases, newest first.
pub fn top_versions(infos: Vec<VersionInfo>, limit: usize) -> (r: Vec<VersionInfo>)
    ensures
        newest_first(r@),
        r@.len() == if infos@.len() < limit { infos@.len() } else { limit as nat },
{
    let mut sorted = sort_newest_first(infos);
    proof {
        infos@.to_multiset_ensures();
        sorted@.to_multiset_ensures();
    }
    let ghost full = sorted@;
    sorted.truncate(limit);
    proof {
        assert forall|i: int| 0 <= i < sorted@.len() - 1 implies !key_lt(
            release_key((#[trigger] sorted@[i]).version@),
            release_key(sorted@[i + 1].version@),
        ) by {
            assert(sorted@[i] == full[i]);
            assert(sorted@[i + 1] == full[i + 1]);
        }
    }
    sorted
}


/// The pieces of `s` between its spaces, empty pieces included.
pub open spec fn space_pieces(s: Seq<char>) -> Seq<Seq<char>>
    decreases s.len(),
{
    if s.len() == 0 {
        seq![Seq::<char>::empty()]
    } else {
        let prev = space_pieces(s.drop_last());
        if is_space(s.last()) {
            prev.push(Seq::<char>::empty())
        } else {
            prev.update(prev.len() - 1, prev.last().push(s.last()))
        }
    }
}

proof fn lemma_space_pieces_nonempty(s: Seq<char>)
    ensures
        space_pieces(s).len() >= 1,
    decreases s.len(),
{
    if s.len() > 0 {
        lemma_space_pieces_nonempty(s.drop_last());
    }
}

pub open spec fn nonempty_pieces(p: Seq<Seq<char>>) -> Seq<Seq<char>>
    decreases p.len(),
{
    if p.len() == 0 {
        p
    } else if p.last().len() == 0 {
        nonempty_pieces(p.drop_last())
    } else {
        nonempty_pieces(p.drop_last()).push(p.last())
    }
}

/// The words of a text, as `str::split_whitespace` gives them.
pub open spec fn words(s: Seq<char>) -> Seq<Seq<char>> {
    nonempty_pieces(space_pieces(s))
}

fn words_of(v: &Vec<char>) -> (r: Vec<Vec<char>>)
    ensures
        crate::text::views(r@) == words(v@),
{
    let mut parts: Vec<Vec<char>> = Vec::new();
    let mut cur: Vec<char> = Vec::new();
    let mut i: usize = 0;
    assert(v@.subrange(0, 0) =~= Seq::<char>::empty());
    assert(crate::text::views(parts@).push(cur@) =~= space_pieces(v@.subrange(0, 0)));
    while i < v.len()
        invariant
            i <= v@.len(),
            crate::text::views(parts@).push(cur@) == space_pieces(v@.subrange(0, i as int)),
        decreases v@.len() - i,
    {
        let c = v[i];
        let ghost before = v@.subrange(0, i as int);
        let ghost after = v@.subrange(0, i + 1);
        assert(after.drop_last() =~= before);
        proof {
            lemma_space_pieces_nonempty(before);
        }
        if space_char(c) {
            let done = cur;
            parts.push(done);
            cur = Vec::new();
            assert(crate::text::views(parts@).push(cur@) =~= space_pieces(after));
        } else {
            cur.push(c);
            assert(crate::text::views(parts@).push(cur@) =~= space_pieces(after));
        }
        i = i + 1;
    }
    assert(v@.subrange(0, v@.len() as int) =~= v@);
    let last = cur;
    parts.push(last);
    let ghost ps = crate::text::views(parts@);
    assert(ps =~= space_pieces(v@));
    let mut out: Vec<Vec<char>> = Vec::new();
    let mut k: usize = 0;
    assert(ps.subrange(0, 0) =~= Seq::<Seq<char>>::empty());
    while k < parts.len()
        invariant
            ps == crate::text::views(parts@),
            k <= parts@.len(),
            crate::text::views(out@) == nonempty_pieces(ps.subrange(0, k as int)),
        decreases parts@.len() - k,
    {
        let ghost post = ps.subrange(0, k + 1);
        assert(post.drop_last() =~= ps.subrange(0, k as int));
        assert(post.last() == parts@[k as int]@);
        if parts[k].len() > 0 {
            let w = crate::text::sub_chars(&parts[k], 0, parts[k].len());
            assert(parts@[k as int]@.subrange(0, parts@[k as int]@.len() as int) =~= parts@[k as int]@);
            out.push(w);
            assert(crate::text::views(out@) =~= nonempty_pieces(post));
        }
        k = k + 1;
    }
    assert(ps.subrange(0, ps.len() as int) =~= ps);
    out
}

/// `s` without the commas it ends with.
pub open spec fn without_trailing_commas(s: Seq<char>) -> Seq<char>
    decreases s.len(),
{
    if s.len() > 0 && s.last() == ',' {
        without_trailing_commas(s.drop_last())
    } else {
        s
    }
}

fn strip_commas(v: &Vec<char>) -> (r: Vec<char>)
    ensures
        r@ == without_trailing_commas(v@),
{
    let mut j: usize = v.len();
    assert(v@.subrange(0, j as int) =~= v@);
    while j > 0 && v[j - 1] == ','
        invariant
            j <= v@.len(),
            without_trailing_commas(v@) == without_trailing_commas(v@.subrange(0, j as int)),
        decreases j,
    {
        assert(v@.subrange(0, j as int).drop_last() =~= v@.subrange(0, j - 1));
        j = j - 1;
    }
    crate::text::sub_chars(v, 0, j)
}

/// The two-digit number of a month, by its lowercase English name or
/// three-letter abbreviation.
pub open spec fn month_number(w: Seq<char>) -> Option<Seq<char>> {
    if w == "january"@ {
        Some("01"@)
    } else if w == "february"@ {
        Some("02"@)
    } else if w == "march"@ {
        Some("03"@)
    } else if w == "april"@ {
        Some("04"@)
    } else if w == "may"@ {
        Some("05"@)
    } else if w == "june"@ {
        Some("06"@)
    } else if w == "july"@ {
        Some("07"@)
    } else if w == "august"@ {
        Some("08"@)
    } else if w == "september"@ {
        Some("09"@)
    } else if w == "october"@ {
        Some("10"@)
    } else if w == "november"@ {
        Some("11"@)
    } else if w == "december"@ {
        Some("12"@)
    } else if w == "jan"@ {
        Some("01"@)
    } else if w == "feb"@ {
        Some("02"@)
    } else if w == "mar"@ {
        Some("03"@)
    } else if w == "apr"@ {
        Some("04"@)
    } else if w == "jun"@ {
        Some("06"@)
    } else if w == "jul"@ {
        Some("07"@)
    } else if w == "aug"@ {
        Some("08"@)
    } else if w == "sep"@ {
        Some("09"@)
    } else if w == "oct"@ {
        Some("10"@)
    } else if w == "nov"@ {
        Some("11"@)
    } else if w == "dec"@ {
        Some("12"@)
    } else {
        None
    }
}

fn month_of(w: &str) -> (r: Option<&'static str>)
    ensures
        match r {
            Some(m) => month_number(w@) == Some(m@),
            None => month_number(w@) is None,
        },
{
    let m = if w.eq("january") {
        "01"
    } else if w.eq("february") {
        "02"
    } else if w.eq("march") {
        "03"
    } else if w.eq("april") {
        "04"
    } else if w.eq("may") {
        "05"
    } else if w.eq("june") {
        "06"
    } else if w.eq("july") {
        "07"
    } else if w.eq("august") {
        "08"
    } else if w.eq("september") {
        "09"
    } else if w.eq("october") {
        "10"
    } else if w.eq("november") {
        "11"
    } else if w.eq("december") {
        "12"
    } else if w.eq("jan") {
        "01"
    } else if w.eq("feb") {
        "02"
    } else if w.eq("mar") {
        "03"
    } else if w.eq("apr") {
        "04"
    } else if w.eq("jun") {
        "06"
    } else if w.eq("jul") {
        "07"
    } else if w.eq("aug") {
        "08"
    } else if w.eq("sep") {
        "09"
    } else if w.eq("oct") {
        "10"
    } else if w.eq("nov") {
        "11"
    } else if w.eq("dec") {
        "12"
    } else {
        return None;
    };
    Some(m)
}

/// A date written `month day, year` (in any case, with any spacing) as
/// `year-month-day`, with two-digit month and day; for days 1 to 31 and
/// years 2000 to 2100 only.
pub open spec fn iso_date(lower: Seq<char>) -> Option<Seq<char>> {
    let w = words(lower);
    if w.len() >= 3 && month_number(w[0]) is Some && byte_text(without_trailing_commas(w[1])) is Some
        && u32_text(w[2]) is Some {
        let day = byte_text(without_trailing_commas(w[1]))->Some_0;
        let year = u32_text(w[2])->Some_0;
        if 1 <= day <= 31 && 2000 <= year <= 2100 {
            Some(decimal(year as nat) + "-"@ + month_number(w[0])->Some_0 + "-"@ + (if day < 10 {
                "0"@ + decimal(day as nat)
            } else {
                decimal(day as nat)
            }))
        } else {
            None
        }
    } else {
        None
    }
}

/// Reads a lowercase date such as `december 31, 2029`.
pub fn iso_date_from_lowered(lower: &str) -> (r: Option<String>)
    ensures
        match r {
            Some(d) => iso_date(lower@) == Some(d@),
            None => iso_date(lower@) is None,
        },
{
    let v = chars_of(lower);
    let w = words_of(&v);
    if w.len() < 3 {
        return None;
    }
    assert(crate::text::views(w@)[0] == w@[0]@);
    assert(crate::text::views(w@)[1] == w@[1]@);
    assert(crate::text::views(w@)[2] == w@[2]@);
    let name = string_of(&w[0]);
    let month = match month_of(name.as_str()) {
        Some(m) => m,
        None => return None,
    };
    let day_text = strip_commas(&w[1]);
    let day = match parse_byte(&day_text) {
        Some(d) => d,
        None => return None,
    };
    let year = match parse_u32(&w[2]) {
        Some(y) => y,
        None => return None,
    };
    if !(1 <= day && day <= 31 && 2000 <= year && year <= 2100) {
        return None;
    }
    let mut r = String::new();
    push_decimal(&mut r, year as u64);
    push_str(&mut r, "-");
    push_str(&mut r, month);
    push_str(&mut r, "-");
    if day < 10 {
        push_str(&mut r, "0");
    }
    push_decimal(&mut r, day as u64);
    proof {
        assert(r@ =~= iso_date(lower@)->Some_0);
    }
    Some(r)
}

/// Reads a date such as `December 31, 2029` or `Dec 31, 2029` as
/// `2029-12-31`.
pub fn parse_date_to_iso(date_str: &str) -> (r: Option<String>)
    ensures
        match r {
            Some(d) => iso_date(lower_of(date_str@)) == Some(d@),
            None => iso_date(lower_of(date_str@)) is None,
        },
{
    let lower = lowercase(date_str);
    iso_date_from_lowered(lower.as_str())
}

} // verus!
