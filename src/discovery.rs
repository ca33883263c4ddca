//! Reading the release server's directory page: the archive names it lists
//! become releases, one per version, each with its end-of-life date and the
//! archive to download.

use crate::provider::{
    download_url_text, eol_text, iso_date, newest_first, parse_date_to_iso, sort_newest_first,
    text_of, Provider, VersionInfo,
};
use crate::text::{
    byte_text, chars_of, contains_str, contains_text, decimal, lower_of, push_decimal, push_str,
    string_of, trim_chars, trimmed,
};
use vstd::prelude::*;

verus! {

/// The matches of a pattern in a text, left to right and without overlap;
/// each match lists its groups, the whole match first, `None` for a group
/// that took no part. `None` when the pattern does not compile.
pub uninterp spec fn captures_of(pattern: Seq<char>, text: Seq<char>) -> Option<
    Seq<Seq<Option<Seq<char>>>>,
>;

pub open spec fn group_views(c: Seq<Option<String>>) -> Seq<Option<Seq<char>>> {
    c.map_values(|g: Option<String>| crate::provider::text_of(g))
}

pub open spec fn captures_view(r: Seq<Vec<Option<String>>>) -> Seq<Seq<Option<Seq<char>>>> {
    r.map_values(|c: Vec<Option<String>>| group_views(c@))
}

/// Relies on `regex::Regex::new` and `Regex::captures_iter`: the matches of
/// `pattern` in `text` with their groups, as plain text; the result depends
/// on the two texts alone.
#[verifier::external_body]
fn regex_captures(pattern: &str, text: &str) -> (r: Option<Vec<Vec<Option<String>>>>)
    ensures
        match r {
            Some(v) => captures_of(pattern@, text@) == Some(captures_view(v@)),
            None => captures_of(pattern@, text@) is None,
        },
{
    let re = regex::Regex::new(pattern).ok()?;
    Some(
        re.captures_iter(text).map(
            |c| c.iter().map(|g| g.map(|m| m.as_str().to_string())).collect(),
        ).collect(),
    )
}

/// The archive names of the release directory: version, an optional
/// release-candidate tag, the toolset, an optional `-nts`.
pub open spec fn archive_pattern() -> Seq<char> {
    "php-(\\d+)\\.(\\d+)\\.(\\d+)(?:-RC\\d+)?-Win32-(vs\\d+|vc\\d+)-x64(?:-nts)?\\.zip"@
}

pub open spec fn releases_dir() -> Seq<char> {
    "https://windows.php.net/downloads/releases/"@
}

/// Group `i` of a match, empty when it is missing.
pub open spec fn group(c: Seq<Option<Seq<char>>>, i: int) -> Seq<char> {
    if 0 <= i < c.len() && c[i] is Some {
        c[i]->Some_0
    } else {
        Seq::empty()
    }
}

/// A number group as a byte, 0 when it does not read as one.
pub open spec fn byte_or_zero(s: Seq<char>) -> u8 {
    match byte_text(s) {
        Some(b) => b,
        None => 0,
    }
}

pub open spec fn toolset_group(c: Seq<Option<Seq<char>>>) -> Seq<char> {
    if 4 < c.len() && c[4] is Some {
        c[4]->Some_0
    } else {
        "vc15"@
    }
}

pub open spec fn dotted(a: u8, b: u8, p: u8) -> Seq<char> {
    decimal(a as nat) + "."@ + decimal(b as nat) + "."@ + decimal(p as nat)
}

pub open spec fn listed_url(v: Seq<char>, vs: Seq<char>) -> Seq<char> {
    releases_dir() + "php-"@ + v + "-Win32-"@ + vs + "-x64.zip"@
}

/// A release read from the page: version text, release line, archive URL.
pub struct PageRelease {
    pub version: String,
    pub major: u8,
    pub minor: u8,
    pub url: String,
}

pub open spec fn page_view(e: Seq<PageRelease>) -> Seq<(Seq<char>, u8, u8, Seq<char>)> {
    e.map_values(|x: PageRelease| (x.version@, x.major, x.minor, x.url@))
}

/// The position of the release listed under `v`, if any.
pub open spec fn position_of(e: Seq<(Seq<char>, u8, u8, Seq<char>)>, v: Seq<char>, i: int) -> Option<
    int,
>
    decreases e.len() - i,
{
    if i < 0 || i >= e.len() {
        None
    } else if e[i].0 == v {
        Some(i)
    } else {
        position_of(e, v, i + 1)
    }
}

/// The releases that the matches list, in order of first appearance. A
/// match with a zero major, minor or patch number is skipped; a version is
/// listed once, and a `vs17` archive takes the place of a `vs16` one.
pub open spec fn page_releases(caps: Seq<Seq<Option<Seq<char>>>>) -> Seq<(Seq<char>, u8, u8, Seq<char>)>
    decreases caps.len(),
{
    if caps.len() == 0 {
        Seq::empty()
    } else {
        let acc = page_releases(caps.drop_last());
        let c = caps.last();
        let a = byte_or_zero(group(c, 1));
        let b = byte_or_zero(group(c, 2));
        let p = byte_or_zero(group(c, 3));
        let vs = toolset_group(c);
        if a == 0 || b == 0 || p == 0 {
            acc
        } else {
            let v = dotted(a, b, p);
            match position_of(acc, v, 0) {
                None => acc.push((v, a, b, listed_url(v, vs))),
                Some(i) => if vs == "vs17"@ && contains_text(acc[i].3, "vs16"@) {
                    acc.update(i, (v, a, b, listed_url(v, vs)))
                } else {
                    acc
                },
            }
        }
    }
}

fn group_text(c: &Vec<Option<String>>, i: usize) -> (r: String)
    ensures
        r@ == group(group_views(c@), i as int),
{
    if i < c.len() {
        match &c[i] {
            Some(g) => {
                return g.clone();
            },
            None => {},
        }
    }
    String::new()
}

fn byte_or_zero_of(s: &String) -> (r: u8)
    ensures
        r == byte_or_zero(s@),
{
    let v = chars_of(s.as_str());
    match crate::text::parse_byte(&v) {
        Some(b) => b,
        None => 0,
    }
}

fn find_release(e: &Vec<PageRelease>, v: &String) -> (r: Option<usize>)
    ensures
        match r {
            Some(i) => position_of(page_view(e@), v@, 0) == Some(i as int) && i < e@.len(),
            None => position_of(page_view(e@), v@, 0) is None,
        },
{
    let ghost pv = page_view(e@);
    let mut i: usize = 0;
    while i < e.len()
        invariant
            pv == page_view(e@),
            i <= e@.len(),
            position_of(pv, v@, 0) == position_of(pv, v@, i as int),
        decreases e@.len() - i,
    {
        assert(pv[i as int].0 == e@[i as int].version@);
        if e[i].version.eq(v) {
            return Some(i);
        }
        i = i + 1;
    }
    None
}

/// The releases that the page's matches list, in order of first appearance.
pub fn releases_from_captures(caps: &Vec<Vec<Option<String>>>) -> (r: Vec<PageRelease>)
    ensures
        page_view(r@) == page_releases(captures_view(caps@)),
{
    let ghost cv = captures_view(caps@);
    let mut out: Vec<PageRelease> = Vec::new();
    let mut i: usize = 0;
    assert(cv.subrange(0, 0) =~= Seq::<Seq<Option<Seq<char>>>>::empty());
    assert(page_view(out@) =~= Seq::<(Seq<char>, u8, u8, Seq<char>)>::empty());
    while i < caps.len()
        invariant
            cv == captures_view(caps@),
            i <= caps@.len(),
            page_view(out@) == page_releases(cv.subrange(0, i as int)),
        decreases caps@.len() - i,
    {
        let ghost post = cv.subrange(0, i + 1);
        assert(post.drop_last() =~= cv.subrange(0, i as int));
        assert(post.last() == group_views(caps@[i as int]@));
        let c = &caps[i];
        let a = byte_or_zero_of(&group_text(c, 1));
        let b = byte_or_zero_of(&group_text(c, 2));
        let p = byte_or_zero_of(&group_text(c, 3));
        let vs = if 4 < c.len() {
            match &c[4] {
                Some(g) => g.clone(),
                None => "vc15".to_owned(),
            }
        } else {
            "vc15".to_owned()
        };
        assert(vs@ == toolset_group(group_views(c@)));
        if a != 0 && b != 0 && p != 0 {
            let mut v = String::new();
            push_decimal(&mut v, a as u64);
            push_str(&mut v, ".");
            push_decimal(&mut v, b as u64);
            push_str(&mut v, ".");
            push_decimal(&mut v, p as u64);
            let mut url = String::new();
            push_str(&mut url, "https://windows.php.net/downloads/releases/");
            push_str(&mut url, "php-");
            push_str(&mut url, v.as_str());
            push_str(&mut url, "-Win32-");
            push_str(&mut url, vs.as_str());
            push_str(&mut url, "-x64.zip");
            proof {
                assert(v@ =~= dotted(a, b, p));
                assert(url@ =~= listed_url(v@, vs@));
            }
            let ghost before = page_view(out@);
            match find_release(&out, &v) {
                None => {
                    out.push(PageRelease { version: v, major: a, minor: b, url });
                    assert(page_view(out@) =~= before.push((dotted(a, b, p), a, b, url@)));
                },
                Some(k) => {
                    if vs.as_str().eq("vs17") && contains_str(out[k].url.as_str(), "vs16") {
                        out.set(k, PageRelease { version: v, major: a, minor: b, url });
                        assert(page_view(out@) =~= before.update(
                            k as int,
                            (dotted(a, b, p), a, b, url@),
                        ));
                    }
                },
            }
        }
        i = i + 1;
    }
    assert(cv.subrange(0, cv.len() as int) =~= cv);
    out
}

/// The release of a page entry: no release date or checksum, the release
/// line's end-of-life date, the listed archive.
pub fn release_info(e: PageRelease) -> (r: VersionInfo)
    ensures
        r.version@ == e.version@,
        r.release_date is None,
        r.checksum is None,
        crate::provider::text_of(r.eol_date) == eol_text(e.major, e.minor),
        crate::provider::text_of(r.download_url) == Some(e.url@),
{
    let eol_date = Provider::get_eol_date(e.major, e.minor);
    VersionInfo {
        version: e.version,
        release_date: None,
        eol_date,
        download_url: Some(e.url),
        checksum: None,
    }
}

pub open spec fn page_entry_info(e: (Seq<char>, u8, u8, Seq<char>)) -> (
    Seq<char>,
    Option<Seq<char>>,
    Option<Seq<char>>,
    Seq<char>,
) {
    (e.0, None, eol_text(e.1, e.2), e.3)
}

/// The releases that the release directory page lists, newest first: each
/// listed archive's version once, with the release line's end-of-life date;
/// none when the pattern of archive names does not compile.
pub fn releases_from_page(page: &str) -> (r: Vec<VersionInfo>)
    ensures
        newest_first(r@),
        match captures_of(archive_pattern(), page@) {
            Some(caps) => {
                &&& r@.len() == page_releases(caps).len()
                &&& forall|i: int|
                    0 <= i < r@.len() ==> page_releases(caps).map_values(
                        |e: (Seq<char>, u8, u8, Seq<char>)| page_entry_info(e),
                    ).contains(info_view(#[trigger] r@[i]))
                &&& forall|j: int|
                    0 <= j < page_releases(caps).len() ==> holds_release(
                        r@,
                        page_entry_info(#[trigger] page_releases(caps)[j]),
                    )
            },
            None => r@.len() == 0,
        },
{
    let pattern = "php-(\\d+)\\.(\\d+)\\.(\\d+)(?:-RC\\d+)?-Win32-(vs\\d+|vc\\d+)-x64(?:-nts)?\\.zip";
    let caps = match regex_captures(pattern, page) {
        Some(c) => c,
        None => {
            let empty: Vec<VersionInfo> = Vec::new();
            return empty;
        },
    };
    let mut entries = releases_from_captures(&caps);
    let ghost orig = page_view(entries@);
    let mut infos: Vec<VersionInfo> = Vec::new();
    let ghost n = entries@.len();
    while entries.len() > 0
        invariant
            n == orig.len(),
            infos@.len() + entries@.len() == n,
            page_view(entries@) == orig.subrange(infos@.len() as int, n as int),
            forall|k: int|
                0 <= k < infos@.len() ==> info_view(#[trigger] infos@[k]) == page_entry_info(orig[k]),
        decreases entries@.len(),
    {
        let ghost before = entries@;
        let e = entries.remove(0);
        proof {
            assert(page_view(before)[0] == (e.version@, e.major, e.minor, e.url@));
            assert(page_view(entries@) =~= page_view(before).drop_first());
        }
        let x = release_info(e);
        infos.push(x);
    }
    let ghost listed = orig.map_values(|e: (Seq<char>, u8, u8, Seq<char>)| page_entry_info(e));
    let ghost before_sort = infos@;
    let r = sort_newest_first(infos);
    proof {
        assert forall|k: int| 0 <= k < before_sort.len() implies info_view(#[trigger] before_sort[k])
            == listed[k] by {}
        lemma_same_contents(before_sort, r@, listed);
        assert forall|j: int| 0 <= j < orig.len() implies listed[j] == page_entry_info(
            #[trigger] orig[j],
        ) by {}
    }
    r
}


/// Some release of `r` is `x`.
pub open spec fn holds_release(
    r: Seq<VersionInfo>,
    x: (Seq<char>, Option<Seq<char>>, Option<Seq<char>>, Seq<char>),
) -> bool {
    exists|i: int| 0 <= i < r.len() && info_view(#[trigger] r[i]) == x
}

/// Releases put in another order hold the same releases.
proof fn lemma_same_contents(
    infos: Seq<VersionInfo>,
    r: Seq<VersionInfo>,
    target: Seq<(Seq<char>, Option<Seq<char>>, Option<Seq<char>>, Seq<char>)>,
)
    requires
        r.to_multiset() == infos.to_multiset(),
        target.len() == infos.len(),
        forall|k: int| 0 <= k < infos.len() ==> info_view(#[trigger] infos[k]) == target[k],
    ensures
        r.len() == target.len(),
        forall|i: int| 0 <= i < r.len() ==> target.contains(info_view(#[trigger] r[i])),
        forall|j: int| 0 <= j < target.len() ==> holds_release(r, #[trigger] target[j]),
{
    infos.to_multiset_ensures();
    r.to_multiset_ensures();
    assert forall|i: int| 0 <= i < r.len() implies target.contains(info_view(#[trigger] r[i])) by {
        assert(r.to_multiset().count(r[i]) > 0);
        assert(infos.contains(r[i]));
        let k = choose|k: int| 0 <= k < infos.len() && infos[k] == r[i];
        assert(target[k] == info_view(infos[k]));
    }
    assert forall|j: int| 0 <= j < target.len() implies holds_release(r, #[trigger] target[j]) by {
        assert(infos.contains(infos[j]));
        assert(r.to_multiset().count(infos[j]) > 0);
        let i = choose|i: int| 0 <= i < r.len() && r[i] == infos[j];
        assert(info_view(r[i]) == target[j]);
    }
}

/// A version number anywhere in a page.
pub open spec fn triple_pattern() -> Seq<char> {
    "(\\d+)\\.(\\d+)\\.(\\d+)"@
}

/// The position of the entry of release line `a.b`, if any.
pub open spec fn line_position(e: Seq<(u8, u8, u8)>, a: u8, b: u8, i: int) -> Option<int>
    decreases e.len() - i,
{
    if i < 0 || i >= e.len() {
        None
    } else if e[i].0 == a && e[i].1 == b {
        Some(i)
    } else {
        line_position(e, a, b, i + 1)
    }
}

/// The newest patch of each release line that the matched version numbers
/// name, lines in order of first appearance; numbers with a zero major or
/// patch part are skipped.
pub open spec fn latest_patches(caps: Seq<Seq<Option<Seq<char>>>>) -> Seq<(u8, u8, u8)>
    decreases caps.len(),
{
    if caps.len() == 0 {
        Seq::empty()
    } else {
        let acc = latest_patches(caps.drop_last());
        let c = caps.last();
        let a = byte_or_zero(group(c, 1));
        let b = byte_or_zero(group(c, 2));
        let p = byte_or_zero(group(c, 3));
        if a > 0 && p > 0 {
            match line_position(acc, a, b, 0) {
                None => acc.push((a, b, p)),
                Some(i) => if p > acc[i].2 {
                    acc.update(i, (a, b, p))
                } else {
                    acc
                },
            }
        } else {
            acc
        }
    }
}

/// The table row of the page that links to release line `a.b`.
pub open spec fn row_pattern(a: u8, b: u8) -> Seq<char> {
    "(?s)<tr[^>]*>.*?<a[^>]*href=\"/php/"@ + decimal(a as nat) + "\\."@ + decimal(b as nat)
        + "/\"[^>]*>.*?</tr>"@
}

/// Group `i` of the first match, if there is one.
pub open spec fn first_group(caps: Option<Seq<Seq<Option<Seq<char>>>>>, i: int) -> Option<Seq<char>> {
    match caps {
        Some(c) => if c.len() > 0 && 0 <= i < c[0].len() && c[0][i] is Some {
            Some(c[0][i]->Some_0)
        } else {
            None
        },
        None => None,
    }
}

/// The number of bytes of a text in UTF-8.
pub open spec fn utf8_len(s: Seq<char>) -> nat
    decreases s.len(),
{
    if s.len() == 0 {
        0
    } else {
        utf8_len(s.drop_last()) + (if (s.last() as u32) < 0x80 {
            1nat
        } else if (s.last() as u32) < 0x800 {
            2nat
        } else if (s.last() as u32) < 0x10000 {
            3nat
        } else {
            4nat
        })
    }
}

pub open spec fn dashes(s: Seq<char>) -> nat
    decreases s.len(),
{
    if s.len() == 0 {
        0
    } else {
        dashes(s.drop_last()) + (if s.last() == '-' {
            1nat
        } else {
            0nat
        })
    }
}

/// A date text as the page writes it, read as `year-month-day`: a written
/// out date, or one already in that form (ten bytes, two dashes).
pub open spec fn date_of_text(g: Seq<char>) -> Option<Seq<char>> {
    let d = trimmed(g);
    if d.len() == 0 {
        None
    } else {
        match iso_date(lower_of(d)) {
            Some(x) => Some(x),
            None => if utf8_len(d) == 10 && dashes(d) == 2 {
                Some(d)
            } else {
                None
            },
        }
    }
}

/// The date that follows `label` in a table row: written out, else in
/// `year-month-day` form.
pub open spec fn date_after(row: Seq<char>, label: Seq<char>) -> Option<Seq<char>> {
    let first = match first_group(
        captures_of(label + "[^<]*([A-Za-z]+\\s+\\d{1,2},\\s+\\d{4})"@, row),
        1,
    ) {
        Some(g) => date_of_text(g),
        None => None,
    };
    if first is Some {
        first
    } else {
        match first_group(captures_of(label + "[^<]*(\\d{4}-\\d{2}-\\d{2})"@, row), 1) {
            Some(g) => date_of_text(g),
            None => None,
        }
    }
}

/// The release of line `a.b` with newest patch `p`: its release and
/// end-of-life dates from its table row (the end of life from the table of
/// release lines when the row has none) and its archive; none when the row
/// pattern does not compile.
pub open spec fn line_release(page: Seq<char>, a: u8, b: u8, p: u8) -> Option<
    (Seq<char>, Option<Seq<char>>, Option<Seq<char>>, Seq<char>),
> {
    match captures_of(row_pattern(a, b), page) {
        None => None,
        Some(rows) => {
            let row = match first_group(Some(rows), 0) {
                Some(r) => r,
                None => Seq::empty(),
            };
            let v = dotted(a, b, p);
            let eol = date_after(row, "End of security fixes"@);
            Some(
                (
                    v,
                    date_after(row, "Latest patch release"@),
                    if eol is Some {
                        eol
                    } else {
                        eol_text(a, b)
                    },
                    download_url_text(v, a, b),
                ),
            )
        },
    }
}

/// The releases of the listed lines, in order, without those whose row
/// pattern does not compile.
pub open spec fn line_releases(page: Seq<char>, lines: Seq<(u8, u8, u8)>) -> Seq<
    (Seq<char>, Option<Seq<char>>, Option<Seq<char>>, Seq<char>),
>
    decreases lines.len(),
{
    if lines.len() == 0 {
        Seq::empty()
    } else {
        let acc = line_releases(page, lines.drop_last());
        let l = lines.last();
        match line_release(page, l.0, l.1, l.2) {
            Some(r) => acc.push(r),
            None => acc,
        }
    }
}

pub open spec fn info_view(x: VersionInfo) -> (Seq<char>, Option<Seq<char>>, Option<Seq<char>>, Seq<char>) {
    (
        x.version@,
        text_of(x.release_date),
        text_of(x.eol_date),
        match x.download_url {
            Some(u) => u@,
            None => Seq::empty(),
        },
    )
}

fn first_group_of(caps: &Option<Vec<Vec<Option<String>>>>, i: usize) -> (r: Option<String>)
    ensures
        text_of(r) == first_group(
            match caps {
                Some(c) => Some(captures_view(c@)),
                None => None,
            },
            i as int,
        ),
{
    match caps {
        Some(c) => {
            if c.len() > 0 && i < c[0].len() {
                assert(captures_view(c@)[0] == group_views(c@[0]@));
                assert(group_views(c@[0]@)[i as int] == text_of(c@[0]@[i as int]));
                match &c[0][i] {
                    Some(g) => Some(g.clone()),
                    None => None,
                }
            } else {
                None
            }
        },
        None => None,
    }
}

fn captures(pattern: &String, text: &str) -> (r: Option<Vec<Vec<Option<String>>>>)
    ensures
        match r {
            Some(v) => captures_of(pattern@, text@) == Some(captures_view(v@)),
            None => captures_of(pattern@, text@) is None,
        },
{
    regex_captures(pattern.as_str(), text)
}

fn utf8_len_of(v: &Vec<char>) -> (r: u128)
    ensures
        r as nat == utf8_len(v@),
{
    let mut n: u128 = 0;
    let mut i: usize = 0;
    assert(v@.subrange(0, 0) =~= Seq::<char>::empty());
    while i < v.len()
        invariant
            i <= v@.len(),
            n as nat == utf8_len(v@.subrange(0, i as int)),
            n <= 4 * (i as u128),
        decreases v@.len() - i,
    {
        let c = v[i] as u32;
        let w: u128 = if c < 0x80 { 1 } else if c < 0x800 { 2 } else if c < 0x10000 { 3 } else { 4 };
        assert(v@.subrange(0, i + 1).drop_last() =~= v@.subrange(0, i as int));
        n = n + w;
        i = i + 1;
    }
    assert(v@.subrange(0, v@.len() as int) =~= v@);
    n
}

fn dashes_of(v: &Vec<char>) -> (r: usize)
    ensures
        r as nat == dashes(v@),
{
    let mut n: usize = 0;
    let mut i: usize = 0;
    assert(v@.subrange(0, 0) =~= Seq::<char>::empty());
    while i < v.len()
        invariant
            i <= v@.len(),
            n as nat == dashes(v@.subrange(0, i as int)),
            n <= i,
        decreases v@.len() - i,
    {
        assert(v@.subrange(0, i + 1).drop_last() =~= v@.subrange(0, i as int));
        if v[i] == '-' {
            n = n + 1;
        }
        i = i + 1;
    }
    assert(v@.subrange(0, v@.len() as int) =~= v@);
    n
}

fn date_of_group(g: &String) -> (r: Option<String>)
    ensures
        text_of(r) == date_of_text(g@),
{
    let gv = chars_of(g.as_str());
    let d = trim_chars(&gv);
    if d.len() == 0 {
        return None;
    }
    let ds = string_of(&d);
    match parse_date_to_iso(ds.as_str()) {
        Some(x) => Some(x),
        None => {
            if utf8_len_of(&d) == 10 && dashes_of(&d) == 2 {
                Some(ds)
            } else {
                None
            }
        },
    }
}

fn date_after_of(row: &String, label: &str) -> (r: Option<String>)
    ensures
        text_of(r) == date_after(row@, label@),
{
    let mut p1 = String::new();
    push_str(&mut p1, label);
    push_str(&mut p1, "[^<]*([A-Za-z]+\\s+\\d{1,2},\\s+\\d{4})");
    let c1 = captures(&p1, row.as_str());
    let first = match first_group_of(&c1, 1) {
        Some(g) => date_of_group(&g),
        None => None,
    };
    if first.is_some() {
        return first;
    }
    let mut p2 = String::new();
    push_str(&mut p2, label);
    push_str(&mut p2, "[^<]*(\\d{4}-\\d{2}-\\d{2})");
    let c2 = captures(&p2, row.as_str());
    match first_group_of(&c2, 1) {
        Some(g) => date_of_group(&g),
        None => None,
    }
}

fn line_info(page: &str, a: u8, b: u8, p: u8) -> (r: Option<VersionInfo>)
    ensures
        match r {
            Some(x) => line_release(page@, a, b, p) == Some(info_view(x)) && x.checksum is None
                && x.download_url is Some,
            None => line_release(page@, a, b, p) is None,
        },
{
    let mut pattern = String::new();
    push_str(&mut pattern, "(?s)<tr[^>]*>.*?<a[^>]*href=\"/php/");
    push_decimal(&mut pattern, a as u64);
    push_str(&mut pattern, "\\.");
    push_decimal(&mut pattern, b as u64);
    push_str(&mut pattern, "/\"[^>]*>.*?</tr>");
    let rows = captures(&pattern, page);
    if rows.is_none() {
        return None;
    }
    let row = match first_group_of(&rows, 0) {
        Some(r) => r,
        None => String::new(),
    };
    let mut v = String::new();
    push_decimal(&mut v, a as u64);
    push_str(&mut v, ".");
    push_decimal(&mut v, b as u64);
    push_str(&mut v, ".");
    push_decimal(&mut v, p as u64);
    proof {
        assert(v@ =~= dotted(a, b, p));
    }
    let eol = match date_after_of(&row, "End of security fixes") {
        Some(d) => Some(d),
        None => Provider::get_eol_date(a, b),
    };
    let release_date = date_after_of(&row, "Latest patch release");
    let url = Provider::generate_download_url(v.as_str(), a, b);
    Some(VersionInfo { version: v, release_date, eol_date: eol, download_url: Some(url), checksum: None })
}

fn find_line(e: &Vec<(u8, u8, u8)>, a: u8, b: u8) -> (r: Option<usize>)
    ensures
        match r {
            Some(i) => line_position(e@, a, b, 0) == Some(i as int) && i < e@.len(),
            None => line_position(e@, a, b, 0) is None,
        },
{
    let mut i: usize = 0;
    while i < e.len()
        invariant
            i <= e@.len(),
            line_position(e@, a, b, 0) == line_position(e@, a, b, i as int),
        decreases e@.len() - i,
    {
        if e[i].0 == a && e[i].1 == b {
            return Some(i);
        }
        i = i + 1;
    }
    None
}

/// The newest patch of each release line among the matched version numbers.
pub fn latest_of_captures(caps: &Vec<Vec<Option<String>>>) -> (r: Vec<(u8, u8, u8)>)
    ensures
        r@ == latest_patches(captures_view(caps@)),
{
    let ghost cv = captures_view(caps@);
    let mut out: Vec<(u8, u8, u8)> = Vec::new();
    let mut i: usize = 0;
    assert(cv.subrange(0, 0) =~= Seq::<Seq<Option<Seq<char>>>>::empty());
    while i < caps.len()
        invariant
            cv == captures_view(caps@),
            i <= caps@.len(),
            out@ == latest_patches(cv.subrange(0, i as int)),
        decreases caps@.len() - i,
    {
        let ghost post = cv.subrange(0, i + 1);
        assert(post.drop_last() =~= cv.subrange(0, i as int));
        assert(post.last() == group_views(caps@[i as int]@));
        let c = &caps[i];
        let a = byte_or_zero_of(&group_text(c, 1));
        let b = byte_or_zero_of(&group_text(c, 2));
        let p = byte_or_zero_of(&group_text(c, 3));
        if a > 0 && p > 0 {
            match find_line(&out, a, b) {
                None => out.push((a, b, p)),
                Some(k) => {
                    if p > out[k].2 {
                        out.set(k, (a, b, p));
                    }
                },
            }
        }
        i = i + 1;
    }
    assert(cv.subrange(0, cv.len() as int) =~= cv);
    out
}

/// The releases of the release lines that a version table page names, in
/// order of first appearance.
pub fn releases_of_lines(page: &str, lines: &Vec<(u8, u8, u8)>) -> (r: Vec<VersionInfo>)
    ensures
        r@.map_values(|x: VersionInfo| info_view(x)) == line_releases(page@, lines@),
{
    let mut out: Vec<VersionInfo> = Vec::new();
    let mut i: usize = 0;
    assert(lines@.subrange(0, 0) =~= Seq::<(u8, u8, u8)>::empty());
    assert(out@.map_values(|x: VersionInfo| info_view(x)) =~= Seq::<
        (Seq<char>, Option<Seq<char>>, Option<Seq<char>>, Seq<char>),
    >::empty());
    while i < lines.len()
        invariant
            i <= lines@.len(),
            out@.map_values(|x: VersionInfo| info_view(x)) == line_releases(
                page@,
                lines@.subrange(0, i as int),
            ),
        decreases lines@.len() - i,
    {
        let ghost post = lines@.subrange(0, i + 1);
        assert(post.drop_last() =~= lines@.subrange(0, i as int));
        let (a, b, p) = lines[i];
        let ghost before = out@;
        match line_info(page, a, b, p) {
            Some(x) => {
                out.push(x);
                assert(out@.map_values(|x: VersionInfo| info_view(x)) =~= before.map_values(
                    |x: VersionInfo| info_view(x),
                ).push(info_view(out@[before.len() as int])));
            },
            None => {},
        }
        i = i + 1;
    }
    assert(lines@.subrange(0, lines@.len() as int) =~= lines@);
    out
}

/// The releases that a version table page lists, newest first: the newest
/// patch of each release line it names, with the dates of the line's row;
/// none when the version number pattern does not compile.
pub fn releases_from_version_table(page: &str) -> (r: Vec<VersionInfo>)
    ensures
        newest_first(r@),
        match captures_of(triple_pattern(), page@) {
            Some(caps) => {
                let rel = line_releases(page@, latest_patches(caps));
                &&& r@.len() == rel.len()
                &&& forall|i: int| 0 <= i < r@.len() ==> rel.contains(info_view(#[trigger] r@[i]))
                &&& forall|j: int| 0 <= j < rel.len() ==> holds_release(r@, #[trigger] rel[j])
            },
            None => r@.len() == 0,
        },
{
    let caps = match regex_captures("(\\d+)\\.(\\d+)\\.(\\d+)", page) {
        Some(c) => c,
        None => {
            let empty: Vec<VersionInfo> = Vec::new();
            return empty;
        },
    };
    let lines = latest_of_captures(&caps);
    let infos = releases_of_lines(page, &lines);
    let ghost rel = infos@.map_values(|x: VersionInfo| info_view(x));
    let ghost before_sort = infos@;
    let r = sort_newest_first(infos);
    proof {
        assert forall|k: int| 0 <= k < before_sort.len() implies info_view(#[trigger] before_sort[k])
            == rel[k] by {}
        lemma_same_contents(before_sort, r@, rel);
    }
    r
}

} // verus!
