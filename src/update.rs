//! The decisions of the manager's own updates: comparing release versions,
//! recognising this application's release assets, picking the asset that
//! suits the platform, and the extension of a downloaded update.

use crate::platform::Platform;
use crate::text::{
    chars_of, contains_str, contains_text, ends_with, ends_with_str, lower_of, lowercase,
    parse_u32, split, split_chars, string_of, sub_chars, u32_text, views, find_char, first_index,
    lemma_first_index_found, eq_ascii_folded, eq_ignore_case_chars,
};
use vstd::prelude::*;

verus! {

/// What a release check found.
#[derive(Debug, Clone)]
pub struct UpdateInfo {
    pub current_version: String,
    pub latest_version: String,
    pub update_available: bool,
    pub download_url: Option<String>,
    pub release_url: Option<String>,
}

/// One downloadable file of a release.
#[derive(Debug, Clone)]
pub struct ReleaseAsset {
    pub name: String,
    pub browser_download_url: String,
}

/// The version of this application.
pub fn get_current_version() -> (r: String)
    ensures
        r@ == "0.1.0"@,
{
    "0.1.0".to_owned()
}

/// The components of a version text that read as numbers, in order; the
/// others are skipped.
pub open spec fn numbers_of(parts: Seq<Seq<char>>) -> Seq<u32>
    decreases parts.len(),
{
    if parts.len() == 0 {
        Seq::empty()
    } else {
        match u32_text(parts.last()) {
            Some(n) => numbers_of(parts.drop_last()).push(n),
            None => numbers_of(parts.drop_last()),
        }
    }
}

pub open spec fn component(v: Seq<u32>, i: int) -> u32 {
    if 0 <= i < v.len() {
        v[i]
    } else {
        0
    }
}

pub open spec fn longer(a: Seq<u32>, b: Seq<u32>) -> int {
    if a.len() > b.len() {
        a.len() as int
    } else {
        b.len() as int
    }
}

/// The comparison of two lists of numbers from position `i` on, the shorter
/// one read as if padded with zeros.
pub open spec fn cmp_from(a: Seq<u32>, b: Seq<u32>, i: int) -> i32
    decreases longer(a, b) - i,
{
    if i >= longer(a, b) {
        0i32
    } else if component(a, i) < component(b, i) {
        -1i32
    } else if component(a, i) > component(b, i) {
        1i32
    } else {
        cmp_from(a, b, i + 1)
    }
}

/// The comparison of two version texts: -1, 0 or 1.
pub open spec fn version_order(v1: Seq<char>, v2: Seq<char>) -> i32 {
    cmp_from(numbers_of(split(v1, '.')), numbers_of(split(v2, '.')), 0)
}

fn numbers(s: &str) -> (r: Vec<u32>)
    ensures
        r@ == numbers_of(split(s@, '.')),
{
    let v = chars_of(s);
    let parts = split_chars(&v, '.');
    let ghost ps = views(parts@);
    let mut out: Vec<u32> = Vec::new();
    let mut i: usize = 0;
    assert(ps.subrange(0, 0) =~= Seq::<Seq<char>>::empty());
    while i < parts.len()
        invariant
            ps == views(parts@),
            ps == split(s@, '.'),
            i <= parts@.len(),
            out@ == numbers_of(ps.subrange(0, i as int)),
        decreases parts@.len() - i,
    {
        let ghost post = ps.subrange(0, i + 1);
        assert(post.drop_last() =~= ps.subrange(0, i as int));
        assert(post.last() == parts@[i as int]@);
        match parse_u32(&parts[i]) {
            Some(n) => out.push(n),
            None => {},
        }
        i = i + 1;
    }
    assert(ps.subrange(0, ps.len() as int) =~= ps);
    out
}

/// Compares two version texts component by component as numbers, the
/// shorter read as if padded with zeros: -1 when `v1` is older, 1 when newer,
/// 0 when equal.
pub fn compare_versions(v1: &str, v2: &str) -> (r: i32)
    ensures
        r == version_order(v1@, v2@),
{
    let a = numbers(v1);
    let b = numbers(v2);
    let n = if a.len() > b.len() { a.len() } else { b.len() };
    let mut i: usize = 0;
    while i < n
        invariant
            a@ == numbers_of(split(v1@, '.')),
            b@ == numbers_of(split(v2@, '.')),
            n as int == longer(a@, b@),
            i <= n,
            cmp_from(a@, b@, 0) == cmp_from(a@, b@, i as int),
        decreases n - i,
    {
        let x: u32 = if i < a.len() { a[i] } else { 0 };
        let y: u32 = if i < b.len() { b[i] } else { 0 };
        assert(x == component(a@, i as int));
        assert(y == component(b@, i as int));
        if x < y {
            return -1;
        } else if x > y {
            return 1;
        }
        i = i + 1;
    }
    0
}

/// A lowercase asset name that names this application.
pub open spec fn names_app(lower: Seq<char>) -> bool {
    contains_text(lower, "php.version.manager"@) || contains_text(lower, "php version manager"@)
        || contains_text(lower, "php-version-manager"@) || contains_text(lower, "phpvm"@)
        || contains_text(lower, "php_version_manager"@)
}

/// Whether a lowercase asset name names this application.
pub fn matches_app_name_lowered(lower: &str) -> (r: bool)
    ensures
        r == names_app(lower@),
{
    contains_str(lower, "php.version.manager") || contains_str(lower, "php version manager")
        || contains_str(lower, "php-version-manager") || contains_str(lower, "phpvm")
        || contains_str(lower, "php_version_manager")
}

/// Whether an asset name names this application, whatever its case.
pub fn matches_app_name(name: &str) -> (r: bool)
    ensures
        r == names_app(lower_of(name@)),
{
    let lower = lowercase(name);
    matches_app_name_lowered(lower.as_str())
}

/// The kinds of asset looked for, in the order of preference of each case.
#[derive(Debug, Clone, Copy, PartialEq, Eq, Structural)]
pub enum AssetRule {
    /// A portable executable of this application.
    StandaloneExe,
    /// Any executable of this application.
    AppExeLowered,
    /// Any installer, of whatever application.
    AnyInstaller,
    /// A setup executable of this application.
    SetupExe,
    /// An MSI package of this application.
    Msi,
    /// An executable of this application, by its exact name.
    AppExe,
    AppImage,
    Deb,
    Rpm,
}

/// Whether an asset with `name` and lowercase name `lower` is of the kind.
pub open spec fn rule_holds(rule: AssetRule, name: Seq<char>, lower: Seq<char>) -> bool {
    let setup = contains_text(lower, "setup"@) || contains_text(lower, "x64-setup"@);
    match rule {
        AssetRule::StandaloneExe => ends_with(lower, ".exe"@) && !contains_text(lower, "setup"@)
            && !contains_text(lower, "installer"@) && !contains_text(lower, "x64-setup"@)
            && names_app(lower),
        AssetRule::AppExeLowered => ends_with(lower, ".exe"@) && names_app(lower),
        AssetRule::AnyInstaller => (ends_with(lower, ".exe"@) && setup) || ends_with(lower, ".msi"@),
        AssetRule::SetupExe => ends_with(lower, ".exe"@) && setup && names_app(lower),
        AssetRule::Msi => ends_with(name, ".msi"@) && names_app(lower),
        AssetRule::AppExe => ends_with(name, ".exe"@) && names_app(lower),
        AssetRule::AppImage => ends_with(name, ".AppImage"@) && names_app(lower),
        AssetRule::Deb => ends_with(name, ".deb"@) && names_app(lower),
        AssetRule::Rpm => ends_with(name, ".rpm"@) && names_app(lower),
    }
}

fn rule_holds_exec(rule: AssetRule, name: &str, lower: &str) -> (r: bool)
    ensures
        r == rule_holds(rule, name@, lower@),
{
    let setup = contains_str(lower, "setup") || contains_str(lower, "x64-setup");
    match rule {
        AssetRule::StandaloneExe => ends_with_str(lower, ".exe") && !contains_str(lower, "setup")
            && !contains_str(lower, "installer") && !contains_str(lower, "x64-setup")
            && matches_app_name_lowered(lower),
        AssetRule::AppExeLowered => ends_with_str(lower, ".exe") && matches_app_name_lowered(lower),
        AssetRule::AnyInstaller => (ends_with_str(lower, ".exe") && setup) || ends_with_str(
            lower,
            ".msi",
        ),
        AssetRule::SetupExe => ends_with_str(lower, ".exe") && setup && matches_app_name_lowered(
            lower,
        ),
        AssetRule::Msi => ends_with_str(name, ".msi") && matches_app_name_lowered(lower),
        AssetRule::AppExe => ends_with_str(name, ".exe") && matches_app_name_lowered(lower),
        AssetRule::AppImage => ends_with_str(name, ".AppImage") && matches_app_name_lowered(lower),
        AssetRule::Deb => ends_with_str(name, ".deb") && matches_app_name_lowered(lower),
        AssetRule::Rpm => ends_with_str(name, ".rpm") && matches_app_name_lowered(lower),
    }
}

/// The download URL of the first asset of the kind.
pub open spec fn first_of_kind(
    assets: Seq<ReleaseAsset>,
    lowers: Seq<Seq<char>>,
    rule: AssetRule,
    i: int,
) -> Option<Seq<char>>
    decreases assets.len() - i,
{
    if i >= assets.len() || i < 0 {
        None
    } else if rule_holds(rule, assets[i].name@, lowers[i]) {
        Some(assets[i].browser_download_url@)
    } else {
        first_of_kind(assets, lowers, rule, i + 1)
    }
}

pub open spec fn first_some(a: Option<Seq<char>>, b: Option<Seq<char>>, c: Option<Seq<char>>) -> Option<
    Seq<char>,
> {
    if a is Some {
        a
    } else if b is Some {
        b
    } else {
        c
    }
}

/// The kinds looked for, in order: on Windows, from a portable executable a
/// portable one, then any executable of the application, then any installer;
/// from an installed copy a setup executable, then an MSI package, then any
/// executable of the application; elsewhere an AppImage, then a Debian
/// package, then an RPM package.
pub open spec fn preference(platform: Platform, standalone: bool) -> Seq<AssetRule> {
    match platform {
        Platform::Windows => if standalone {
            seq![AssetRule::StandaloneExe, AssetRule::AppExeLowered, AssetRule::AnyInstaller]
        } else {
            seq![AssetRule::SetupExe, AssetRule::Msi, AssetRule::AppExe]
        },
        Platform::Posix => seq![AssetRule::AppImage, AssetRule::Deb, AssetRule::Rpm],
    }
}

pub open spec fn picked(
    platform: Platform,
    standalone: bool,
    assets: Seq<ReleaseAsset>,
    lowers: Seq<Seq<char>>,
) -> Option<Seq<char>> {
    let p = preference(platform, standalone);
    first_some(
        first_of_kind(assets, lowers, p[0], 0),
        first_of_kind(assets, lowers, p[1], 0),
        first_of_kind(assets, lowers, p[2], 0),
    )
}

pub open spec fn opt_text(o: Option<String>) -> Option<Seq<char>> {
    match o {
        Some(s) => Some(s@),
        None => None,
    }
}

fn find_of_kind(assets: &Vec<ReleaseAsset>, lowers: &Vec<String>, rule: AssetRule) -> (r: Option<String>)
    requires
        lowers@.len() == assets@.len(),
    ensures
        opt_text(r) == first_of_kind(assets@, lowers@.map_values(|s: String| s@), rule, 0),
{
    let ghost ls = lowers@.map_values(|s: String| s@);
    let mut i: usize = 0;
    while i < assets.len()
        invariant
            lowers@.len() == assets@.len(),
            ls == lowers@.map_values(|s: String| s@),
            i <= assets@.len(),
            first_of_kind(assets@, ls, rule, 0) == first_of_kind(assets@, ls, rule, i as int),
        decreases assets@.len() - i,
    {
        assert(ls[i as int] == lowers@[i as int]@);
        if rule_holds_exec(rule, assets[i].name.as_str(), lowers[i].as_str()) {
            return Some(assets[i].browser_download_url.clone());
        }
        i = i + 1;
    }
    None
}

/// Picks the asset that suits the platform, given the assets' lowercase
/// names in `lowers`, one for each asset.
pub fn pick_asset(
    platform: Platform,
    standalone: bool,
    assets: &Vec<ReleaseAsset>,
    lowers: &Vec<String>,
) -> (r: Option<String>)
    requires
        lowers@.len() == assets@.len(),
    ensures
        opt_text(r) == picked(platform, standalone, assets@, lowers@.map_values(|s: String| s@)),
{
    let (a, b, c) = match platform {
        Platform::Windows => if standalone {
            (AssetRule::StandaloneExe, AssetRule::AppExeLowered, AssetRule::AnyInstaller)
        } else {
            (AssetRule::SetupExe, AssetRule::Msi, AssetRule::AppExe)
        },
        Platform::Posix => (AssetRule::AppImage, AssetRule::Deb, AssetRule::Rpm),
    };
    match find_of_kind(assets, lowers, a) {
        Some(u) => Some(u),
        None => match find_of_kind(assets, lowers, b) {
            Some(u) => Some(u),
            None => find_of_kind(assets, lowers, c),
        },
    }
}

/// Picks the asset that suits the platform, and on Windows whether this copy
/// runs portable (`standalone`) or installed.
pub fn detect_platform_asset(platform: Platform, standalone: bool, assets: &Vec<ReleaseAsset>) -> (r:
    Option<String>)
    ensures
        opt_text(r) == picked(
            platform,
            standalone,
            assets@,
            assets@.map_values(|a: ReleaseAsset| lower_of(a.name@)),
        ),
{
    let mut lowers: Vec<String> = Vec::new();
    let mut i: usize = 0;
    while i < assets.len()
        invariant
            i <= assets@.len(),
            lowers@.len() == i,
            forall|j: int| 0 <= j < i ==> lowers@[j]@ == lower_of(assets@[j].name@),
        decreases assets@.len() - i,
    {
        lowers.push(lowercase(assets[i].name.as_str()));
        i = i + 1;
    }
    assert(lowers@.map_values(|s: String| s@) =~= assets@.map_values(
        |a: ReleaseAsset| lower_of(a.name@),
    ));
    pick_asset(platform, standalone, assets, &lowers)
}

/// The last position of `c` in `s`, or -1.
pub open spec fn last_index(s: Seq<char>, c: char) -> int
    decreases s.len(),
{
    if s.len() == 0 {
        -1
    } else if s.last() == c {
        s.len() - 1
    } else {
        last_index(s.drop_last(), c)
    }
}

fn find_last(v: &Vec<char>, c: char) -> (r: Option<usize>)
    ensures
        match r {
            Some(k) => last_index(v@, c) == k as int && k < v@.len(),
            None => last_index(v@, c) == -1,
        },
{
    let mut j: usize = v.len();
    assert(v@.subrange(0, j as int) =~= v@);
    while j > 0
        invariant
            j <= v@.len(),
            last_index(v@, c) == last_index(v@.subrange(0, j as int), c),
        decreases j,
    {
        let ghost pre = v@.subrange(0, j as int);
        if v[j - 1] == c {
            return Some(j - 1);
        }
        assert(pre.drop_last() =~= v@.subrange(0, j - 1));
        j = j - 1;
    }
    None
}

/// What follows the last `.` of the text before any `?`, when it is one to
/// ten characters long; otherwise the platform's usual extension of an
/// update.
pub open spec fn extension_text(url: Seq<char>, platform: Platform) -> Seq<char> {
    let q = first_index(url, '?');
    let base = if q >= 0 {
        url.subrange(0, q)
    } else {
        url
    };
    let d = last_index(base, '.');
    let len = base.len() - d - 1;
    if d >= 0 && 1 <= len <= 10 {
        base.subrange(d + 1, base.len() as int)
    } else {
        match platform {
            Platform::Windows => ".exe"@,
            Platform::Posix => ".AppImage"@,
        }
    }
}

pub fn get_file_extension_from_url(url: &str, platform: Platform) -> (r: String)
    ensures
        r@ == extension_text(url@, platform),
{
    let v = chars_of(url);
    proof {
        lemma_first_index_found(v@, '?');
    }
    let base = match find_char(&v, '?') {
        Some(q) => sub_chars(&v, 0, q),
        None => sub_chars(&v, 0, v.len()),
    };
    assert(v@.subrange(0, v@.len() as int) =~= v@);
    match find_last(&base, '.') {
        Some(d) => {
            let len = base.len() - d - 1;
            if 1 <= len && len <= 10 {
                let ext = sub_chars(&base, d + 1, base.len());
                return string_of(&ext);
            }
        },
        None => {},
    }
    match platform {
        Platform::Windows => ".exe".to_owned(),
        Platform::Posix => ".AppImage".to_owned(),
    }
}


/// `s` without the `v`s it starts with.
pub open spec fn strip_v(s: Seq<char>) -> Seq<char>
    decreases s.len(),
{
    if s.len() > 0 && s[0] == 'v' {
        strip_v(s.drop_first())
    } else {
        s
    }
}

fn strip_v_chars(s: &str) -> (r: String)
    ensures
        r@ == strip_v(s@),
{
    let v = chars_of(s);
    let mut i: usize = 0;
    assert(v@.subrange(0, v@.len() as int) =~= v@);
    while i < v.len() && v[i] == 'v'
        invariant
            i <= v@.len(),
            strip_v(v@) == strip_v(v@.subrange(i as int, v@.len() as int)),
        decreases v@.len() - i,
    {
        assert(v@.subrange(i as int, v@.len() as int).drop_first() =~= v@.subrange(
            i + 1,
            v@.len() as int,
        ));
        i = i + 1;
    }
    let rest = sub_chars(&v, i, v.len());
    string_of(&rest)
}

/// What a release check finds, from the current version, the latest
/// release's tag, its page and its assets: the tag without its leading `v`s
/// is the latest version, an update is available when the current version is
/// older, and the asset is the one that suits the platform.
pub fn update_info_from(
    current: &str,
    tag: &str,
    release_url: &str,
    assets: &Vec<ReleaseAsset>,
    platform: Platform,
    standalone: bool,
) -> (r: UpdateInfo)
    ensures
        r.current_version@ == current@,
        r.latest_version@ == strip_v(tag@),
        r.update_available == (version_order(current@, strip_v(tag@)) < 0),
        opt_text(r.download_url) == picked(
            platform,
            standalone,
            assets@,
            assets@.map_values(|a: ReleaseAsset| lower_of(a.name@)),
        ),
        opt_text(r.release_url) == Some(release_url@),
{
    let latest = strip_v_chars(tag);
    let update_available = compare_versions(current, latest.as_str()) < 0;
    let download_url = detect_platform_asset(platform, standalone, assets);
    UpdateInfo {
        current_version: current.to_owned(),
        latest_version: latest,
        update_available,
        download_url,
        release_url: Some(release_url.to_owned()),
    }
}

/// The last component of a path: what follows its last `/` or `\`.
pub open spec fn last_component(s: Seq<char>) -> Seq<char>
    decreases s.len(),
{
    if s.len() == 0 {
        s
    } else if s.last() == '/' || s.last() == '\\' {
        Seq::empty()
    } else {
        last_component(s.drop_last()).push(s.last())
    }
}

fn last_component_chars(v: &Vec<char>) -> (r: Vec<char>)
    ensures
        r@ == last_component(v@),
{
    let mut j: usize = v.len();
    assert(v@.subrange(0, j as int) =~= v@);
    while j > 0 && v[j - 1] != '/' && v[j - 1] != '\\'
        invariant
            j <= v@.len(),
            last_component(v@) == last_component(v@.subrange(0, j as int)) + v@.subrange(
                j as int,
                v@.len() as int,
            ),
        decreases j,
    {
        let ghost pre = v@.subrange(0, j as int);
        assert(pre.drop_last() =~= v@.subrange(0, j - 1));
        assert(last_component(pre) == last_component(pre.drop_last()).push(pre.last()));
        assert(last_component(v@.subrange(0, j - 1)) + v@.subrange(j - 1, v@.len() as int)
            =~= last_component(pre) + v@.subrange(j as int, v@.len() as int));
        j = j - 1;
    }
    assert(last_component(v@.subrange(0, j as int)) =~= Seq::<char>::empty());
    assert(v@.subrange(j as int, v@.len() as int) =~= Seq::<char>::empty() + v@.subrange(
        j as int,
        v@.len() as int,
    ));
    sub_chars(v, j, v.len())
}

/// A copy runs portable unless its file name says it is an installer or it
/// lives below the program files directory; decided on the lowercase path.
pub open spec fn standalone_path(lower: Seq<char>) -> bool {
    let name = last_component(lower);
    !(contains_text(name, "setup"@) || contains_text(name, "installer"@)) && !(contains_text(
        lower,
        "program files"@,
    ) || contains_text(lower, "programfiles"@))
}

/// Whether the executable at this lowercase path runs portable.
pub fn standalone_from_lowered(lower: &str) -> (r: bool)
    ensures
        r == standalone_path(lower@),
{
    let v = chars_of(lower);
    let name = last_component_chars(&v);
    let n = string_of(&name);
    if contains_str(n.as_str(), "setup") || contains_str(n.as_str(), "installer") {
        return false;
    }
    !(contains_str(lower, "program files") || contains_str(lower, "programfiles"))
}

/// Whether the executable at `exe_path` (`None` when it is not known) runs
/// portable rather than installed.
pub fn is_standalone_executable(exe_path: Option<&str>) -> (r: bool)
    ensures
        r == match exe_path {
            Some(p) => standalone_path(lower_of(p@)),
            None => false,
        },
{
    match exe_path {
        Some(p) => {
            let lower = lowercase(p);
            standalone_from_lowered(lower.as_str())
        },
        None => false,
    }
}

/// How a downloaded update is applied.
#[derive(Debug, Clone, Copy, PartialEq, Eq, Structural)]
pub enum UpdateStep {
    /// Hand the MSI package to the Windows installer.
    RunMsi,
    /// Launch the downloaded installer.
    LaunchInstaller,
    /// Replace the running executable once it has exited.
    ReplaceExecutable,
    /// Make the AppImage executable for the user to run.
    MakeExecutable,
    InstallDeb,
    InstallRpm,
    /// The file type has no way of being applied here.
    Unsupported,
}

pub open spec fn update_step_of(platform: Platform, lower_name: Seq<char>, ext: Seq<char>) -> UpdateStep {
    match platform {
        Platform::Windows => if eq_ascii_folded(ext, "msi"@) {
            UpdateStep::RunMsi
        } else if contains_text(lower_name, "setup"@) || contains_text(lower_name, "installer"@)
            || contains_text(lower_name, "x64-setup"@) {
            UpdateStep::LaunchInstaller
        } else {
            UpdateStep::ReplaceExecutable
        },
        Platform::Posix => if eq_ascii_folded(ext, "AppImage"@) {
            UpdateStep::MakeExecutable
        } else if eq_ascii_folded(ext, "deb"@) {
            UpdateStep::InstallDeb
        } else if eq_ascii_folded(ext, "rpm"@) {
            UpdateStep::InstallRpm
        } else {
            UpdateStep::Unsupported
        },
    }
}

fn ext_is(ext: &Vec<char>, t: &str) -> (r: bool)
    ensures
        r == eq_ascii_folded(ext@, t@),
{
    let tv = chars_of(t);
    eq_ignore_case_chars(ext, &tv)
}

/// How to apply an update file with this lowercase file name and extension
/// (compared without regard to ASCII case).
pub fn update_step(platform: Platform, lower_name: &str, extension: &str) -> (r: UpdateStep)
    ensures
        r == update_step_of(platform, lower_name@, extension@),
{
    let e = chars_of(extension);
    match platform {
        Platform::Windows => if ext_is(&e, "msi") {
            UpdateStep::RunMsi
        } else if contains_str(lower_name, "setup") || contains_str(lower_name, "installer")
            || contains_str(lower_name, "x64-setup") {
            UpdateStep::LaunchInstaller
        } else {
            UpdateStep::ReplaceExecutable
        },
        Platform::Posix => if ext_is(&e, "AppImage") {
            UpdateStep::MakeExecutable
        } else if ext_is(&e, "deb") {
            UpdateStep::InstallDeb
        } else if ext_is(&e, "rpm") {
            UpdateStep::InstallRpm
        } else {
            UpdateStep::Unsupported
        },
    }
}

} // verus!
