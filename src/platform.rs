//! Platform conventions: where an install keeps its executable, the stable
//! launcher path, the name of the PATH variable and how the PATH entry of the
//! launcher directory is added, found and removed.

use crate::config::get_base_directory;
use crate::text::{
    chars_of, contains_chars, contains_str, contains_text, eq_ascii_folded, eq_ignore_case_chars,
    has_at, join as join_pieces, join_chars, push_chars, push_str, replace_chars, replaced, split,
    split_chars, string_of, trim_chars, trimmed, views,
};
use crate::version::{lemma_split_after, lemma_split_free};
use vstd::prelude::*;

verus! {

/// The two families of platforms: Windows, where the launcher directory holds
/// copies and PATH lives in the registry; and POSIX systems, where the
/// launcher is a symlink and PATH is set from the shell's rc file.
#[derive(Debug, Clone, Copy, PartialEq, Eq, Structural)]
pub enum Platform {
    Windows,
    Posix,
}

/// Relies on `std::path::is_separator`: `\` separates path components on
/// Windows alone.
#[verifier::external_body]
fn backslash_separates() -> (r: bool) {
    std::path::is_separator('\\')
}

impl Platform {
    /// The platform this process runs on.
    pub fn host() -> (r: Platform) {
        if backslash_separates() {
            Platform::Windows
        } else {
            Platform::Posix
        }
    }
}

/// `a` and `b` as one path: `b` below `a`, with one `/` between them.
pub open spec fn join_path(a: Seq<char>, b: Seq<char>) -> Seq<char> {
    if a.len() == 0 {
        b
    } else if a.last() == '/' {
        a + b
    } else {
        a + seq!['/'] + b
    }
}

/// `b` below the directory `a`.
pub fn join(a: &str, b: &str) -> (r: String)
    ensures
        r@ == join_path(a@, b@),
{
    let mut r = String::new();
    push_str(&mut r, a);
    let n = a.unicode_len();
    if n > 0 && a.get_char(n - 1) != '/' {
        r.push('/');
    }
    push_str(&mut r, b);
    r
}

pub open spec fn executable_in(p: Platform, dir: Seq<char>) -> Seq<char> {
    match p {
        Platform::Windows => join_path(dir, "php.exe"@),
        Platform::Posix => join_path(join_path(dir, "bin"@), "php"@),
    }
}

/// The executable whose presence marks an install directory as complete.
pub fn executable_path_for(p: Platform, version_dir: &str) -> (r: String)
    ensures
        r@ == executable_in(p, version_dir@),
{
    match p {
        Platform::Windows => join(version_dir, "php.exe"),
        Platform::Posix => {
            let bin = join(version_dir, "bin");
            join(bin.as_str(), "php")
        },
    }
}

/// The executable marker of an install directory on this host.
pub fn get_php_executable_path(version_dir: &str) -> (r: String)
    ensures
        r@ == executable_in(Platform::Windows, version_dir@) || r@ == executable_in(
            Platform::Posix,
            version_dir@,
        ),
{
    executable_path_for(Platform::host(), version_dir)
}

pub open spec fn launcher_in(p: Platform, base: Seq<char>) -> Seq<char> {
    match p {
        Platform::Windows => join_path(join_path(base, "current"@), "php.bat"@),
        Platform::Posix => join_path(join_path(base, "current"@), "php"@),
    }
}

/// The stable launcher below the base directory `base`.
pub fn launcher_path_for(p: Platform, base: &str) -> (r: String)
    ensures
        r@ == launcher_in(p, base@),
{
    let current = join(base, "current");
    match p {
        Platform::Windows => join(current.as_str(), "php.bat"),
        Platform::Posix => join(current.as_str(), "php"),
    }
}

/// The stable launcher of this host, below the manager's base directory.
pub fn get_current_path() -> (r: String)
    ensures
        exists|base: Seq<char>|
            r@ == launcher_in(Platform::Windows, base) || r@ == launcher_in(Platform::Posix, base),
{
    let base = get_base_directory();
    launcher_path_for(Platform::host(), base.as_str())
}

/// The name of the PATH variable on a platform.
pub fn path_var_for(p: Platform) -> (r: &'static str)
    ensures
        r@ == (match p {
            Platform::Windows => "Path"@,
            Platform::Posix => "PATH"@,
        }),
{
    match p {
        Platform::Windows => "Path",
        Platform::Posix => "PATH",
    }
}

/// The name of the PATH variable on this host.
pub fn get_path_env_var() -> (r: &'static str)
    ensures
        r@ == "Path"@ || r@ == "PATH"@,
{
    path_var_for(Platform::host())
}


/// A PATH entry that looks like the launcher directory of this manager.
pub open spec fn stale_entry(e: Seq<char>) -> bool {
    contains_text(trimmed(e), "phpvm"@) && contains_text(trimmed(e), "current"@)
}

/// The entries that are not stale, in order.
pub open spec fn fresh_entries(entries: Seq<Seq<char>>) -> Seq<Seq<char>>
    decreases entries.len(),
{
    if entries.len() == 0 {
        entries
    } else if stale_entry(entries.last()) {
        fresh_entries(entries.drop_last())
    } else {
        fresh_entries(entries.drop_last()).push(entries.last())
    }
}

/// The registry PATH value with `dir` registered, or `None` when an entry
/// already names `dir` up to ASCII case and surrounding spaces. The new value
/// puts `dir` first and drops the stale launcher entries.
pub open spec fn registry_path_with(value: Seq<char>, dir: Seq<char>) -> Option<Seq<char>> {
    let entries = split(value, ';');
    if exists|i: int| 0 <= i < entries.len() && eq_ascii_folded(trimmed(#[trigger] entries[i]), dir) {
        None
    } else {
        let kept = fresh_entries(entries);
        if forall|i: int| 0 <= i < kept.len() ==> trimmed(#[trigger] kept[i]).len() == 0 {
            Some(dir)
        } else {
            Some(dir + seq![';'] + join_pieces(kept, ';'))
        }
    }
}

fn stale_chars(e: &Vec<char>) -> (r: bool)
    ensures
        r == stale_entry(e@),
{
    let t = trim_chars(e);
    let a = chars_of("phpvm");
    let b = chars_of("current");
    contains_chars(&t, &a) && contains_chars(&t, &b)
}

/// Registers `dir` in the registry PATH value `value`.
pub fn registry_path_with_dir(value: &str, dir: &str) -> (r: Option<String>)
    ensures
        match r {
            Some(x) => registry_path_with(value@, dir@) == Some(x@),
            None => registry_path_with(value@, dir@) is None,
        },
{
    let v = chars_of(value);
    let d = chars_of(dir);
    let entries = split_chars(&v, ';');
    let ghost es = split(value@, ';');
    let mut i: usize = 0;
    while i < entries.len()
        invariant
            es == split(value@, ';'),
            views(entries@) == es,
            d@ == dir@,
            i <= entries@.len(),
            forall|j: int| 0 <= j < i ==> !eq_ascii_folded(trimmed(#[trigger] es[j]), dir@),
        decreases entries@.len() - i,
    {
        let t = trim_chars(&entries[i]);
        assert(es[i as int] == entries@[i as int]@);
        if eq_ignore_case_chars(&t, &d) {
            assert(eq_ascii_folded(trimmed(es[i as int]), dir@));
            return None;
        }
        i = i + 1;
    }
    let mut kept: Vec<Vec<char>> = Vec::new();
    let mut i: usize = 0;
    assert(es.subrange(0, 0) =~= Seq::<Seq<char>>::empty());
    while i < entries.len()
        invariant
            es == split(value@, ';'),
            views(entries@) == es,
            i <= entries@.len(),
            views(kept@) == fresh_entries(es.subrange(0, i as int)),
        decreases entries@.len() - i,
    {
        let ghost post = es.subrange(0, i + 1);
        assert(post.drop_last() =~= es.subrange(0, i as int));
        assert(post.last() == entries@[i as int]@);
        if !stale_chars(&entries[i]) {
            let e = sub_all(&entries[i]);
            kept.push(e);
            assert(views(kept@) =~= fresh_entries(post));
        }
        i = i + 1;
    }
    assert(es.subrange(0, es.len() as int) =~= es);
    let mut blank = true;
    let mut k: usize = 0;
    while k < kept.len()
        invariant
            k <= kept@.len(),
            blank == forall|j: int| 0 <= j < k ==> trimmed(#[trigger] views(kept@)[j]).len() == 0,
        decreases kept@.len() - k,
    {
        let t = trim_chars(&kept[k]);
        assert(views(kept@)[k as int] == kept@[k as int]@);
        if t.len() != 0 {
            blank = false;
        }
        k = k + 1;
    }
    let mut out = String::new();
    push_str(&mut out, dir);
    if !blank {
        out.push(';');
        let joined = join_chars(&kept, ';');
        push_chars(&mut out, &joined);
    }
    Some(out)
}

fn sub_all(v: &Vec<char>) -> (r: Vec<char>)
    ensures
        r@ == v@,
{
    let r = crate::text::sub_chars(v, 0, v.len());
    assert(v@.subrange(0, v@.len() as int) =~= v@);
    r
}

/// The entries that do not hold `dir`, in order.
pub open spec fn entries_without(entries: Seq<Seq<char>>, dir: Seq<char>) -> Seq<Seq<char>>
    decreases entries.len(),
{
    if entries.len() == 0 {
        entries
    } else if contains_text(entries.last(), dir) {
        entries_without(entries.drop_last(), dir)
    } else {
        entries_without(entries.drop_last(), dir).push(entries.last())
    }
}

/// The registry PATH value without the entries that hold `dir`, or `None`
/// when the value does not hold it at all.
pub open spec fn registry_path_without(value: Seq<char>, dir: Seq<char>) -> Option<Seq<char>> {
    if contains_text(value, dir) {
        Some(join_pieces(entries_without(split(value, ';'), dir), ';'))
    } else {
        None
    }
}

/// Unregisters `dir` from the registry PATH value `value`.
pub fn registry_path_without_dir(value: &str, dir: &str) -> (r: Option<String>)
    ensures
        match r {
            Some(x) => registry_path_without(value@, dir@) == Some(x@),
            None => registry_path_without(value@, dir@) is None,
        },
{
    let v = chars_of(value);
    let d = chars_of(dir);
    if !contains_chars(&v, &d) {
        return None;
    }
    let entries = split_chars(&v, ';');
    let ghost es = split(value@, ';');
    let mut kept: Vec<Vec<char>> = Vec::new();
    let mut i: usize = 0;
    assert(es.subrange(0, 0) =~= Seq::<Seq<char>>::empty());
    while i < entries.len()
        invariant
            es == split(value@, ';'),
            views(entries@) == es,
            d@ == dir@,
            i <= entries@.len(),
            views(kept@) == entries_without(es.subrange(0, i as int), dir@),
        decreases entries@.len() - i,
    {
        let ghost post = es.subrange(0, i + 1);
        assert(post.drop_last() =~= es.subrange(0, i as int));
        assert(post.last() == entries@[i as int]@);
        if !contains_chars(&entries[i], &d) {
            let e = sub_all(&entries[i]);
            kept.push(e);
            assert(views(kept@) =~= entries_without(post, dir@));
        }
        i = i + 1;
    }
    assert(es.subrange(0, es.len() as int) =~= es);
    let joined = join_chars(&kept, ';');
    Some(string_of(&joined))
}

/// Whether the registry PATH value holds `dir`.
pub fn registry_path_has(value: &str, dir: &str) -> (r: bool)
    ensures
        r == contains_text(value@, dir@),
{
    contains_str(value, dir)
}

/// The line of a shell rc file that puts `dir` in front of PATH.
pub open spec fn rc_line(dir: Seq<char>) -> Seq<char> {
    "export PATH=\""@ + dir + ":$PATH\""@
}

pub fn rc_line_for(dir: &str) -> (r: String)
    ensures
        r@ == rc_line(dir@),
{
    let mut r = String::new();
    push_str(&mut r, "export PATH=\"");
    push_str(&mut r, dir);
    push_str(&mut r, ":$PATH\"");
    r
}

/// The rc file with the line of `dir` appended on a line of its own, or
/// `None` when it already holds that line.
pub open spec fn rc_with(content: Seq<char>, dir: Seq<char>) -> Option<Seq<char>> {
    if contains_text(content, rc_line(dir)) {
        None
    } else {
        Some(content + seq!['\n'] + rc_line(dir))
    }
}

/// Adds the line of `dir` to the rc file text `content`.
pub fn rc_with_dir(content: &str, dir: &str) -> (r: Option<String>)
    ensures
        match r {
            Some(x) => rc_with(content@, dir@) == Some(x@),
            None => rc_with(content@, dir@) is None,
        },
{
    let line = rc_line_for(dir);
    if contains_str(content, line.as_str()) {
        return None;
    }
    let mut out = String::new();
    push_str(&mut out, content);
    out.push('\n');
    push_str(&mut out, line.as_str());
    Some(out)
}

/// The rc file with every copy of the line of `dir`, and the line break
/// after it, removed; `None` when it does not hold the line.
pub open spec fn rc_without(content: Seq<char>, dir: Seq<char>) -> Option<Seq<char>> {
    if contains_text(content, rc_line(dir)) {
        Some(replaced(content, rc_line(dir).push('\n'), Seq::empty()))
    } else {
        None
    }
}

/// Removes the line of `dir` from the rc file text `content`.
pub fn rc_without_dir(content: &str, dir: &str) -> (r: Option<String>)
    ensures
        match r {
            Some(x) => rc_without(content@, dir@) == Some(x@),
            None => rc_without(content@, dir@) is None,
        },
{
    let line = rc_line_for(dir);
    if !contains_str(content, line.as_str()) {
        return None;
    }
    let c = chars_of(content);
    let mut pat = chars_of(line.as_str());
    pat.push('\n');
    let empty: Vec<char> = Vec::new();
    let out = replace_chars(&c, &pat, &empty);
    Some(string_of(&out))
}

/// Whether an rc file (`None` when there is none) puts `dir` on PATH.
pub fn rc_has_dir(content: Option<&str>, dir: &str) -> (r: bool)
    ensures
        r == match content {
            Some(c) => contains_text(c@, rc_line(dir@)),
            None => false,
        },
{
    match content {
        Some(c) => {
            let line = rc_line_for(dir);
            contains_str(c, line.as_str())
        },
        None => false,
    }
}

/// Registering the launcher directory twice changes the rc file once: after
/// the first time, the second finds the line and leaves the file alone.
pub proof fn lemma_rc_registration_idempotent(content: Seq<char>, dir: Seq<char>)
    requires
        rc_with(content, dir) is Some,
    ensures
        rc_with(rc_with(content, dir)->Some_0, dir) is None,
{
    let n = rc_with(content, dir)->Some_0;
    let at: int = content.len() as int + 1;
    assert(n.subrange(at, at + rc_line(dir).len()) =~= rc_line(dir));
    assert(has_at(n, rc_line(dir), at));
}

/// Registering the launcher directory twice changes the registry PATH once:
/// the value written the first time already holds an entry equal to `dir`.
pub proof fn lemma_registry_registration_idempotent(value: Seq<char>, dir: Seq<char>)
    requires
        registry_path_with(value, dir) is Some,
        !dir.contains(';'),
        trimmed(dir) == dir,
    ensures
        registry_path_with(registry_path_with(value, dir)->Some_0, dir) is None,
{
    let n = registry_path_with(value, dir)->Some_0;
    let kept = fresh_entries(split(value, ';'));
    if n == dir {
        lemma_split_free(dir, ';');
        assert(split(n, ';')[0] == dir);
    } else {
        lemma_split_after(dir, join_pieces(kept, ';'), ';');
        assert(split(n, ';')[0] == dir);
    }
    assert(eq_ascii_folded(trimmed(split(n, ';')[0]), dir));
}

/// Library files of a Windows build, which follow the executable into the
/// launcher directory: names ending in `.dll` or `.DLL`.
pub open spec fn library_name(name: Seq<char>) -> bool {
    name.len() > 4 && (name.subrange(name.len() - 4, name.len() as int) == ".dll"@ || name.subrange(
        name.len() - 4,
        name.len() as int,
    ) == ".DLL"@)
}

pub fn is_library_file(name: &str) -> (r: bool)
    ensures
        r == library_name(name@),
{
    let v = chars_of(name);
    if v.len() <= 4 {
        return false;
    }
    let tail = crate::text::sub_chars(&v, v.len() - 4, v.len());
    let t = string_of(&tail);
    t.as_str().eq(".dll") || t.as_str().eq(".DLL")
}

/// The command-line launcher of Windows: a batch file that runs the
/// executable with its arguments, backslashes doubled.
pub open spec fn launcher_script_text(exe: Seq<char>) -> Seq<char> {
    "@echo off\n\""@ + replaced(exe, "\\"@, "\\\\"@) + "\" %*"@
}

pub fn launcher_script(exe: &str) -> (r: String)
    ensures
        r@ == launcher_script_text(exe@),
{
    let e = chars_of(exe);
    let one = chars_of("\\");
    let two = chars_of("\\\\");
    proof {
        reveal_strlit("\\");
    }
    let doubled = replace_chars(&e, &one, &two);
    let mut r = String::new();
    push_str(&mut r, "@echo off\n\"");
    push_chars(&mut r, &doubled);
    push_str(&mut r, "\" %*");
    r
}

} // verus!
