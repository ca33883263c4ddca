//! The list of installed versions: what the install directory holds, merged
//! with what the state records, in text order.

use crate::text::{chars_of, string_of, sub_chars};
use vstd::prelude::*;

verus! {

/// Text order: by characters (by their codes), a prefix before the longer text, as
/// `String`'s `Ord` compares.
pub open spec fn text_le(a: Seq<char>, b: Seq<char>) -> bool
    decreases a.len(),
{
    if a.len() == 0 {
        true
    } else if b.len() == 0 {
        false
    } else if a[0] != b[0] {
        a[0] < b[0]
    } else {
        text_le(a.drop_first(), b.drop_first())
    }
}

pub proof fn lemma_text_le_total(a: Seq<char>, b: Seq<char>)
    ensures
        text_le(a, b) || text_le(b, a),
    decreases a.len(),
{
    if a.len() > 0 && b.len() > 0 && a[0] == b[0] {
        lemma_text_le_total(a.drop_first(), b.drop_first());
    }
}

/// Each text is at most the next one.
pub open spec fn sorted_texts(s: Seq<Seq<char>>) -> bool {
    forall|i: int| 0 <= i < s.len() - 1 ==> text_le(#[trigger] s[i], s[i + 1])
}

pub open spec fn texts(v: Seq<String>) -> Seq<Seq<char>> {
    v.map_values(|s: String| s@)
}

fn le_chars(a: &Vec<char>, b: &Vec<char>) -> (r: bool)
    ensures
        r == text_le(a@, b@),
{
    let mut i: usize = 0;
    assert(a@.subrange(0, a@.len() as int) =~= a@);
    assert(b@.subrange(0, b@.len() as int) =~= b@);
    while i < a.len() && i < b.len()
        invariant
            i <= a@.len(),
            i <= b@.len(),
            text_le(a@, b@) == text_le(a@.subrange(i as int, a@.len() as int), b@.subrange(
                i as int,
                b@.len() as int,
            )),
            forall|j: int| 0 <= j < i ==> a@[j] == b@[j],
        decreases a@.len() - i,
    {
        let ghost sa = a@.subrange(i as int, a@.len() as int);
        let ghost sb = b@.subrange(i as int, b@.len() as int);
        assert(sa[0] == a@[i as int]);
        assert(sb[0] == b@[i as int]);
        if a[i] != b[i] {
            return a[i] < b[i];
        }
        assert(sa.drop_first() =~= a@.subrange(i + 1, a@.len() as int));
        assert(sb.drop_first() =~= b@.subrange(i + 1, b@.len() as int));
        i = i + 1;
    }
    i == a.len()
}

/// Whether `a` comes no later than `b` in text order.
pub fn text_le_str(a: &str, b: &str) -> (r: bool)
    ensures
        r == text_le(a@, b@),
{
    let x = chars_of(a);
    let y = chars_of(b);
    le_chars(&x, &y)
}

/// Puts `v` in text order; the texts stay the same, with their counts.
pub fn sort_texts(v: Vec<String>) -> (r: Vec<String>)
    ensures
        sorted_texts(texts(r@)),
        texts(r@).to_multiset() == texts(v@).to_multiset(),
{
    let mut out: Vec<String> = Vec::new();
    let mut i: usize = 0;
    let ghost src = texts(v@);
    assert(src.subrange(0, 0) =~= Seq::<Seq<char>>::empty());
    assert(texts(out@) =~= Seq::<Seq<char>>::empty());
    while i < v.len()
        invariant
            src == texts(v@),
            i <= v@.len(),
            sorted_texts(texts(out@)),
            texts(out@).to_multiset() == src.subrange(0, i as int).to_multiset(),
        decreases v@.len() - i,
    {
        let x = v[i].clone();
        let mut k: usize = 0;
        while k < out.len() && !text_le_str(x.as_str(), out[k].as_str())
            invariant
                k <= out@.len(),
                k > 0 ==> text_le(out@[k - 1]@, x@),
            decreases out@.len() - k,
        {
            proof {
                lemma_text_le_total(x@, out@[k as int]@);
            }
            k = k + 1;
        }
        let ghost before = texts(out@);
        out.insert(k, x);
        proof {
            let after = texts(out@);
            assert(after =~= before.insert(k as int, x@));
            assert forall|j: int| 0 <= j < after.len() - 1 implies text_le(
                #[trigger] after[j],
                after[j + 1],
            ) by {
                if j + 1 < k {
                    assert(after[j] == before[j]);
                    assert(after[j + 1] == before[j + 1]);
                } else if j + 1 == k {
                    assert(after[j] == before[j]);
                } else if j == k {
                    assert(after[j + 1] == before[j]);
                } else {
                    assert(after[j] == before[j - 1]);
                    assert(after[j + 1] == before[j]);
                }
            }
            before.to_multiset_ensures();
            after.to_multiset_ensures();
            vstd::seq_lib::to_multiset_insert(before, k as int, x@);
            let pre = src.subrange(0, i as int);
            let post = src.subrange(0, i + 1);
            assert(post =~= pre.push(src[i as int]));
            pre.to_multiset_ensures();
            assert(src[i as int] == v@[i as int]@);
        }
        i = i + 1;
    }
    assert(src.subrange(0, v@.len() as int) =~= src);
    out
}

/// A directory of the install root: its name, and whether it holds the
/// executable that marks a complete install.
#[derive(Debug, Clone)]
pub struct InstallDir {
    pub name: String,
    pub complete: bool,
}

pub open spec fn dir_key(name: Seq<char>) -> Seq<char> {
    name.subrange(4, name.len() as int)
}

pub open spec fn install_dir_name_text(name: Seq<char>) -> bool {
    name.len() >= 4 && name.subrange(0, 4) == "php-"@
}

fn is_install_dir(name: &str) -> (r: bool)
    ensures
        r == install_dir_name_text(name@),
{
    let v = chars_of(name);
    if v.len() < 4 {
        return false;
    }
    let head = sub_chars(&v, 0, 4);
    let h = string_of(&head);
    proof {
        reveal_strlit("php-");
    }
    h.as_str().eq("php-")
}

fn contains_text_in(v: &Vec<String>, k: &String) -> (r: bool)
    ensures
        r == texts(v@).contains(k@),
{
    let mut i: usize = 0;
    while i < v.len()
        invariant
            i <= v@.len(),
            forall|j: int| 0 <= j < i ==> v@[j]@ != k@,
        decreases v@.len() - i,
    {
        if v[i].eq(k) {
            assert(texts(v@)[i as int] == k@);
            return true;
        }
        i = i + 1;
    }
    proof {
        if texts(v@).contains(k@) {
            let j = choose|j: int| 0 <= j < texts(v@).len() && texts(v@)[j] == k@;
            assert(v@[j]@ == k@);
        }
    }
    false
}

proof fn lemma_push_contains(s: Seq<Seq<char>>, x: Seq<char>, k: Seq<char>)
    ensures
        s.push(x).contains(k) <==> (s.contains(k) || k == x),
{
    if s.contains(k) {
        let j = choose|j: int| 0 <= j < s.len() && s[j] == k;
        assert(s.push(x)[j] == k);
    }
    if k == x {
        assert(s.push(x)[s.len() as int] == x);
    }
    if s.push(x).contains(k) && k != x {
        let j = choose|j: int| 0 <= j < s.push(x).len() && s.push(x)[j] == k;
        assert(s[j] == k);
    }
}

pub open spec fn complete_with_key(d: InstallDir, k: Seq<char>) -> bool {
    d.complete && install_dir_name_text(d.name@) && dir_key(d.name@) == k
}

pub open spec fn partial_named(d: InstallDir, n: Seq<char>) -> bool {
    !d.complete && install_dir_name_text(d.name@) && d.name@ == n
}

pub open spec fn some_complete(disk: Seq<InstallDir>, k: Seq<char>) -> bool {
    exists|i: int| 0 <= i < disk.len() && complete_with_key(#[trigger] disk[i], k)
}

pub open spec fn some_partial(disk: Seq<InstallDir>, n: Seq<char>) -> bool {
    exists|i: int| 0 <= i < disk.len() && partial_named(#[trigger] disk[i], n)
}

pub open spec fn some_recorded(recorded: Seq<InstallDir>, k: Seq<char>) -> bool {
    exists|i: int| 0 <= i < recorded.len() && #[trigger] recorded[i].complete && recorded[i].name@ == k
}

proof fn lemma_step_complete(pre: Seq<InstallDir>, d: InstallDir, k: Seq<char>)
    ensures
        some_complete(pre.push(d), k) <==> (some_complete(pre, k) || complete_with_key(d, k)),
        some_partial(pre.push(d), k) <==> (some_partial(pre, k) || partial_named(d, k)),
{
    let post = pre.push(d);
    if some_complete(pre, k) {
        let j = choose|j: int| 0 <= j < pre.len() && complete_with_key(#[trigger] pre[j], k);
        assert(post[j] == pre[j]);
    }
    if some_partial(pre, k) {
        let j = choose|j: int| 0 <= j < pre.len() && partial_named(#[trigger] pre[j], k);
        assert(post[j] == pre[j]);
    }
    assert(post[pre.len() as int] == d);
    if some_complete(post, k) && !complete_with_key(d, k) {
        let j = choose|j: int| 0 <= j < post.len() && complete_with_key(#[trigger] post[j], k);
        assert(pre[j] == post[j]);
    }
    if some_partial(post, k) && !partial_named(d, k) {
        let j = choose|j: int| 0 <= j < post.len() && partial_named(#[trigger] post[j], k);
        assert(pre[j] == post[j]);
    }
}

proof fn lemma_step_recorded(pre: Seq<InstallDir>, d: InstallDir, k: Seq<char>)
    ensures
        some_recorded(pre.push(d), k) <==> (some_recorded(pre, k) || (d.complete && d.name@ == k)),
{
    let post = pre.push(d);
    if some_recorded(pre, k) {
        let j = choose|j: int| 0 <= j < pre.len() && #[trigger] pre[j].complete && pre[j].name@ == k;
        assert(post[j] == pre[j]);
    }
    assert(post[pre.len() as int] == d);
    if some_recorded(post, k) && !(d.complete && d.name@ == k) {
        let j = choose|j: int| 0 <= j < post.len() && #[trigger] post[j].complete && post[j].name@ == k;
        assert(pre[j] == post[j]);
    }
}

/// Merges the directories found below the install root with the recorded
/// keys (each with whether its `php-<key>` directory is complete). Gives the
/// installed keys once each, in text order: the keys of the complete
/// `php-<key>` directories and the recorded keys whose directories are
/// complete. Gives also the names of the `php-` directories that lack the
/// executable, partial installs to clean up.
pub fn merge_installed(disk: &Vec<InstallDir>, recorded: &Vec<InstallDir>) -> (r: (
    Vec<String>,
    Vec<String>,
))
    ensures
        sorted_texts(texts(r.0@)),
        texts(r.0@).no_duplicates(),
        forall|k: Seq<char>|
            texts(r.0@).contains(k) <==> (some_complete(disk@, k) || some_recorded(recorded@, k)),
        forall|n: Seq<char>| texts(r.1@).contains(n) <==> some_partial(disk@, n),
{
    let mut found: Vec<String> = Vec::new();
    let mut partial: Vec<String> = Vec::new();
    let mut i: usize = 0;
    assert(disk@.subrange(0, 0) =~= Seq::<InstallDir>::empty());
    while i < disk.len()
        invariant
            i <= disk@.len(),
            texts(found@).no_duplicates(),
            forall|k: Seq<char>|
                texts(found@).contains(k) <==> some_complete(disk@.subrange(0, i as int), k),
            forall|n: Seq<char>|
                texts(partial@).contains(n) <==> some_partial(disk@.subrange(0, i as int), n),
        decreases disk@.len() - i,
    {
        let d = &disk[i];
        let ghost pre = disk@.subrange(0, i as int);
        let ghost post = disk@.subrange(0, i + 1);
        let ghost fo = texts(found@);
        let ghost po = texts(partial@);
        assert(post =~= pre.push(disk@[i as int]));
        let mut pushed_key: Option<String> = None;
        if is_install_dir(d.name.as_str()) {
            if d.complete {
                let nv = chars_of(d.name.as_str());
                let kv = sub_chars(&nv, 4, nv.len());
                let key = string_of(&kv);
                if !contains_text_in(&found, &key) {
                    found.push(key);
                    proof {
                        assert(texts(found@) =~= fo.push(dir_key(disk@[i as int].name@)));
                    }
                }
            } else {
                partial.push(d.name.clone());
                proof {
                    assert(texts(partial@) =~= po.push(disk@[i as int].name@));
                }
            }
        }
        proof {
            assert forall|k: Seq<char>|
                texts(found@).contains(k) <==> some_complete(post, k) by {
                lemma_step_complete(pre, disk@[i as int], k);
                lemma_push_contains(fo, dir_key(disk@[i as int].name@), k);
            }
            assert forall|n: Seq<char>|
                texts(partial@).contains(n) <==> some_partial(post, n) by {
                lemma_step_complete(pre, disk@[i as int], n);
                lemma_push_contains(po, disk@[i as int].name@, n);
            }
            if texts(found@) != fo {
                assert(texts(found@) == fo.push(dir_key(disk@[i as int].name@)));
                assert(!fo.contains(dir_key(disk@[i as int].name@)));
                assert forall|a: int, b: int|
                    0 <= a < texts(found@).len() && 0 <= b < texts(found@).len() && a != b implies texts(found@)[a] != texts(found@)[b] by {
                    if a < fo.len() && b < fo.len() {
                    } else if a == fo.len() {
                        assert(fo[b] == texts(found@)[b]);
                    } else {
                        assert(fo[a] == texts(found@)[a]);
                    }
                }
            }
        }
        i = i + 1;
    }
    assert(disk@.subrange(0, disk@.len() as int) =~= disk@);
    let mut j: usize = 0;
    assert(recorded@.subrange(0, 0) =~= Seq::<InstallDir>::empty());
    while j < recorded.len()
        invariant
            j <= recorded@.len(),
            texts(found@).no_duplicates(),
            forall|k: Seq<char>|
                #[trigger] texts(found@).contains(k) <==> (some_complete(disk@, k) || some_recorded(
                    recorded@.subrange(0, j as int),
                    k,
                )),
        decreases recorded@.len() - j,
    {
        let r = &recorded[j];
        let ghost pre = recorded@.subrange(0, j as int);
        let ghost post = recorded@.subrange(0, j + 1);
        let ghost fo = texts(found@);
        assert(forall|k: Seq<char>| fo.contains(k) <==> (some_complete(disk@, k) || some_recorded(pre, k)));
        assert(post =~= pre.push(recorded@[j as int]));
        let add = r.complete && !contains_text_in(&found, &r.name);
        if add {
            found.push(r.name.clone());
            proof {
                assert(texts(found@) =~= fo.push(recorded@[j as int].name@));
                assert forall|a: int, b: int|
                    0 <= a < texts(found@).len() && 0 <= b < texts(found@).len() && a != b implies texts(found@)[a] != texts(found@)[b] by {
                    if a < fo.len() && b < fo.len() {
                    } else if a == fo.len() {
                        assert(fo[b] == texts(found@)[b]);
                    } else {
                        assert(fo[a] == texts(found@)[a]);
                    }
                }
            }
        }
        proof {
            if !add {
                assert(texts(found@) == fo);
                if recorded@[j as int].complete {
                    assert(fo.contains(recorded@[j as int].name@));
                }
            }
            assert forall|k: Seq<char>|
                #[trigger] texts(found@).contains(k) <==> (some_complete(disk@, k) || some_recorded(post, k)) by {
                lemma_step_recorded(pre, recorded@[j as int], k);
                lemma_push_contains(fo, recorded@[j as int].name@, k);
                assert(fo.contains(k) <==> (some_complete(disk@, k) || some_recorded(pre, k)));
                if add {
                    assert(texts(found@) == fo.push(recorded@[j as int].name@));
                } else {
                    assert(texts(found@) == fo);
                }
            }
        }
        j = j + 1;
        assert(recorded@.subrange(0, j as int) == post);
    }
    assert(recorded@.subrange(0, recorded@.len() as int) =~= recorded@);
    let ghost unsorted = texts(found@);
    let sorted = sort_texts(found);
    proof {
        texts(sorted@).to_multiset_ensures();
        unsorted.to_multiset_ensures();
        unsorted.lemma_multiset_has_no_duplicates();
        texts(sorted@).lemma_multiset_has_no_duplicates_conv();
        assert forall|k: Seq<char>|
            texts(sorted@).contains(k) <==> (some_complete(disk@, k) || some_recorded(recorded@, k)) by {
            assert(texts(sorted@).to_multiset().count(k) == unsorted.to_multiset().count(k));
            assert(unsorted.contains(k) <==> (some_complete(disk@, k) || some_recorded(
                recorded@.subrange(0, recorded@.len() as int),
                k,
            )));
        }
    }
    (sorted, partial)
}

} // verus!
