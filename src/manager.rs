//! The decisions of switching the active version: which installed key a
//! request names, where that install lives, and what the state and the
//! configuration record once it is active.

use crate::config::Config;
use crate::error::LifecycleError;
use crate::platform::{executable_in, executable_path_for, join, join_path, Platform};
use crate::state::{activated, keys_of, PhpState};
use crate::text::{chars_of, find_char, first_index, push_str, string_of, sub_chars};
use vstd::prelude::*;

verus! {

/// The text before the first `-` of `s` (all of it when there is none).
pub open spec fn before_dash(s: Seq<char>) -> Seq<char> {
    if first_index(s, '-') < 0 {
        s
    } else {
        s.subrange(0, first_index(s, '-'))
    }
}

pub fn before_dash_of(s: &str) -> (r: String)
    ensures
        r@ == before_dash(s@),
{
    let v = chars_of(s);
    let part = match find_char(&v, '-') {
        Some(k) => sub_chars(&v, 0, k),
        None => sub_chars(&v, 0, v.len()),
    };
    assert(v@.subrange(0, v@.len() as int) =~= v@);
    string_of(&part)
}

pub open spec fn starts_with(s: Seq<char>, p: Seq<char>) -> bool {
    p.len() <= s.len() && s.subrange(0, p.len() as int) == p
}

/// The first key, in list order, that starts with `p`.
pub open spec fn first_with_prefix(keys: Seq<Seq<char>>, p: Seq<char>) -> Option<Seq<char>>
    decreases keys.len(),
{
    if keys.len() == 0 {
        None
    } else if starts_with(keys[0], p) {
        Some(keys[0])
    } else {
        first_with_prefix(keys.drop_first(), p)
    }
}

/// The installed key that a switch request names: the request itself when it
/// is an installed key, otherwise the first installed key that starts with
/// its part before the first `-`.
pub open spec fn switch_target(keys: Seq<Seq<char>>, requested: Seq<char>) -> Option<Seq<char>> {
    if keys.contains(requested) {
        Some(requested)
    } else {
        first_with_prefix(keys, before_dash(requested))
    }
}

fn starts_with_chars(s: &Vec<char>, p: &Vec<char>) -> (r: bool)
    ensures
        r == starts_with(s@, p@),
{
    if p.len() > s.len() {
        return false;
    }
    let mut i: usize = 0;
    while i < p.len()
        invariant
            p@.len() <= s@.len(),
            i <= p@.len(),
            forall|j: int| 0 <= j < i ==> s@[j] == p@[j],
        decreases p@.len() - i,
    {
        if s[i] != p[i] {
            assert(s@.subrange(0, p@.len() as int)[i as int] != p@[i as int]);
            return false;
        }
        i = i + 1;
    }
    assert(s@.subrange(0, p@.len() as int) =~= p@);
    true
}

/// Finds the installed key that `requested` names.
pub fn resolve_switch(state: &PhpState, requested: &str) -> (r: Result<String, LifecycleError>)
    ensures
        match switch_target(state@.installed, requested@) {
            Some(k) => r matches Ok(x) && x@ == k,
            None => r == Err::<String, LifecycleError>(LifecycleError::NotInstalled),
        },
{
    let keys = &state.installed_versions;
    let ghost ks = keys_of(keys@);
    assert(ks == state@.installed);
    let mut i: usize = 0;
    while i < keys.len()
        invariant
            ks == keys_of(keys@),
            ks == state@.installed,
            i <= keys@.len(),
            forall|j: int| 0 <= j < i ==> ks[j] != requested@,
        decreases keys@.len() - i,
    {
        if keys[i].as_str().eq(requested) {
            assert(ks[i as int] == requested@);
            assert(ks.contains(requested@));
            let k = requested.to_owned();
            assert(k@ == requested@);
            return Ok(k);
        }
        i = i + 1;
    }
    assert(!ks.contains(requested@));
    let base = before_dash_of(requested);
    let bv = chars_of(base.as_str());
    let mut i: usize = 0;
    assert(ks.subrange(0, ks.len() as int) =~= ks);
    while i < keys.len()
        invariant
            ks == keys_of(keys@),
            ks == state@.installed,
            !ks.contains(requested@),
            bv@ == before_dash(requested@),
            i <= keys@.len(),
            first_with_prefix(ks, bv@) == first_with_prefix(ks.subrange(i as int, ks.len() as int), bv@),
        decreases keys@.len() - i,
    {
        let kv = chars_of(keys[i].as_str());
        let ghost rest = ks.subrange(i as int, ks.len() as int);
        assert(rest[0] == ks[i as int]);
        assert(ks[i as int] == keys@[i as int]@);
        if starts_with_chars(&kv, &bv) {
            assert(first_with_prefix(rest, bv@) == Some(rest[0]));
            let k = keys[i].clone();
            assert(k@ == ks[i as int]);
            return Ok(k);
        }
        assert(rest.drop_first() =~= ks.subrange(i + 1, ks.len() as int));
        i = i + 1;
    }
    Err(LifecycleError::NotInstalled)
}

/// The install to activate: its key, its directory and its executable.
pub struct SwitchPlan {
    pub key: String,
    pub dir: String,
    pub marker: String,
}

/// Plans the switch to `requested` below `install_root`.
pub fn plan_switch(state: &PhpState, requested: &str, install_root: &str, platform: Platform) -> (r:
    Result<SwitchPlan, LifecycleError>)
    ensures
        match switch_target(state@.installed, requested@) {
            Some(k) => r matches Ok(p) && p.key@ == k && p.dir@ == join_path(
                install_root@,
                "php-"@ + k,
            ) && p.marker@ == executable_in(platform, p.dir@),
            None => r == Err::<SwitchPlan, LifecycleError>(LifecycleError::NotInstalled),
        },
{
    let key = resolve_switch(state, requested)?;
    let mut name = String::new();
    push_str(&mut name, "php-");
    push_str(&mut name, key.as_str());
    let dir = join(install_root, name.as_str());
    let marker = executable_path_for(platform, dir.as_str());
    Ok(SwitchPlan { key, dir, marker })
}

/// A switch goes ahead only to a directory that exists and holds the
/// executable.
pub fn check_switch(dir_exists: bool, marker_exists: bool) -> (r: Result<(), LifecycleError>)
    ensures
        r is Ok <==> dir_exists && marker_exists,
        r is Err ==> r == Err::<(), LifecycleError>(LifecycleError::NotInstalled),
{
    if dir_exists && marker_exists {
        Ok(())
    } else {
        Err(LifecycleError::NotInstalled)
    }
}

/// Records an activation: the key becomes active in the state, the
/// previously active key its last-known-good one, and the configuration
/// keeps the version part of the key.
pub fn commit_switch(state: &mut PhpState, config: &mut Config, key: &str)
    ensures
        final(state).install_metadata == old(state).install_metadata,
        final(state)@ == activated(old(state)@, key@),
        final(config).active_version matches Some(v) && v@ == before_dash(key@),
        final(config).install_dir == old(config).install_dir,
        final(config).download_cache == old(config).download_cache,
        final(config).providers == old(config).providers,
{
    state.set_active(key.to_owned());
    config.active_version = Some(before_dash_of(key));
}

} // verus!
