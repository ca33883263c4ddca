//! The durable record of installed builds: the installed keys, the active
//! key, the last-known-good key and one metadata record per key.

use crate::version::opt_view;
use vstd::prelude::*;

verus! {

/// What is recorded about one completed install. Paths are kept as text.
#[derive(Debug, Clone, PartialEq, Eq)]
pub struct InstallMetadata {
    pub version: String,
    pub install_path: String,
    pub installed_at: String,
    pub checksum: Option<String>,
    pub source: String,
}

pub struct MetadataModel {
    pub version: Seq<char>,
    pub install_path: Seq<char>,
    pub installed_at: Seq<char>,
    pub checksum: Option<Seq<char>>,
    pub source: Seq<char>,
}

impl View for InstallMetadata {
    type V = MetadataModel;

    open spec fn view(&self) -> MetadataModel {
        MetadataModel {
            version: self.version@,
            install_path: self.install_path@,
            installed_at: self.installed_at@,
            checksum: opt_view(self.checksum),
            source: self.source@,
        }
    }
}

/// The installed set, the active pointer, one level of rollback and the
/// records. `install_metadata` holds each key at most once.
#[derive(Debug, Clone)]
pub struct PhpState {
    pub installed_versions: Vec<String>,
    pub active_version: Option<String>,
    pub last_known_good: Option<String>,
    pub install_metadata: Vec<(String, InstallMetadata)>,
}

pub struct StateModel {
    pub installed: Seq<Seq<char>>,
    pub active: Option<Seq<char>>,
    pub last_known_good: Option<Seq<char>>,
    pub records: Map<Seq<char>, MetadataModel>,
}

pub open spec fn keys_of(v: Seq<String>) -> Seq<Seq<char>> {
    v.map_values(|s: String| s@)
}

/// The records that a list of entries holds.
pub open spec fn records_of(e: Seq<(String, InstallMetadata)>) -> Map<Seq<char>, MetadataModel>
    decreases e.len(),
{
    if e.len() == 0 {
        Map::empty()
    } else {
        records_of(e.drop_last()).insert(e.last().0@, e.last().1@)
    }
}

pub open spec fn unique_keys(e: Seq<(String, InstallMetadata)>) -> bool {
    forall|i: int, j: int| 0 <= i < e.len() && 0 <= j < e.len() && i != j ==> e[i].0@ != e[j].0@
}

/// `s` with every occurrence of `k` taken out, the rest in order.
pub open spec fn without(s: Seq<Seq<char>>, k: Seq<char>) -> Seq<Seq<char>>
    decreases s.len(),
{
    if s.len() == 0 {
        s
    } else if s.last() == k {
        without(s.drop_last(), k)
    } else {
        without(s.drop_last(), k).push(s.last())
    }
}

/// The state after recording `k` with `m`: the key joins the installed list
/// once, and its record is replaced.
pub open spec fn added(s: StateModel, k: Seq<char>, m: MetadataModel) -> StateModel {
    StateModel {
        installed: if s.installed.contains(k) {
            s.installed
        } else {
            s.installed.push(k)
        },
        records: s.records.insert(k, m),
        ..s
    }
}

/// The state after dropping `k`: an active `k` gives way to the
/// last-known-good key, which may be absent.
pub open spec fn removed(s: StateModel, k: Seq<char>) -> StateModel {
    StateModel {
        installed: without(s.installed, k),
        records: s.records.remove(k),
        active: if s.active == Some(k) {
            s.last_known_good
        } else {
            s.active
        },
        ..s
    }
}

/// The state after making `k` active: a previously active key becomes the
/// last-known-good one.
pub open spec fn activated(s: StateModel, k: Seq<char>) -> StateModel {
    StateModel {
        active: Some(k),
        last_known_good: if s.active is Some {
            s.active
        } else {
            s.last_known_good
        },
        ..s
    }
}

pub open spec fn empty_state() -> StateModel {
    StateModel {
        installed: Seq::empty(),
        active: None,
        last_known_good: None,
        records: Map::empty(),
    }
}

impl View for PhpState {
    type V = StateModel;

    open spec fn view(&self) -> StateModel {
        StateModel {
            installed: keys_of(self.installed_versions@),
            active: opt_view(self.active_version),
            last_known_good: opt_view(self.last_known_good),
            records: records_of(self.install_metadata@),
        }
    }
}

proof fn lemma_records_domain(e: Seq<(String, InstallMetadata)>, k: Seq<char>)
    ensures
        records_of(e).contains_key(k) <==> exists|i: int| 0 <= i < e.len() && e[i].0@ == k,
    decreases e.len(),
{
    if e.len() > 0 {
        lemma_records_domain(e.drop_last(), k);
        if records_of(e).contains_key(k) && e.last().0@ != k {
            let i = choose|i: int| 0 <= i < e.drop_last().len() && e.drop_last()[i].0@ == k;
            assert(e[i].0@ == k);
        }
        if exists|i: int| 0 <= i < e.len() && e[i].0@ == k {
            let i = choose|i: int| 0 <= i < e.len() && e[i].0@ == k;
            if i < e.len() - 1 {
                assert(e.drop_last()[i].0@ == k);
            }
        }
    }
}

proof fn lemma_records_remove(e: Seq<(String, InstallMetadata)>, i: int)
    requires
        unique_keys(e),
        0 <= i < e.len(),
    ensures
        records_of(e.remove(i)) == records_of(e).remove(e[i].0@),
        unique_keys(e.remove(i)),
    decreases e.len(),
{
    let k = e[i].0@;
    let d = e.drop_last();
    assert(unique_keys(d));
    if i == e.len() - 1 {
        assert(e.remove(i) =~= d);
        lemma_records_domain(d, k);
        if records_of(d).contains_key(k) {
            let j = choose|j: int| 0 <= j < d.len() && d[j].0@ == k;
            assert(e[j].0@ == k);
        }
        assert(records_of(e.remove(i)) =~= records_of(e).remove(k));
    } else {
        lemma_records_remove(d, i);
        assert(e.remove(i) =~= d.remove(i).push(e.last()));
        assert(e.remove(i).drop_last() =~= d.remove(i));
        assert(e.last().0@ != k);
        assert(records_of(e.remove(i)) =~= records_of(e).remove(k));
    }
    assert forall|a: int, b: int|
        0 <= a < e.remove(i).len() && 0 <= b < e.remove(i).len() && a != b implies e.remove(
        i,
    )[a].0@ != e.remove(i)[b].0@ by {
        let a2 = if a < i { a } else { a + 1 };
        let b2 = if b < i { b } else { b + 1 };
        assert(e.remove(i)[a] == e[a2]);
        assert(e.remove(i)[b] == e[b2]);
    }
}

proof fn lemma_unique_push(e: Seq<(String, InstallMetadata)>, x: (String, InstallMetadata))
    requires
        unique_keys(e),
        forall|i: int| 0 <= i < e.len() ==> e[i].0@ != x.0@,
    ensures
        unique_keys(e.push(x)),
{
    assert forall|a: int, b: int|
        0 <= a < e.push(x).len() && 0 <= b < e.push(x).len() && a != b implies e.push(
        x,
    )[a].0@ != e.push(x)[b].0@ by {
        if a < e.len() && b < e.len() {
            assert(e.push(x)[a] == e[a]);
            assert(e.push(x)[b] == e[b]);
        }
    }
}

fn contains_text(v: &Vec<String>, k: &str) -> (r: bool)
    ensures
        r == keys_of(v@).contains(k@),
{
    let mut i: usize = 0;
    while i < v.len()
        invariant
            i <= v@.len(),
            forall|j: int| 0 <= j < i ==> v@[j]@ != k@,
        decreases v@.len() - i,
    {
        if v[i].as_str().eq(k) {
            assert(keys_of(v@)[i as int] == k@);
            return true;
        }
        i = i + 1;
    }
    proof {
        if keys_of(v@).contains(k@) {
            let j = choose|j: int| 0 <= j < keys_of(v@).len() && keys_of(v@)[j] == k@;
            assert(v@[j]@ == k@);
        }
    }
    false
}

impl Default for PhpState {
    fn default() -> (r: PhpState)
        ensures
            r@ == empty_state(),
            r.wf(),
    {
        let r = PhpState {
            installed_versions: Vec::new(),
            active_version: None,
            last_known_good: None,
            install_metadata: Vec::new(),
        };
        assert(r@.installed =~= Seq::<Seq<char>>::empty());
        r
    }
}

impl PhpState {
    /// No key is recorded twice.
    pub open spec fn wf(&self) -> bool {
        unique_keys(self.install_metadata@)
    }

    fn find_record(&self, key: &str) -> (r: Option<usize>)
        ensures
            match r {
                Some(i) => i < self.install_metadata@.len() && self.install_metadata@[i as int].0@
                    == key@,
                None => forall|i: int|
                    0 <= i < self.install_metadata@.len() ==> self.install_metadata@[i].0@ != key@,
            },
    {
        let mut i: usize = 0;
        while i < self.install_metadata.len()
            invariant
                i <= self.install_metadata@.len(),
                forall|j: int| 0 <= j < i ==> self.install_metadata@[j].0@ != key@,
            decreases self.install_metadata@.len() - i,
        {
            if self.install_metadata[i].0.as_str().eq(key) {
                return Some(i);
            }
            i = i + 1;
        }
        None
    }

    /// Records a completed install. The key is listed once however often it
    /// is added; its record is always replaced by the newest.
    pub fn add_version(&mut self, version: String, metadata: InstallMetadata)
        requires
            old(self).wf(),
        ensures
            final(self).wf(),
            final(self)@ == added(old(self)@, version@, metadata@),
    {
        if !contains_text(&self.installed_versions, version.as_str()) {
            let k = version.clone();
            self.installed_versions.push(k);
            assert(keys_of(self.installed_versions@) =~= keys_of(old(self).installed_versions@).push(
                version@,
            ));
        }
        let ghost before = self.install_metadata@;
        match self.find_record(version.as_str()) {
            Some(i) => {
                proof {
                    lemma_records_remove(before, i as int);
                }
                self.install_metadata.remove(i);
                proof {
                    assert forall|j: int| 0 <= j < self.install_metadata@.len() implies self.install_metadata@[j].0@ != version@ by {
                        let j2 = if j < i { j } else { j + 1 };
                        assert(self.install_metadata@[j] == before[j2]);
                    }
                }
            },
            None => {
                proof {
                    lemma_records_domain(before, version@);
                    assert(records_of(before).remove(version@) =~= records_of(before));
                }
            },
        }
        let ghost mid = self.install_metadata@;
        proof {
            lemma_unique_push(mid, (version, metadata));
        }
        self.install_metadata.push((version, metadata));
        proof {
            assert(self.install_metadata@.drop_last() =~= mid);
            assert(records_of(self.install_metadata@) =~= records_of(before).insert(
                version@,
                metadata@,
            ));
        }
    }

    /// Drops a key and its record. When the key was active, the
    /// last-known-good key becomes active (or none, when there is none).
    pub fn remove_version(&mut self, version: &str)
        requires
            old(self).wf(),
        ensures
            final(self).wf(),
            final(self)@ == removed(old(self)@, version@),
    {
        let mut kept: Vec<String> = Vec::new();
        let mut i: usize = 0;
        while i < self.installed_versions.len()
            invariant
                self.installed_versions == old(self).installed_versions,
                i <= self.installed_versions@.len(),
                keys_of(kept@) == without(
                    keys_of(self.installed_versions@).subrange(0, i as int),
                    version@,
                ),
            decreases self.installed_versions@.len() - i,
        {
            let ghost pre = keys_of(self.installed_versions@).subrange(0, i as int);
            let ghost post = keys_of(self.installed_versions@).subrange(0, i + 1);
            assert(post.drop_last() =~= pre);
            if !self.installed_versions[i].as_str().eq(version) {
                let k = self.installed_versions[i].clone();
                kept.push(k);
                assert(keys_of(kept@) =~= without(post, version@));
            }
            i = i + 1;
        }
        assert(keys_of(self.installed_versions@).subrange(0, i as int) =~= keys_of(
            self.installed_versions@,
        ));
        self.installed_versions = kept;
        let ghost before = self.install_metadata@;
        match self.find_record(version) {
            Some(i) => {
                proof {
                    lemma_records_remove(before, i as int);
                }
                self.install_metadata.remove(i);
            },
            None => {
                proof {
                    lemma_records_domain(before, version@);
                    assert(records_of(before).remove(version@) =~= records_of(before));
                }
            },
        }
        let is_active = match &self.active_version {
            Some(a) => a.as_str().eq(version),
            None => false,
        };
        if is_active {
            self.active_version = match &self.last_known_good {
                Some(g) => Some(g.clone()),
                None => None,
            };
        }
    }

    /// Makes `version` active; the previously active key, if any, becomes the
    /// last-known-good one.
    pub fn set_active(&mut self, version: String)
        ensures
            final(self).install_metadata == old(self).install_metadata,
            final(self)@ == activated(old(self)@, version@),
    {
        match &self.active_version {
            Some(a) => {
                let c = a.clone();
                self.last_known_good = Some(c);
            },
            None => {},
        }
        self.active_version = Some(version);
    }

    /// The record of `version`, if it is installed.
    pub fn get_metadata(&self, version: &str) -> (r: Option<&InstallMetadata>)
        requires
            self.wf(),
        ensures
            match r {
                Some(m) => self@.records.contains_key(version@) && self@.records[version@] == m@,
                None => !self@.records.contains_key(version@),
            },
    {
        match self.find_record(version) {
            Some(i) => {
                proof {
                    lemma_records_at(self.install_metadata@, i as int);
                }
                Some(&self.install_metadata[i].1)
            },
            None => {
                proof {
                    lemma_records_domain(self.install_metadata@, version@);
                }
                None
            },
        }
    }
}

proof fn lemma_records_at(e: Seq<(String, InstallMetadata)>, i: int)
    requires
        unique_keys(e),
        0 <= i < e.len(),
    ensures
        records_of(e).contains_key(e[i].0@),
        records_of(e)[e[i].0@] == e[i].1@,
    decreases e.len(),
{
    if i < e.len() - 1 {
        lemma_records_at(e.drop_last(), i);
        assert(e.last().0@ != e[i].0@);
    }
}

/// Making one key active and then another leaves the second active and the
/// first as the last-known-good one.
pub proof fn lemma_activate_twice(s: StateModel, a: Seq<char>, b: Seq<char>)
    ensures
        activated(activated(s, a), b).active == Some(b),
        activated(activated(s, a), b).last_known_good == Some(a),
{
}

/// Removing the active key makes the last-known-good key active; removing
/// any other key leaves the active key as it was.
pub proof fn lemma_remove_active_falls_back(s: StateModel, k: Seq<char>)
    ensures
        s.active == Some(k) ==> removed(s, k).active == s.last_known_good,
        s.active != Some(k) ==> removed(s, k).active == s.active,
        !removed(s, k).records.contains_key(k),
        !removed(s, k).installed.contains(k),
{
    lemma_without_lacks(s.installed, k);
}

proof fn lemma_without_lacks(s: Seq<Seq<char>>, k: Seq<char>)
    ensures
        !without(s, k).contains(k),
    decreases s.len(),
{
    if s.len() > 0 {
        lemma_without_lacks(s.drop_last(), k);
        if s.last() != k && without(s, k).contains(k) {
            let i = choose|i: int| 0 <= i < without(s, k).len() && without(s, k)[i] == k;
            assert(without(s.drop_last(), k)[i] == k);
        }
    }
}

/// Recording a key twice lists it once: adding is idempotent on the
/// installed list, and the newest record wins.
pub proof fn lemma_add_twice(s: StateModel, k: Seq<char>, m1: MetadataModel, m2: MetadataModel)
    ensures
        added(added(s, k, m1), k, m2).installed == added(s, k, m1).installed,
        added(added(s, k, m1), k, m2).records[k] == m2,
{
    if !s.installed.contains(k) {
        assert(s.installed.push(k)[s.installed.len() as int] == k);
    }
}

} // verus!
