//! The write-back save-data cache: groups of key/value pairs, loaded lazily
//! from their backing files and written back on flush.
//!
//! The cache does no I/O itself. A caller asks which file backs a group that is
//! not cached yet, reads it, and hands its text (or `None` when there is no
//! file) to `save` or `load`; on flush it writes what `pending_writes` lists
//! and reports the writes that succeeded with `complete_flush`.
use std::collections::BTreeMap;
use vstd::prelude::*;

use crate::assoc::{
    assoc_view, keys_unique, lemma_assoc_domain, lemma_assoc_index, lemma_assoc_push_unique,
    lemma_assoc_update,
};
use crate::text::{join2, join3, owned};

verus! {

/// The map that `serde_json` reads from the text of a save file, if the text
/// is a JSON object of strings.
pub uninterp spec fn decoded_group(text: Seq<char>) -> Option<Map<Seq<char>, Seq<char>>>;

/// The JSON text that `serde_json` writes for a map of strings.
pub uninterp spec fn encoded_group(entries: Map<Seq<char>, Seq<char>>) -> Seq<char>;

/// The pairs of a list of string pairs, as character sequences.
pub open spec fn pairs_view(e: Seq<(String, String)>) -> Seq<(Seq<char>, Seq<char>)> {
    e.map_values(|p: (String, String)| (p.0@, p.1@))
}

/// Relies on `serde_json::from_str` into a `BTreeMap<String, String>`: the
/// text decodes to a map of strings or is refused; the pairs come out of the
/// map, one per key.
#[verifier::external_body]
fn decode_group(text: &str) -> (r: Option<Vec<(String, String)>>)
    ensures
        r is None <==> decoded_group(text@) is None,
        r matches Some(v) ==> decoded_group(text@) == Some(assoc_view(pairs_view(v@))),
{
    match serde_json::from_str::<BTreeMap<String, String>>(text) {
        Ok(map) => Some(map.into_iter().collect()),
        Err(_) => None,
    }
}

/// Relies on `serde_json::to_string` of a `BTreeMap<String, String>` built from
/// the pairs, whose keys are distinct; its documentation says it fails only on
/// non-string keys.
#[verifier::external_body]
fn encode_group(entries: &Vec<(String, String)>) -> (r: String)
    requires
        keys_unique(pairs_view(entries@)),
    ensures
        r@ == encoded_group(assoc_view(pairs_view(entries@))),
{
    let map: BTreeMap<&String, &String> = entries.iter().map(|p| (&p.0, &p.1)).collect();
    serde_json::to_string(&map).unwrap_or_default()
}

/// The position of the last `/` in a sequence, if any.
pub open spec fn last_slash(s: Seq<char>) -> Option<int>
    decreases s.len(),
{
    if s.len() == 0 {
        None
    } else if s.last() == '/' {
        Some(s.len() - 1)
    } else {
        last_slash(s.drop_last())
    }
}

/// The directory of a group's backing file: the save root, then everything
/// of the group name before its last `/`.
pub open spec fn group_dir(root: Seq<char>, group: Seq<char>) -> Seq<char> {
    match last_slash(group) {
        Some(i) => root + seq!['/'] + group.subrange(0, i),
        None => root,
    }
}

/// The namespace of a group: its name after the last `/`.
pub open spec fn group_namespace(group: Seq<char>) -> Seq<char> {
    match last_slash(group) {
        Some(i) => group.subrange(i + 1, group.len() as int),
        None => group,
    }
}

/// The path under which a group is cached and stored: `root/prefix/namespace`.
pub open spec fn group_path(root: Seq<char>, group: Seq<char>) -> Seq<char> {
    group_dir(root, group) + seq!['/'] + group_namespace(group)
}

/// The text of a backing file, if one was read.
pub open spec fn stored_view(stored: Option<&str>) -> Option<Seq<char>> {
    match stored {
        Some(t) => Some(t@),
        None => None,
    }
}

/// The outcome of a load, with the value as a character sequence.
pub open spec fn value_view(r: Result<String, CacheError>) -> Result<Seq<char>, CacheError> {
    match r {
        Ok(v) => Ok(v@),
        Err(e) => Err(e),
    }
}

/// The backing file of a group path.
pub open spec fn save_file(path: Seq<char>) -> Seq<char> {
    path + seq!['.', 's', 'a', 'v', 'e']
}

/// Finds the last `/` of a string.
fn find_last_slash(s: &str) -> (r: Option<usize>)
    ensures
        r matches Some(i) ==> last_slash(s@) == Some(i as int),
        r is None ==> last_slash(s@) is None,
        r matches Some(i) ==> i < s@.len(),
{
    let n = s.unicode_len();
    let mut i: usize = n;
    assert(s@.subrange(0, n as int) =~= s@);
    while i > 0
        invariant
            i <= n,
            n == s@.len(),
            last_slash(s@) == last_slash(s@.subrange(0, i as int)),
        decreases i,
    {
        let ghost pre = s@.subrange(0, i as int);
        if s.get_char(i - 1) == '/' {
            assert(pre.last() == '/');
            return Some(i - 1);
        }
        assert(pre.drop_last() =~= s@.subrange(0, i - 1));
        i = i - 1;
    }
    assert(s@.subrange(0, 0).len() == 0);
    None
}

/// Splits a group name into the directory of its backing file (under `root`)
/// and its namespace.
pub fn from_group(root: &str, group: &str) -> (r: (String, String))
    ensures
        r.0@ == group_dir(root@, group@),
        r.1@ == group_namespace(group@),
{
    proof {
        reveal_strlit("/");
    }
    match find_last_slash(group) {
        Some(i) => {
            let n = group.unicode_len();
            let prefix = group.substring_char(0, i);
            let namespace = group.substring_char(i + 1, n);
            (join3(root, "/", prefix), owned(namespace))
        },
        None => (owned(root), owned(group)),
    }
}

/// The cache path of a group name under `root`.
pub fn path_of_group(root: &str, group: &str) -> (r: String)
    ensures
        r@ == group_path(root@, group@),
{
    proof {
        reveal_strlit("/");
    }
    let (dir, namespace) = from_group(root, group);
    join3(dir.as_str(), "/", namespace.as_str())
}

/// Position `i` of a group name begins a segment.
pub open spec fn seg_start(g: Seq<char>, i: int) -> bool {
    i == 0 || g[i - 1] == '/'
}

/// Position `j` of a group name ends a segment.
pub open spec fn seg_end(g: Seq<char>, j: int) -> bool {
    j == g.len() || g[j] == '/'
}

/// No segment of a group name begins at `i` that is empty, `.` or `..`.
pub open spec fn clean_at(g: Seq<char>, i: int) -> bool {
    seg_start(g, i) ==> {
        &&& !seg_end(g, i)
        &&& !(i + 1 <= g.len() && g[i] == '.' && seg_end(g, i + 1))
        &&& !(i + 2 <= g.len() && g[i] == '.' && g[i + 1] == '.' && seg_end(g, i + 2))
    }
}

/// A group name that stays below the directory it is resolved in: it is not
/// empty, and none of its `/`-separated segments is empty, `.` or `..`.
pub open spec fn safe_group(g: Seq<char>) -> bool {
    g.len() > 0 && forall|i: int| 0 <= i <= g.len() ==> #[trigger] clean_at(g, i)
}

/// Tests whether a group name stays below the directory it is resolved in.
pub fn is_safe_group(g: &str) -> (r: bool)
    ensures
        r == safe_group(g@),
{
    let n = g.unicode_len();
    if n == 0 {
        return false;
    }
    let mut i: usize = 0;
    while i < n
        invariant
            n == g@.len(),
            i <= n,
            forall|k: int| 0 <= k < i ==> #[trigger] clean_at(g@, k),
        decreases n - i,
    {
        let start = i == 0 || g.get_char(i - 1) == '/';
        if start {
            let end0 = g.get_char(i) == '/';
            let dot1 = g.get_char(i) == '.' && (n - i == 1 || g.get_char(i + 1) == '/');
            let dot2 = n - i >= 2 && g.get_char(i) == '.' && g.get_char(i + 1) == '.' && (n - i
                == 2 || g.get_char(i + 2) == '/');
            if end0 || dot1 || dot2 {
                assert(!clean_at(g@, i as int));
                return false;
            }
        }
        assert(clean_at(g@, i as int));
        i = i + 1;
    }
    let last_slash_end = g.get_char(n - 1) == '/';
    if last_slash_end {
        assert(!clean_at(g@, n as int));
        false
    } else {
        assert(clean_at(g@, n as int));
        true
    }
}

/// The last `/` of a sequence lies at or after any `/` it holds.
pub proof fn lemma_last_slash_found(s: Seq<char>, i: int)
    requires
        0 <= i < s.len(),
        s[i] == '/',
    ensures
        last_slash(s) matches Some(j) && i <= j < s.len() && s[j] == '/',
    decreases s.len(),
{
    if s.last() != '/' {
        assert(i < s.len() - 1);
        assert(s.drop_last()[i] == '/');
        lemma_last_slash_found(s.drop_last(), i);
    }
}

/// A group name holding a `/` is cached and stored at `root/` followed by
/// the name itself.
pub proof fn lemma_path_of_slashed(root: Seq<char>, s: Seq<char>, i: int)
    requires
        0 <= i < s.len(),
        s[i] == '/',
    ensures
        group_path(root, s) == root + "/"@ + s,
{
    reveal_strlit("/");
    lemma_last_slash_found(s, i);
    let j = last_slash(s)->Some_0;
    assert(s =~= s.subrange(0, j) + seq!['/'] + s.subrange(j + 1, s.len() as int));
    assert(group_path(root, s) =~= root + "/"@ + s);
}

/// A failure of a cache operation.
#[derive(Debug, Clone, Copy, PartialEq, Eq, Structural)]
pub enum CacheError {
    /// The backing file of a group that was not cached could not be decoded.
    Corrupt,
    /// The group holds no value under the key.
    NotFound,
    /// Groups with unflushed writes are still cached.
    Unflushed,
}

/// The message of a cache failure.
pub open spec fn cache_error_text(e: CacheError) -> Seq<char> {
    match e {
        CacheError::Corrupt => "save file could not be read"@,
        CacheError::NotFound => "could not find key in group"@,
        CacheError::Unflushed => "unflushed writes remain"@,
    }
}

impl CacheError {
    /// A human-readable cause.
    pub fn message(&self) -> (r: String)
        ensures
            r@ == cache_error_text(*self),
    {
        match self {
            CacheError::Corrupt => owned("save file could not be read"),
            CacheError::NotFound => owned("could not find key in group"),
            CacheError::Unflushed => owned("unflushed writes remain"),
        }
    }
}

/// One cached group: its path, its pairs and whether it has unflushed writes.
pub struct SaveGroup {
    path: String,
    entries: Vec<(String, String)>,
    dirty: bool,
}

impl SaveGroup {
    /// The key/value map of the group.
    pub closed spec fn map(&self) -> Map<Seq<char>, Seq<char>> {
        assoc_view(pairs_view(self.entries@))
    }

    pub closed spec fn wf(&self) -> bool {
        keys_unique(pairs_view(self.entries@))
    }

    /// Finds the position of a key.
    fn find(&self, key: &String) -> (r: Option<usize>)
        requires
            self.wf(),
        ensures
            r matches Some(i) ==> i < self.entries@.len() && self.entries@[i as int].0@ == key@,
            r is None ==> !self.map().contains_key(key@),
    {
        let mut i: usize = 0;
        while i < self.entries.len()
            invariant
                i <= self.entries@.len(),
                forall|j: int| 0 <= j < i ==> self.entries@[j].0@ != key@,
            decreases self.entries@.len() - i,
        {
            if self.entries[i].0 == *key {
                return Some(i);
            }
            i = i + 1;
        }
        proof {
            lemma_assoc_domain(pairs_view(self.entries@), key@);
        }
        None
    }

    /// Sets `key` to `value`.
    fn put(&mut self, key: String, value: String)
        requires
            old(self).wf(),
        ensures
            final(self).wf(),
            final(self).map() == old(self).map().insert(key@, value@),
            final(self).path == old(self).path,
            final(self).dirty == old(self).dirty,
    {
        match self.find(&key) {
            Some(i) => {
                proof {
                    lemma_assoc_update(pairs_view(self.entries@), i as int, value@);
                }
                let ghost before = self.entries@;
                self.entries.set(i, (key, value));
                assert(pairs_view(self.entries@) =~= pairs_view(before).update(
                    i as int,
                    (pairs_view(before)[i as int].0, value@),
                ));
            },
            None => {
                let ghost before = self.entries@;
                let ghost k = key@;
                let ghost v = value@;
                proof {
                    lemma_assoc_domain(pairs_view(before), k);
                    assert forall|j: int| 0 <= j < pairs_view(before).len() implies pairs_view(
                        before,
                    )[j].0 != k by {
                        if pairs_view(before)[j].0 == k {
                            assert(assoc_view(pairs_view(before)).contains_key(k));
                        }
                    }
                    lemma_assoc_push_unique(pairs_view(before), k, v);
                }
                self.entries.push((key, value));
                assert(pairs_view(self.entries@) =~= pairs_view(before).push((k, v)));
            },
        }
    }

    /// A group read from the text of its backing file, or an empty group.
    fn from_stored(path: String, stored: Option<&str>) -> (r: Option<SaveGroup>)
        ensures
            match stored {
                None => r matches Some(g) && g.map() == Map::<Seq<char>, Seq<char>>::empty(),
                Some(t) => match decoded_group(t@) {
                    None => r is None,
                    Some(m) => r matches Some(g) && g.map() == m,
                },
            },
            r matches Some(g) ==> g.wf() && g.path@ == path@ && !g.dirty,
    {
        let mut g = SaveGroup { path, entries: Vec::new(), dirty: false };
        assert(pairs_view(g.entries@) =~= Seq::empty());
        match stored {
            None => Some(g),
            Some(text) => match decode_group(text) {
                None => None,
                Some(pairs) => {
                    let mut i: usize = 0;
                    while i < pairs.len()
                        invariant
                            i <= pairs@.len(),
                            g.wf(),
                            g.path@ == path@,
                            !g.dirty,
                            g.map() == assoc_view(pairs_view(pairs@.subrange(0, i as int))),
                        decreases pairs@.len() - i,
                    {
                        let k = pairs[i].0.clone();
                        let v = pairs[i].1.clone();
                        g.put(k, v);
                        assert(pairs_view(pairs@.subrange(0, i + 1)).drop_last() =~= pairs_view(
                            pairs@.subrange(0, i as int),
                        ));
                        i = i + 1;
                    }
                    assert(pairs@.subrange(0, i as int) =~= pairs@);
                    Some(g)
                },
            },
        }
    }
}

/// A file write that a flush owes: the group path, the backing file and the
/// JSON text of the group.
pub struct PendingWrite {
    pub path: String,
    pub file: String,
    pub contents: String,
}

/// The groups that can be cached after load-or-create of `path`, with the text
/// of its backing file if one was read; `None` when that text cannot be decoded.
pub open spec fn load_or_create(
    groups: Map<Seq<char>, Map<Seq<char>, Seq<char>>>,
    path: Seq<char>,
    stored: Option<Seq<char>>,
) -> Option<Map<Seq<char>, Map<Seq<char>, Seq<char>>>> {
    if groups.contains_key(path) {
        Some(groups)
    } else {
        match stored {
            None => Some(groups.insert(path, Map::empty())),
            Some(t) => match decoded_group(t) {
                None => None,
                Some(m) => Some(groups.insert(path, m)),
            },
        }
    }
}

/// The groups after `save(path, key, value)`; `None` when the load fails.
pub open spec fn saved(
    groups: Map<Seq<char>, Map<Seq<char>, Seq<char>>>,
    path: Seq<char>,
    key: Seq<char>,
    value: Seq<char>,
    stored: Option<Seq<char>>,
) -> Option<Map<Seq<char>, Map<Seq<char>, Seq<char>>>> {
    match load_or_create(groups, path, stored) {
        None => None,
        Some(m) => Some(m.insert(path, m[path].insert(key, value))),
    }
}

/// What `load(path, key)` returns.
pub open spec fn loaded_value(
    groups: Map<Seq<char>, Map<Seq<char>, Seq<char>>>,
    path: Seq<char>,
    key: Seq<char>,
    stored: Option<Seq<char>>,
) -> Result<Seq<char>, CacheError> {
    match load_or_create(groups, path, stored) {
        None => Err(CacheError::Corrupt),
        Some(m) => if m[path].contains_key(key) {
            Ok(m[path][key])
        } else {
            Err(CacheError::NotFound)
        },
    }
}

/// The in-memory save-data cache: each group, once cached, is authoritative
/// over its backing file.
pub struct PersistenceCache {
    root: String,
    groups: Vec<SaveGroup>,
}

/// The paths of the cached groups with their maps, in cache order.
pub closed spec fn group_pairs(gs: Seq<SaveGroup>) -> Seq<(Seq<char>, Map<Seq<char>, Seq<char>>)> {
    gs.map_values(|g: SaveGroup| (g.path@, g.map()))
}

/// The number of pairs over all groups of a sequence.
pub closed spec fn total_entries(gs: Seq<SaveGroup>) -> int
    decreases gs.len(),
{
    if gs.len() == 0 {
        0
    } else {
        total_entries(gs.drop_last()) + gs.last().entries@.len()
    }
}

impl PersistenceCache {
    /// The save root that group names are resolved under.
    pub closed spec fn root_view(&self) -> Seq<char> {
        self.root@
    }

    /// The cached groups: group path to key/value map.
    pub closed spec fn groups(&self) -> Map<Seq<char>, Map<Seq<char>, Seq<char>>> {
        assoc_view(group_pairs(self.groups@))
    }

    /// The dirty set: paths of the groups with unflushed writes.
    pub closed spec fn dirty(&self) -> Set<Seq<char>> {
        Set::new(
            |p: Seq<char>|
                exists|i: int|
                    0 <= i < self.groups@.len() && self.groups@[i].path@ == p
                        && self.groups@[i].dirty,
        )
    }

    pub closed spec fn wf(&self) -> bool {
        &&& keys_unique(group_pairs(self.groups@))
        &&& forall|i: int| 0 <= i < self.groups@.len() ==> (#[trigger] self.groups@[i]).wf()
    }

    /// An empty cache over the save root `root`.
    pub fn new(root: &str) -> (r: Self)
        ensures
            r.wf(),
            r.root_view() == root@,
            r.groups() == Map::<Seq<char>, Map<Seq<char>, Seq<char>>>::empty(),
            r.dirty() == Set::<Seq<char>>::empty(),
    {
        let r = PersistenceCache { root: owned(root), groups: Vec::new() };
        assert(group_pairs(r.groups@) =~= Seq::empty());
        assert(r.dirty() =~= Set::empty());
        r
    }

    /// Every group in the dirty set is cached.
    pub proof fn lemma_dirty_cached(&self)
        requires
            self.wf(),
        ensures
            self.dirty().subset_of(self.groups().dom()),
    {
        assert forall|p: Seq<char>| self.dirty().contains(p) implies self.groups().contains_key(
            p,
        ) by {
            let i = choose|i: int|
                0 <= i < self.groups@.len() && self.groups@[i].path@ == p && self.groups@[i].dirty;
            assert(group_pairs(self.groups@)[i].0 == p);
            lemma_assoc_index(group_pairs(self.groups@), i);
        }
    }

    /// Finds the position of a cached group.
    fn find(&self, path: &String) -> (r: Option<usize>)
        requires
            self.wf(),
        ensures
            r matches Some(i) ==> i < self.groups@.len() && self.groups@[i as int].path@ == path@,
            r is None ==> !self.groups().contains_key(path@),
    {
        let mut i: usize = 0;
        while i < self.groups.len()
            invariant
                i <= self.groups@.len(),
                forall|j: int| 0 <= j < i ==> self.groups@[j].path@ != path@,
            decreases self.groups@.len() - i,
        {
            if self.groups[i].path == *path {
                return Some(i);
            }
            i = i + 1;
        }
        proof {
            lemma_assoc_domain(group_pairs(self.groups@), path@);
        }
        None
    }

    /// The path of a group name under this cache's root.
    pub fn path_of(&self, group: &str) -> (r: String)
        ensures
            r@ == group_path(self.root_view(), group@),
    {
        path_of_group(self.root.as_str(), group)
    }

    /// The backing file that must be read before `save` or `load` of `group`,
    /// or `None` when the group is cached and no read is allowed.
    pub fn file_to_read(&self, group: &str) -> (r: Option<String>)
        requires
            self.wf(),
        ensures
            r is None <==> self.groups().contains_key(group_path(self.root_view(), group@)),
            r matches Some(f) ==> f@ == save_file(group_path(self.root_view(), group@)),
    {
        proof {
            reveal_strlit(".save");
        }
        let path = self.path_of(group);
        match self.find(&path) {
            Some(i) => {
                proof {
                    lemma_assoc_index(group_pairs(self.groups@), i as int);
                }
                None
            },
            None => Some(join2(path.as_str(), ".save")),
        }
    }

    /// Load-or-create: the position of the group at `path`, read from
    /// `stored` if it was not cached.
    fn load_group(&mut self, path: String, stored: Option<&str>) -> (r: Result<usize, CacheError>)
        requires
            old(self).wf(),
        ensures
            final(self).wf(),
            final(self).root == old(self).root,
            final(self).dirty() == old(self).dirty(),
            match load_or_create(old(self).groups(), path@, stored_view(stored)) {
                None => r == Err::<usize, CacheError>(CacheError::Corrupt) && final(self).groups() == old(self).groups(),
                Some(m) => r matches Ok(i) && i < final(self).groups@.len() && final(self).groups@[i as int].path@ == path@ && final(self).groups() == m,
            },
    {
        match self.find(&path) {
            Some(i) => {
                proof {
                    lemma_assoc_index(group_pairs(self.groups@), i as int);
                }
                Ok(i)
            },
            None => {
                let ghost p = path@;
                match SaveGroup::from_stored(path, stored) {
                    None => Err(CacheError::Corrupt),
                    Some(g) => {
                        let ghost before = self.groups@;
                        let ghost gm = g.map();
                        proof {
                            lemma_assoc_domain(group_pairs(before), p);
                            assert forall|j: int| 0 <= j < group_pairs(before).len() implies (
                            group_pairs(before)[j].0 != p) by {
                                if group_pairs(before)[j].0 == p {
                                    assert(assoc_view(group_pairs(before)).contains_key(p));
                                }
                            }
                            lemma_assoc_push_unique(group_pairs(before), p, gm);
                        }
                        self.groups.push(g);
                        assert(group_pairs(self.groups@) =~= group_pairs(before).push((p, gm)));
                        assert(self.dirty() =~= old(self).dirty()) by {
                            assert forall|q: Seq<char>| #[trigger]
                                self.dirty().contains(q) implies old(self).dirty().contains(q) by {
                                let j = choose|j: int|
                                    0 <= j < self.groups@.len() && self.groups@[j].path@ == q
                                        && self.groups@[j].dirty;
                                assert(j < before.len());
                                assert(before[j] == self.groups@[j]);
                            }
                            assert forall|q: Seq<char>| #[trigger]
                                old(self).dirty().contains(q) implies self.dirty().contains(q) by {
                                let j = choose|j: int|
                                    0 <= j < before.len() && before[j].path@ == q && before[j].dirty;
                                assert(self.groups@[j] == before[j]);
                            }
                        }
                        Ok(self.groups.len() - 1)
                    },
                }
            },
        }
    }

    /// Stores `value` under `key` in `group`, loading or creating the group
    /// first, and marks the group dirty. `stored` is the text of the group's
    /// backing file when `file_to_read` asked for it.
    pub fn save(&mut self, group: &str, key: &str, value: &str, stored: Option<&str>) -> (r: Result<
        (),
        CacheError,
    >)
        requires
            old(self).wf(),
        ensures
            final(self).wf(),
            final(self).root_view() == old(self).root_view(),
            match saved(
                old(self).groups(),
                group_path(old(self).root_view(), group@),
                key@,
                value@,
                stored_view(stored),
            ) {
                None => r == Err::<(), CacheError>(CacheError::Corrupt) && final(self).groups()
                    == old(self).groups() && final(self).dirty() == old(self).dirty(),
                Some(m) => r is Ok && final(self).groups() == m && final(self).dirty() == old(self).dirty().insert(group_path(old(self).root_view(), group@)),
            },
    {
        let path = self.path_of(group);
        let ghost p = path@;
        let ghost g0 = old(self).groups();
        match self.load_group(path, stored) {
            Err(e) => Err(e),
            Ok(i) => {
                let ghost before = self.groups@;
                let ghost d0 = self.dirty();
                let ghost m = self.groups();
                proof {
                    lemma_assoc_index(group_pairs(before), i as int);
                    assert(before[i as int].wf());
                }
                self.groups[i].put(owned(key), owned(value));
                self.groups[i].dirty = true;
                let ghost gi = self.groups@[i as int];
                proof {
                    assert(self.groups@ == before.update(i as int, gi));
                    assert(group_pairs(self.groups@) =~= group_pairs(before).update(
                        i as int,
                        (group_pairs(before)[i as int].0, gi.map()),
                    ));
                    lemma_assoc_update(group_pairs(before), i as int, gi.map());
                    assert forall|j: int| 0 <= j < self.groups@.len() implies (
                    #[trigger] self.groups@[j]).wf() by {
                        if j != i {
                            assert(self.groups@[j] == before[j]);
                        }
                    }
                    assert(self.dirty() =~= d0.insert(p)) by {
                        assert forall|q: Seq<char>| #[trigger]
                            self.dirty().contains(q) implies d0.insert(p).contains(q) by {
                            let j = choose|j: int|
                                0 <= j < self.groups@.len() && self.groups@[j].path@ == q
                                    && self.groups@[j].dirty;
                            if j != i {
                                assert(before[j] == self.groups@[j]);
                            }
                        }
                        assert forall|q: Seq<char>| #[trigger]
                            d0.insert(p).contains(q) implies self.dirty().contains(q) by {
                            if q == p {
                                assert(self.groups@[i as int].path@ == q);
                            } else {
                                let j = choose|j: int|
                                    0 <= j < before.len() && before[j].path@ == q
                                        && before[j].dirty;
                                assert(j != i);
                                assert(self.groups@[j] == before[j]);
                            }
                        }
                    }
                }
                Ok(())
            },
        }
    }

    /// The value under `key` in `group`, loading or creating the group first.
    /// A missing key is `NotFound`; the key is not created.
    pub fn load(&mut self, group: &str, key: &str, stored: Option<&str>) -> (r: Result<
        String,
        CacheError,
    >)
        requires
            old(self).wf(),
        ensures
            final(self).wf(),
            final(self).root_view() == old(self).root_view(),
            final(self).dirty() == old(self).dirty(),
            value_view(r) == loaded_value(
                old(self).groups(),
                group_path(old(self).root_view(), group@),
                key@,
                stored_view(stored),
            ),
            match load_or_create(
                old(self).groups(),
                group_path(old(self).root_view(), group@),
                stored_view(stored),
            ) {
                None => final(self).groups() == old(self).groups(),
                Some(m) => final(self).groups() == m,
            },
    {
        let path = self.path_of(group);
        let k = owned(key);
        match self.load_group(path, stored) {
            Err(e) => Err(e),
            Ok(i) => {
                proof {
                    lemma_assoc_index(group_pairs(self.groups@), i as int);
                    assert(self.groups@[i as int].wf());
                }
                match self.groups[i].find(&k) {
                    None => Err(CacheError::NotFound),
                    Some(j) => {
                        proof {
                            lemma_assoc_index(pairs_view(self.groups@[i as int].entries@), j as int);
                        }
                        Ok(self.groups[i].entries[j].1.clone())
                    },
                }
            },
        }
    }

    /// The writes that a flush owes: one for each dirty group, with the JSON
    /// text of its whole map, in no particular order.
    pub fn pending_writes(&self) -> (r: Vec<PendingWrite>)
        requires
            self.wf(),
        ensures
            forall|k: int|
                0 <= k < r@.len() ==> {
                    &&& self.dirty().contains(#[trigger] r@[k].path@)
                    &&& r@[k].file@ == save_file(r@[k].path@)
                    &&& r@[k].contents@ == encoded_group(self.groups()[r@[k].path@])
                },
            forall|p: Seq<char>|
                self.dirty().contains(p) ==> exists|k: int| 0 <= k < r@.len() && #[trigger] r@[k].path@ == p,
            forall|a: int, b: int| 0 <= a < b < r@.len() ==> r@[a].path@ != r@[b].path@,
    {
        proof {
            reveal_strlit(".save");
        }
        let mut r: Vec<PendingWrite> = Vec::new();
        let ghost mut idx: Seq<int> = Seq::empty();
        let mut i: usize = 0;
        while i < self.groups.len()
            invariant
                self.wf(),
                i <= self.groups@.len(),
                idx.len() == r@.len(),
                forall|k: int|
                    0 <= k < r@.len() ==> {
                        &&& 0 <= #[trigger] idx[k] < i
                        &&& self.groups@[idx[k]].dirty
                        &&& self.groups@[idx[k]].path@ == r@[k].path@
                        &&& r@[k].file@ == save_file(r@[k].path@)
                        &&& r@[k].contents@ == encoded_group(self.groups@[idx[k]].map())
                    },
                forall|a: int, b: int| 0 <= a < b < idx.len() ==> idx[a] < idx[b],
                forall|j: int|
                    0 <= j < i && (#[trigger] self.groups@[j]).dirty ==> exists|k: int|
                        0 <= k < r@.len() && idx[k] == j,
            decreases self.groups@.len() - i,
        {
            if self.groups[i].dirty {
                proof {
                    reveal_strlit(".save");
                }
                let g = &self.groups[i];
                let w = PendingWrite {
                    path: g.path.clone(),
                    file: join2(g.path.as_str(), ".save"),
                    contents: encode_group(&g.entries),
                };
                let ghost r0 = r@;
                let ghost idx0 = idx;
                r.push(w);
                proof {
                    idx = idx.push(i as int);
                    assert(idx[idx.len() - 1] == i as int);
                    assert(r@[r@.len() - 1].path@ == self.groups@[i as int].path@);
                    assert(r@[r@.len() - 1].file@ == save_file(self.groups@[i as int].path@));
                    assert forall|k: int| 0 <= k < r0.len() implies r@[k] == r0[k] && idx[k] == idx0[k] by {}
                    assert forall|j: int|
                        0 <= j < i + 1 && (#[trigger] self.groups@[j]).dirty implies exists|k: int|
                            0 <= k < r@.len() && idx[k] == j by {
                        if j == i {
                            assert(idx[r@.len() - 1] == j);
                        } else {
                            let k = choose|k: int| 0 <= k < r0.len() && idx0[k] == j;
                            assert(idx[k] == j);
                        }
                    }
                }
            }
            i = i + 1;
        }
        proof {
            assert forall|k: int| 0 <= k < r@.len() implies {
                &&& self.dirty().contains(#[trigger] r@[k].path@)
                &&& r@[k].contents@ == encoded_group(self.groups()[r@[k].path@])
            } by {
                let j = idx[k];
                assert(group_pairs(self.groups@)[j].0 == r@[k].path@);
                lemma_assoc_index(group_pairs(self.groups@), j);
            }
            assert forall|p: Seq<char>| self.dirty().contains(p) implies exists|k: int|
                0 <= k < r@.len() && #[trigger] r@[k].path@ == p by {
                let j = choose|j: int|
                    0 <= j < self.groups@.len() && self.groups@[j].path@ == p
                        && self.groups@[j].dirty;
                assert(self.groups@[j].dirty);
                let k = choose|k: int| 0 <= k < r@.len() && idx[k] == j;
                assert(r@[k].path@ == p);
            }
            assert forall|a: int, b: int| 0 <= a < b < r@.len() implies r@[a].path@
                != r@[b].path@ by {
                assert(idx[a] < idx[b]);
                assert(group_pairs(self.groups@)[idx[a]].0 == r@[a].path@);
                assert(group_pairs(self.groups@)[idx[b]].0 == r@[b].path@);
            }
        }
        r
    }

    /// Records that the backing file of the group at `path` was written.
    pub fn mark_flushed(&mut self, path: &String)
        requires
            old(self).wf(),
        ensures
            final(self).wf(),
            final(self).root_view() == old(self).root_view(),
            final(self).groups() == old(self).groups(),
            final(self).dirty() == old(self).dirty().remove(path@),
    {
        match self.find(path) {
            None => {
                proof {
                    self.lemma_dirty_cached();
                }
                assert(self.dirty() =~= old(self).dirty().remove(path@));
            },
            Some(i) => {
                let ghost before = self.groups@;
                self.groups[i].dirty = false;
                proof {
                    assert(group_pairs(self.groups@) =~= group_pairs(before));
                    assert forall|j: int| 0 <= j < self.groups@.len() implies (
                    #[trigger] self.groups@[j]).wf() by {
                        assert(self.groups@[j].entries == before[j].entries);
                    }
                    assert forall|q: Seq<char>| #[trigger]
                        self.dirty().contains(q) implies old(self).dirty().remove(path@).contains(q) by {
                        let j = choose|j: int|
                            0 <= j < self.groups@.len() && self.groups@[j].path@ == q
                                && self.groups@[j].dirty;
                        assert(j != i);
                        assert(before[j] == self.groups@[j]);
                        assert(group_pairs(before)[j].0 != group_pairs(before)[i as int].0);
                    }
                    assert forall|q: Seq<char>| #[trigger]
                        old(self).dirty().remove(path@).contains(q) implies self.dirty().contains(q) by {
                        let j = choose|j: int|
                            0 <= j < before.len() && before[j].path@ == q && before[j].dirty;
                        assert(j != i);
                        assert(self.groups@[j] == before[j]);
                    }
                    assert(self.dirty() =~= old(self).dirty().remove(path@));
                }
            },
        }
    }

    /// Records the writes of a flush that succeeded: their groups leave the
    /// dirty set, the others stay dirty for a retry.
    pub fn complete_flush(&mut self, done: &Vec<PendingWrite>)
        requires
            old(self).wf(),
        ensures
            final(self).wf(),
            final(self).root_view() == old(self).root_view(),
            final(self).groups() == old(self).groups(),
            final(self).dirty() == old(self).dirty().difference(written_paths(done@)),
    {
        let mut i: usize = 0;
        while i < done.len()
            invariant
                self.wf(),
                i <= done@.len(),
                self.root_view() == old(self).root_view(),
                self.groups() == old(self).groups(),
                self.dirty() == old(self).dirty().difference(written_paths(done@.subrange(0, i as int))),
            decreases done@.len() - i,
        {
            self.mark_flushed(&done[i].path);
            proof {
                let s = done@.subrange(0, i as int);
                let t = done@.subrange(0, i + 1);
                assert(written_paths(t) =~= written_paths(s).insert(done@[i as int].path@)) by {
                    assert forall|q: Seq<char>| written_paths(t).contains(q) implies written_paths(s).insert(
                        done@[i as int].path@,
                    ).contains(q) by {
                        let k = choose|k: int| 0 <= k < t.len() && t[k].path@ == q;
                        if k < i {
                            assert(s[k] == t[k]);
                        }
                    }
                    assert forall|q: Seq<char>| written_paths(s).insert(done@[i as int].path@).contains(q)
                        implies written_paths(t).contains(q) by {
                        if q == done@[i as int].path@ {
                            assert(t[i as int].path@ == q);
                        } else {
                            let k = choose|k: int| 0 <= k < s.len() && s[k].path@ == q;
                            assert(t[k] == s[k]);
                        }
                    }
                }
                assert(self.dirty() =~= old(self).dirty().difference(written_paths(t)));
            }
            i = i + 1;
        }
        assert(done@.subrange(0, i as int) =~= done@);
    }

    /// Drops every cached group, which is allowed only once all writes are
    /// flushed; otherwise nothing changes.
    pub fn clear_db(&mut self) -> (r: Result<(), CacheError>)
        requires
            old(self).wf(),
        ensures
            final(self).wf(),
            final(self).root_view() == old(self).root_view(),
            r is Ok <==> old(self).dirty().is_empty(),
            r is Ok ==> final(self).groups() == Map::<Seq<char>, Map<Seq<char>, Seq<char>>>::empty(),
            r is Err ==> r == Err::<(), CacheError>(CacheError::Unflushed) && final(self).groups()
                == old(self).groups() && final(self).dirty() == old(self).dirty(),
            final(self).dirty() == old(self).dirty(),
    {
        let mut i: usize = 0;
        while i < self.groups.len()
            invariant
                i <= self.groups@.len(),
                self.wf(),
                self.groups == old(self).groups,
                self.root == old(self).root,
                forall|j: int| 0 <= j < i ==> !(#[trigger] self.groups@[j]).dirty,
            decreases self.groups@.len() - i,
        {
            if self.groups[i].dirty {
                assert(self.dirty().contains(self.groups@[i as int].path@));
                return Err(CacheError::Unflushed);
            }
            i = i + 1;
        }
        assert(self.dirty() =~= Set::empty());
        self.groups = Vec::new();
        assert(group_pairs(self.groups@) =~= Seq::empty());
        assert(self.dirty() =~= Set::empty());
        Ok(())
    }

    /// The number of key/value pairs over all cached groups (at most
    /// `usize::MAX`), a rough measure of the cache's size.
    pub fn db_cache_size(&self) -> (r: usize)
        ensures
            r == if self.total_size() < usize::MAX { self.total_size() } else { usize::MAX as int },
    {
        let mut total: usize = 0;
        let mut i: usize = 0;
        while i < self.groups.len()
            invariant
                i <= self.groups@.len(),
                total == if total_entries(self.groups@.subrange(0, i as int)) < usize::MAX {
                    total_entries(self.groups@.subrange(0, i as int))
                } else {
                    usize::MAX as int
                },
            decreases self.groups@.len() - i,
        {
            assert(self.groups@.subrange(0, i + 1).drop_last() =~= self.groups@.subrange(0, i as int));
            let n = self.groups[i].entries.len();
            total = total.saturating_add(n);
            i = i + 1;
        }
        assert(self.groups@.subrange(0, i as int) =~= self.groups@);
        total
    }

    /// The number of key/value pairs over all cached groups.
    pub closed spec fn total_size(&self) -> int {
        total_entries(self.groups@)
    }
}

/// The group paths of a list of writes.
pub open spec fn written_paths(done: Seq<PendingWrite>) -> Set<Seq<char>> {
    Set::new(|p: Seq<char>| exists|k: int| 0 <= k < done.len() && done[k].path@ == p)
}

/// Read-your-writes: a value saved in a group is what a load of its key
/// returns next, whatever backing file the load would be offered, since the
/// group is cached by then.
pub proof fn lemma_read_your_writes(
    groups: Map<Seq<char>, Map<Seq<char>, Seq<char>>>,
    path: Seq<char>,
    key: Seq<char>,
    value: Seq<char>,
    stored: Option<Seq<char>>,
    stored_after: Option<Seq<char>>,
)
    requires
        saved(groups, path, key, value, stored) is Some,
    ensures
        loaded_value(saved(groups, path, key, value, stored)->Some_0, path, key, stored_after)
            == Ok::<Seq<char>, CacheError>(value),
{
}

/// Dirty-set precision: once a flush has emptied the dirty set, a save to a
/// group leaves that group alone dirty, so the next flush writes its file and
/// no other.
pub proof fn lemma_dirty_precision(dirty: Set<Seq<char>>, done: Seq<PendingWrite>, path: Seq<char>)
    requires
        dirty.subset_of(written_paths(done)),
    ensures
        dirty.difference(written_paths(done)).is_empty(),
        dirty.difference(written_paths(done)).insert(path) == set![path],
{
    assert(dirty.difference(written_paths(done)) =~= Set::empty());
    assert(dirty.difference(written_paths(done)).insert(path) =~= set![path]);
}

} // verus!
