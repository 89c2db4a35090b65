//! The world tree, modelled in memory: a flat table of root-relative paths,
//! each carrying a file's text or marking a directory. Its mathematical view
//! is a map from component sequences to entries.

use vstd::prelude::*;
use crate::path_guard::path_wf;
use crate::path_guard::sub_parts;
use crate::path_guard::valid_component;

verus! {

/// What lives at a path of the world tree: a text file, or a directory.
pub enum Entry {
    File(String),
    Dir,
}

/// The ghost image of an entry.
pub enum EntrySpec {
    File(Seq<char>),
    Dir,
}

pub open spec fn entry_view(e: Entry) -> EntrySpec {
    match e {
        Entry::File(content) => EntrySpec::File(content@),
        Entry::Dir => EntrySpec::Dir,
    }
}

/// One row of the table: a path relative to the sandbox root, and its entry.
pub struct EntryRecord {
    pub path: Vec<String>,
    pub entry: Entry,
}

pub open spec fn rec_key(r: EntryRecord) -> Seq<Seq<char>> {
    r.path.deep_view()
}

pub open spec fn rec_val(r: EntryRecord) -> EntrySpec {
    entry_view(r.entry)
}

/// The map a table of records denotes.
pub open spec fn map_of(s: Seq<EntryRecord>) -> Map<Seq<Seq<char>>, EntrySpec>
    decreases s.len(),
{
    if s.len() == 0 {
        Map::empty()
    } else {
        map_of(s.drop_last()).insert(rec_key(s.last()), rec_val(s.last()))
    }
}

/// No two records name the same path.
pub open spec fn unique_keys(s: Seq<EntryRecord>) -> bool {
    forall|a: int, b: int| 0 <= a < b < s.len() ==> rec_key(s[a]) != rec_key(s[b])
}

/// A well-formed root-relative path: at least one component, all valid.
pub open spec fn rel_path_wf(p: Seq<Seq<char>>) -> bool {
    p.len() > 0 && path_wf(p)
}

/// The live world tree, or one stored snapshot of it. The sandbox root
/// itself is not a row: it is always a directory.
pub struct WorldTree {
    pub records: Vec<EntryRecord>,
}

impl View for WorldTree {
    type V = Map<Seq<Seq<char>>, EntrySpec>;

    open spec fn view(&self) -> Map<Seq<Seq<char>>, EntrySpec> {
        map_of(self.records@)
    }
}

pub proof fn lemma_map_of_contains(s: Seq<EntryRecord>, k: Seq<Seq<char>>)
    ensures
        map_of(s).contains_key(k) <==> exists|i: int| 0 <= i < s.len() && rec_key(s[i]) == k,
    decreases s.len(),
{
    if s.len() > 0 {
        lemma_map_of_contains(s.drop_last(), k);
        if k == rec_key(s.last()) {
            assert(rec_key(s[s.len() - 1]) == k);
        } else if map_of(s).contains_key(k) {
            let i = choose|i: int| 0 <= i < s.drop_last().len() && rec_key(s.drop_last()[i]) == k;
            assert(rec_key(s[i]) == k);
        } else if exists|i: int| 0 <= i < s.len() && rec_key(s[i]) == k {
            let i = choose|i: int| 0 <= i < s.len() && rec_key(s[i]) == k;
            assert(rec_key(s.drop_last()[i]) == k);
        }
    }
}

pub proof fn lemma_map_of_index(s: Seq<EntryRecord>, i: int)
    requires
        0 <= i < s.len(),
        unique_keys(s),
    ensures
        map_of(s).contains_key(rec_key(s[i])),
        map_of(s)[rec_key(s[i])] == rec_val(s[i]),
    decreases s.len(),
{
    if i < s.len() - 1 {
        assert(unique_keys(s.drop_last())) by {
            assert(forall|a: int, b: int|
                0 <= a < b < s.drop_last().len() ==> rec_key(s.drop_last()[a]) == rec_key(s[a])
                    && rec_key(s.drop_last()[b]) == rec_key(s[b]));
        }
        lemma_map_of_index(s.drop_last(), i);
        assert(rec_key(s.drop_last()[i]) == rec_key(s[i]));
        assert(rec_key(s[i]) != rec_key(s[s.len() - 1]));
    }
}

/// Two tables that agree row by row on path and entry denote the same map.
pub proof fn lemma_map_of_congruence(s1: Seq<EntryRecord>, s2: Seq<EntryRecord>)
    requires
        s1.len() == s2.len(),
        forall|i: int|
            0 <= i < s1.len() ==> #[trigger] rec_key(s1[i]) == rec_key(s2[i]) && rec_val(s1[i])
                == rec_val(s2[i]),
    ensures
        map_of(s1) == map_of(s2),
    decreases s1.len(),
{
    if s1.len() > 0 {
        assert(forall|i: int|
            0 <= i < s1.drop_last().len() ==> #[trigger] rec_key(s1.drop_last()[i]) == rec_key(
                s1[i],
            ) && rec_key(s2.drop_last()[i]) == rec_key(s2[i]) && rec_val(s1.drop_last()[i])
                == rec_val(s1[i]) && rec_val(s2.drop_last()[i]) == rec_val(s2[i]));
        lemma_map_of_congruence(s1.drop_last(), s2.drop_last());
        assert(rec_key(s1[s1.len() - 1]) == rec_key(s2[s1.len() - 1]));
        assert(rec_val(s1[s1.len() - 1]) == rec_val(s2[s1.len() - 1]));
    }
}

/// Whether two root-relative paths have the same components.
pub fn paths_equal(a: &Vec<String>, b: &Vec<String>) -> (r: bool)
    ensures
        r == (a.deep_view() == b.deep_view()),
{
    if a.len() != b.len() {
        proof {
            assert(a.deep_view().len() == a@.len());
            assert(b.deep_view().len() == b@.len());
        }
        return false;
    }
    let mut i: usize = 0;
    while i < a.len()
        invariant
            i <= a@.len() == b@.len(),
            forall|j: int| 0 <= j < i ==> a.deep_view()[j] == b.deep_view()[j],
        decreases a@.len() - i,
    {
        if !(a[i] == b[i]) {
            proof {
                assert(a.deep_view()[i as int] != b.deep_view()[i as int]);
            }
            return false;
        }
        i += 1;
    }
    proof {
        assert(a.deep_view() =~= b.deep_view());
    }
    true
}

/// Whether a string is a valid path component.
pub fn component_ok(s: &String) -> (r: bool)
    ensures
        r == valid_component(s@),
{
    proof {
        reveal_strlit(".");
        reveal_strlit("..");
    }
    let n = s.as_str().unicode_len();
    if n == 0 {
        return false;
    }
    if n == 1 && s.as_str().get_char(0) == '.' {
        proof {
            assert(s@ =~= "."@);
        }
        return false;
    }
    if n == 2 && s.as_str().get_char(0) == '.' && s.as_str().get_char(1) == '.' {
        proof {
            assert(s@ =~= ".."@);
        }
        return false;
    }
    let mut i: usize = 0;
    while i < n
        invariant
            i <= n == s@.len(),
            forall|j: int| 0 <= j < i ==> s@[j] != '/',
        decreases n - i,
    {
        if s.as_str().get_char(i) == '/' {
            proof {
                assert(s@.contains('/'));
            }
            return false;
        }
        i += 1;
    }
    proof {
        if s@.contains('/') {
            let k = choose|k: int| 0 <= k < s@.len() && s@[k] == '/';
            assert(false);
        }
        if n == 1 {
            assert(s@ != "."@) by {
                assert(s@[0] != '.');
            }
        }
        if n == 2 {
            assert(s@ != ".."@) by {
                assert(s@[0] != '.' || s@[1] != '.');
            }
        }
    }
    true
}

/// A path may be inserted when it is well-formed, absent, and its parent is
/// either the sandbox root or a present directory.
pub open spec fn can_insert(m: Map<Seq<Seq<char>>, EntrySpec>, p: Seq<Seq<char>>) -> bool {
    &&& rel_path_wf(p)
    &&& !m.contains_key(p)
    &&& (p.len() == 1 || (m.contains_key(p.drop_last()) && m[p.drop_last()] == EntrySpec::Dir))
}

impl WorldTree {
    /// Every row names a distinct, well-formed root-relative path.
    pub open spec fn wf(&self) -> bool {
        &&& unique_keys(self.records@)
        &&& forall|i: int|
            0 <= i < self.records@.len() ==> rel_path_wf(#[trigger] rec_key(self.records@[i]))
    }

    /// An empty world tree: the sandbox root alone.
    pub fn new() -> (r: WorldTree)
        ensures
            r@ == Map::<Seq<Seq<char>>, EntrySpec>::empty(),
            r.wf(),
    {
        let r = WorldTree { records: Vec::new() };
        r
    }

    /// Looks a root-relative path up in the tree.
    pub fn find_entry<'a>(&'a self, rel: &Vec<String>) -> (r: Option<&'a Entry>)
        requires
            self.wf(),
        ensures
            match r {
                Some(e) => self@.contains_key(rel.deep_view()) && self@[rel.deep_view()]
                    == entry_view(*e),
                None => !self@.contains_key(rel.deep_view()),
            },
    {
        let mut i: usize = 0;
        while i < self.records.len()
            invariant
                self.wf(),
                i <= self.records@.len(),
                forall|j: int| 0 <= j < i ==> rec_key(self.records@[j]) != rel.deep_view(),
            decreases self.records@.len() - i,
        {
            if paths_equal(&self.records[i].path, rel) {
                proof {
                    lemma_map_of_index(self.records@, i as int);
                }
                return Some(&self.records[i].entry);
            }
            i += 1;
        }
        proof {
            lemma_map_of_contains(self.records@, rel.deep_view());
        }
        None
    }

    /// Adds an entry at a root-relative path; refuses a malformed path, a
    /// path already present, and a path whose parent is not a directory of
    /// the tree. On refusal the tree is unchanged.
    pub fn insert(&mut self, path: Vec<String>, entry: Entry) -> (ok: bool)
        requires
            old(self).wf(),
        ensures
            final(self).wf(),
            ok == can_insert(old(self)@, path.deep_view()),
            ok ==> final(self)@ == old(self)@.insert(path.deep_view(), entry_view(entry)),
            !ok ==> *final(self) == *old(self),
    {
        let ghost p = path.deep_view();
        if path.len() == 0 {
            return false;
        }
        let mut i: usize = 0;
        while i < path.len()
            invariant
                i <= path@.len(),
                p == path.deep_view(),
                *self == *old(self),
                old(self).wf(),
                forall|j: int| 0 <= j < i ==> valid_component(#[trigger] p[j]),
            decreases path@.len() - i,
        {
            if !component_ok(&path[i]) {
                proof {
                    assert(!valid_component(p[i as int]));
                }
                return false;
            }
            i += 1;
        }
        if self.find_entry(&path).is_some() {
            return false;
        }
        if path.len() > 1 {
            let parent = sub_parts(&path, 0, path.len() - 1);
            proof {
                assert(parent.deep_view() =~= p.drop_last());
            }
            match self.find_entry(&parent) {
                Some(e) => {
                    match e {
                        Entry::Dir => {},
                        Entry::File(_) => {
                            return false;
                        },
                    }
                },
                None => {
                    return false;
                },
            }
        }
        proof {
            lemma_map_of_contains(self.records@, p);
        }
        let ghost olds = self.records@;
        self.records.push(EntryRecord { path, entry });
        proof {
            assert(self.records@.drop_last() =~= olds);
            assert(self.records@.last() == EntryRecord { path, entry });
            assert(forall|j: int|
                0 <= j < olds.len() ==> rec_key(#[trigger] self.records@[j]) == rec_key(olds[j]));
            assert(rec_key(self.records@[olds.len() as int]) == p);
        }
        true
    }

    /// A full copy of the tree: the snapshot engine's one primitive. The
    /// copy denotes exactly the same map as the original.
    pub fn snapshot_copy(&self) -> (r: WorldTree)
        requires
            self.wf(),
        ensures
            r@ == self@,
            r.wf(),
    {
        let mut records: Vec<EntryRecord> = Vec::new();
        let mut i: usize = 0;
        while i < self.records.len()
            invariant
                self.wf(),
                i <= self.records@.len(),
                records@.len() == i,
                forall|j: int|
                    0 <= j < i ==> #[trigger] rec_key(records@[j]) == rec_key(self.records@[j])
                        && rec_val(records@[j]) == rec_val(self.records@[j]),
            decreases self.records@.len() - i,
        {
            let rec = &self.records[i];
            let path = crate::path_guard::clone_parts(&rec.path);
            let entry = match &rec.entry {
                Entry::File(content) => Entry::File(content.clone()),
                Entry::Dir => Entry::Dir,
            };
            proof {
                assert(rec_key(EntryRecord { path, entry }) == rec_key(self.records@[i as int]));
                assert(rec_val(EntryRecord { path, entry }) == rec_val(self.records@[i as int]));
            }
            let ghost oldr = records@;
            records.push(EntryRecord { path, entry });
            proof {
                assert(forall|j: int| 0 <= j < i ==> records@[j] == oldr[j]);
            }
            i += 1;
        }
        let r = WorldTree { records };
        proof {
            lemma_map_of_congruence(r.records@, self.records@);
        }
        r
    }
}

} // verus!
