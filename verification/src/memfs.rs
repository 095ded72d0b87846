use vstd::prelude::*;
use vstd::pervasive::VecAdditionalExecFns;
use vstd::slice::slice_to_vec;
use vstd::string::{StrSliceExecFns, StringExecFns};

use crate::errors::Error;
use crate::paths::is_abs_path;

verus! {

// ---------------------------------------------------------------------------
// The filesystem model.
//
// Every operation of this library works against an explicit in-memory
// filesystem value: a finite map from path strings to entries, where an
// entry is either a directory or a file with its bytes. Passing the
// filesystem in as a value keeps the per-user configuration root out of
// hidden global state, lets every lifecycle rule be stated over a precise
// map, and lets tests substitute any starting state.
// ---------------------------------------------------------------------------

/// What one path names in a filesystem, at the specification level.
pub enum FsNode {
    Dir,
    File(Seq<u8>),
}

/// What one path names in a filesystem: a directory, or a file with its
/// content.
#[derive(Debug, Clone, PartialEq, Eq)]
pub enum FsEntry {
    Dir,
    File(Vec<u8>),
}

impl View for FsEntry {
    type V = FsNode;

    open spec fn view(&self) -> FsNode {
        match self {
            FsEntry::Dir => FsNode::Dir,
            FsEntry::File(d) => FsNode::File(d@),
        }
    }
}

struct FsItem {
    path: String,
    entry: FsEntry,
}

/// An in-memory filesystem: a finite map from paths to entries. Its view is
/// that map.
pub struct Fs {
    items: Vec<FsItem>,
}

spec fn items_map(s: Seq<FsItem>) -> Map<Seq<char>, FsNode>
    decreases s.len(),
{
    if s.len() == 0 {
        Map::empty()
    } else {
        items_map(s.drop_last()).insert(s.last().path@, s.last().entry@)
    }
}

spec fn items_distinct(s: Seq<FsItem>) -> bool {
    forall|i: int, j: int| 0 <= i < j < s.len() ==> s[i].path@ != s[j].path@
}

proof fn lemma_items_map_contains(s: Seq<FsItem>, k: Seq<char>)
    ensures
        items_map(s).contains_key(k) <==> exists|i: int| 0 <= i < s.len() && s[i].path@ == k,
    decreases s.len(),
{
    if s.len() > 0 {
        lemma_items_map_contains(s.drop_last(), k);
        if items_map(s).contains_key(k) {
            if s.last().path@ == k {
                assert(s[s.len() - 1].path@ == k);
            } else {
                let i = choose|i: int| 0 <= i < s.drop_last().len() && s.drop_last()[i].path@
                    == k;
                assert(s[i].path@ == k);
            }
        }
        if exists|i: int| 0 <= i < s.len() && s[i].path@ == k {
            let i = choose|i: int| 0 <= i < s.len() && s[i].path@ == k;
            if i < s.len() - 1 {
                assert(s.drop_last()[i].path@ == k);
            }
        }
    }
}

proof fn lemma_items_map_index(s: Seq<FsItem>, i: int)
    requires
        items_distinct(s),
        0 <= i < s.len(),
    ensures
        items_map(s).contains_key(s[i].path@),
        items_map(s)[s[i].path@] == s[i].entry@,
    decreases s.len(),
{
    if i == s.len() - 1 {
    } else {
        assert(items_distinct(s.drop_last()));
        assert(s.drop_last()[i] == s[i]);
        lemma_items_map_index(s.drop_last(), i);
        assert(s[i].path@ != s.last().path@);
    }
}

proof fn lemma_items_map_dom_len(s: Seq<FsItem>)
    requires
        items_distinct(s),
    ensures
        items_map(s).dom().finite(),
        items_map(s).dom().len() == s.len(),
    decreases s.len(),
{
    if s.len() > 0 {
        assert(items_distinct(s.drop_last()));
        lemma_items_map_dom_len(s.drop_last());
        lemma_items_map_contains(s.drop_last(), s.last().path@);
        assert(!items_map(s.drop_last()).contains_key(s.last().path@));
        assert(items_map(s).dom() =~= items_map(s.drop_last()).dom().insert(s.last().path@));
    }
}

proof fn lemma_items_map_update(s: Seq<FsItem>, i: int, item: FsItem)
    requires
        items_distinct(s),
        0 <= i < s.len(),
        item.path@ == s[i].path@,
    ensures
        items_map(s.update(i, item)) == items_map(s).insert(item.path@, item.entry@),
    decreases s.len(),
{
    let t = s.update(i, item);
    if i == s.len() - 1 {
        assert(t.drop_last() =~= s.drop_last());
        assert(t.last() == item);
    } else {
        assert(items_distinct(s.drop_last()));
        assert(t.drop_last() =~= s.drop_last().update(i, item));
        lemma_items_map_update(s.drop_last(), i, item);
        assert(t.last() == s.last());
        assert(s[i].path@ != s.last().path@);
        assert(items_map(t) =~= items_map(s).insert(item.path@, item.entry@));
    }
}

impl View for Fs {
    type V = Map<Seq<char>, FsNode>;

    closed spec fn view(&self) -> Map<Seq<char>, FsNode> {
        items_map(self.items@)
    }
}

impl Fs {
    #[verifier::type_invariant]
    spec fn wf(self) -> bool {
        items_distinct(self.items@)
    }

    /// An empty filesystem: no entries at all.
    pub fn new() -> (r: Fs)
        ensures
            r@ == Map::<Seq<char>, FsNode>::empty(),
    {
        Fs { items: Vec::new() }
    }

    /// Finds the index of the entry at `path`, if one exists.
    fn find(&self, path: &String) -> (r: Option<usize>)
        ensures
            match r {
                Some(i) => {
                    &&& i < self.items@.len()
                    &&& self.items@[i as int].path@ == path@
                    &&& self@.contains_key(path@)
                    &&& self@[path@] == self.items@[i as int].entry@
                },
                None => !self@.contains_key(path@),
            },
    {
        proof {
            use_type_invariant(self);
        }
        let n = self.items.len();
        let mut i: usize = 0;
        while i < n
            invariant
                n == self.items@.len(),
                i <= n,
                items_distinct(self.items@),
                forall|j: int| 0 <= j < i ==> self.items@[j].path@ != path@,
            decreases n - i,
        {
            if self.items[i].path == *path {
                proof {
                    lemma_items_map_index(self.items@, i as int);
                }
                return Some(i);
            }
            i += 1;
        }
        proof {
            lemma_items_map_contains(self.items@, path@);
        }
        None
    }

    /// The entry at `path`, if any.
    pub fn lookup(&self, path: &str) -> (r: Option<&FsEntry>)
        ensures
            match r {
                Some(e) => self@.contains_key(path@) && e@ == self@[path@],
                None => !self@.contains_key(path@),
            },
    {
        let owned = path.to_owned();
        match self.find(&owned) {
            Some(i) => Some(&self.items[i].entry),
            None => None,
        }
    }

    /// How many entries the filesystem holds.
    pub fn entry_count(&self) -> (r: usize)
        ensures
            r == self@.dom().len(),
    {
        proof {
            use_type_invariant(self);
            lemma_items_map_dom_len(self.items@);
        }
        self.items.len()
    }

    /// Sets the entry at `path`, inserting or replacing, with no checks.
    fn put(&mut self, path: String, entry: FsEntry)
        ensures
            final(self)@ == old(self)@.insert(path@, entry@),
    {
        proof {
            use_type_invariant(&*self);
        }
        let idx = self.find(&path);
        let mut v: Vec<FsItem> = Vec::new();
        std::mem::swap(&mut v, &mut self.items);
        let ghost s = v@;
        let item = FsItem { path, entry };
        let ghost gitem = item;
        match idx {
            Some(i) => {
                proof {
                    lemma_items_map_update(s, i as int, gitem);
                    assert(items_distinct(s.update(i as int, gitem)));
                }
                v.set(i, item);
            },
            None => {
                proof {
                    lemma_items_map_contains(s, gitem.path@);
                    assert(forall|j: int| 0 <= j < s.len() ==> s[j].path@ != gitem.path@);
                    assert(s.push(gitem).drop_last() =~= s);
                    assert(items_distinct(s.push(gitem)));
                }
                v.push(item);
            },
        }
        self.items = v;
    }

    /// Writes a file at `path`, creating it or replacing its content. Fails
    /// with `ConflictingPathType`, leaving the filesystem unchanged, exactly
    /// when a directory already sits at that path.
    pub fn write_file(&mut self, path: &str, data: Vec<u8>) -> (r: Result<(), Error>)
        ensures
            match r {
                Ok(_) => {
                    &&& final(self)@ == old(self)@.insert(path@, FsNode::File(data@))
                    &&& !(old(self)@.contains_key(path@) && old(self)@[path@] is Dir)
                },
                Err(e) => {
                    &&& final(self)@ == old(self)@
                    &&& e matches Error::ConflictingPathType(_)
                    &&& old(self)@.contains_key(path@)
                    &&& old(self)@[path@] is Dir
                },
            },
    {
        let owned = path.to_owned();
        let is_dir = match self.lookup(path) {
            Some(FsEntry::Dir) => true,
            _ => false,
        };
        if is_dir {
            return Err(
                Error::ConflictingPathType(
                    join_msg("a directory sits at the file path ", path),
                ),
            );
        }
        self.put(owned, FsEntry::File(data));
        Ok(())
    }

    /// The bytes of the file at `path`. Fails with `FileError` exactly when
    /// no file sits at that path (the path is absent, or names a directory).
    pub fn read_file(&self, path: &str) -> (r: Result<Vec<u8>, Error>)
        ensures
            r is Ok <==> self@.contains_key(path@) && self@[path@] is File,
            r matches Ok(d) ==> self@[path@] == FsNode::File(d@),
            r matches Err(e) ==> e matches Error::FileError(_),
    {
        match self.lookup(path) {
            Some(FsEntry::File(d)) => Ok(slice_to_vec(d.as_slice())),
            Some(FsEntry::Dir) => Err(
                Error::FileError(join_msg("the path names a directory, not a file: ", path)),
            ),
            None => Err(Error::FileError(join_msg("no file at path ", path))),
        }
    }
}

// ---------------------------------------------------------------------------
// Directory-chain creation.
// ---------------------------------------------------------------------------

/// `i` marks the end of one directory prefix of the absolute path `p`.
pub open spec fn is_dir_boundary(p: Seq<char>, i: int) -> bool {
    1 < i <= p.len() && (i == p.len() || p[i] == '/')
}

/// Every directory prefix of `p`: one path for each component.
pub open spec fn dir_prefixes(p: Seq<char>) -> Set<Seq<char>> {
    Set::new(|q: Seq<char>| exists|i: int| #[trigger] is_dir_boundary(p, i) && q == p.take(i))
}

/// No file stands in the way of creating the directory chain of `p` in `m`.
pub open spec fn no_file_conflict(m: Map<Seq<char>, FsNode>, p: Seq<char>) -> bool {
    forall|i: int|
        #[trigger] is_dir_boundary(p, i) ==> !(m.contains_key(p.take(i)) && m[p.take(i)] is File)
}

/// The filesystem after creating every directory of the chain of `p`:
/// existing entries keep their value, and each missing prefix becomes a
/// directory.
pub open spec fn mkdir_all_map(m: Map<Seq<char>, FsNode>, p: Seq<char>) -> Map<Seq<char>, FsNode> {
    Map::new(
        |k: Seq<char>| m.contains_key(k) || dir_prefixes(p).contains(k),
        |k: Seq<char>| if m.contains_key(k) { m[k] } else { FsNode::Dir },
    )
}

/// The map holds a directory at `p`.
pub open spec fn dir_exists(m: Map<Seq<char>, FsNode>, p: Seq<char>) -> bool {
    m.contains_key(p) && m[p] is Dir
}

/// Law: directory-chain creation is idempotent. Once the chain of `p` has
/// been created, creating it again meets no conflict and changes nothing,
/// and the directory at `p` itself is present.
pub proof fn lemma_mkdir_all_idempotent(m: Map<Seq<char>, FsNode>, p: Seq<char>)
    requires
        no_file_conflict(m, p),
        2 <= p.len(),
    ensures
        no_file_conflict(mkdir_all_map(m, p), p),
        mkdir_all_map(mkdir_all_map(m, p), p) == mkdir_all_map(m, p),
        dir_exists(mkdir_all_map(m, p), p),
{
    let m1 = mkdir_all_map(m, p);
    assert forall|i: int| #[trigger] is_dir_boundary(p, i) implies !(m1.contains_key(p.take(i))
        && m1[p.take(i)] is File) by {
        assert(dir_prefixes(p).contains(p.take(i)));
    }
    assert(mkdir_all_map(m1, p) =~= m1);
    assert(is_dir_boundary(p, p.len() as int));
    assert(dir_prefixes(p).contains(p.take(p.len() as int)));
    assert(p.take(p.len() as int) =~= p);
}

/// The same, restricted to the prefixes that end before position `b`.
spec fn mkdir_upto(m: Map<Seq<char>, FsNode>, p: Seq<char>, b: int) -> Map<Seq<char>, FsNode> {
    Map::new(
        |k: Seq<char>| m.contains_key(k) || exists|i: int|
            #[trigger] is_dir_boundary(p, i) && i < b && k == p.take(i),
        |k: Seq<char>| if m.contains_key(k) { m[k] } else { FsNode::Dir },
    )
}

/// A position that ends no component contributes no prefix: stepping the
/// bound past it changes nothing.
proof fn lemma_mkdir_upto_skip(m: Map<Seq<char>, FsNode>, p: Seq<char>, b: int)
    requires
        !is_dir_boundary(p, b),
    ensures
        mkdir_upto(m, p, b + 1) == mkdir_upto(m, p, b),
{
    assert(mkdir_upto(m, p, b + 1) =~= mkdir_upto(m, p, b));
}

impl Fs {
    /// Makes the directory prefix of `path` that ends at `i` present,
    /// leaving everything else alone.
    fn ensure_dir_at(
        &mut self,
        path: &str,
        i: usize,
        Ghost(m0): Ghost<Map<Seq<char>, FsNode>>,
    )
        requires
            is_dir_boundary(path@, i as int),
            old(self)@ == mkdir_upto(m0, path@, i as int),
        ensures
            final(self)@ == mkdir_upto(m0, path@, i as int + 1),
    {
        let prefix = path.substring_char(0, i);
        proof {
            assert(prefix@ =~= path@.take(i as int));
        }
        let missing = match self.lookup(prefix) {
            None => true,
            Some(_) => false,
        };
        if missing {
            let owned = prefix.to_owned();
            self.put(owned, FsEntry::Dir);
            proof {
                assert(!m0.contains_key(path@.take(i as int)));
                assert(self@ =~= mkdir_upto(m0, path@, i as int + 1));
            }
        } else {
            proof {
                assert(self@ =~= mkdir_upto(m0, path@, i as int + 1));
            }
        }
    }

    /// Creates the directory named by the absolute path `path`, along with
    /// every missing ancestor directory. Idempotent: directories that
    /// already exist are left alone, and files are never touched. Fails
    /// with `ConflictingPathType`, changing nothing, exactly when a file
    /// already sits at the path or at one of its ancestors.
    pub fn create_dir_all(&mut self, path: &str) -> (r: Result<(), Error>)
        requires
            is_abs_path(path@),
        ensures
            r is Ok <==> no_file_conflict(old(self)@, path@),
            r is Ok ==> final(self)@ == mkdir_all_map(old(self)@, path@),
            r matches Err(e) ==> final(self)@ == old(self)@ && e matches Error::ConflictingPathType(
                _,
            ),
    {
        let ghost m0 = self@;
        let cs = crate::paths::str_chars(path);
        let n = cs.len();
        let mut i: usize = 2;
        while i < n
            invariant
                self@ == m0,
                cs@ == path@,
                n == cs.len(),
                is_abs_path(path@),
                2 <= i <= n,
                forall|b: int|
                    #[trigger] is_dir_boundary(path@, b) && b < i ==> !(m0.contains_key(
                        path@.take(b),
                    ) && m0[path@.take(b)] is File),
            decreases n - i,
        {
            if cs[i] == '/' {
                let prefix = path.substring_char(0, i);
                proof {
                    assert(prefix@ =~= path@.take(i as int));
                }
                match self.lookup(prefix) {
                    Some(FsEntry::File(_)) => {
                        proof {
                            assert(is_dir_boundary(path@, i as int));
                        }
                        return Err(
                            Error::ConflictingPathType(
                                join_msg("a file sits in the way of creating directory ", path),
                            ),
                        );
                    },
                    _ => {},
                }
            }
            i += 1;
        }
        proof {
            assert(path@.take(n as int) =~= path@);
        }
        match self.lookup(path) {
            Some(FsEntry::File(_)) => {
                proof {
                    assert(is_dir_boundary(path@, n as int));
                }
                return Err(
                    Error::ConflictingPathType(
                        join_msg("a file sits in the way of creating directory ", path),
                    ),
                );
            },
            _ => {},
        }
        proof {
            assert forall|b: int| #[trigger] is_dir_boundary(path@, b) implies !(m0.contains_key(
                path@.take(b),
            ) && m0[path@.take(b)] is File) by {
                if b == n {
                    assert(path@.take(b) =~= path@);
                }
            }
            assert(no_file_conflict(m0, path@));
        }
        let mut i: usize = 2;
        proof {
            assert(self@ =~= mkdir_upto(m0, path@, 2));
        }
        while i < n
            invariant
                cs@ == path@,
                n == cs.len(),
                is_abs_path(path@),
                2 <= i <= n,
                self@ == mkdir_upto(m0, path@, i as int),
            decreases n - i,
        {
            if cs[i] == '/' {
                proof {
                    assert(is_dir_boundary(path@, i as int));
                }
                self.ensure_dir_at(path, i, Ghost(m0));
            } else {
                proof {
                    lemma_mkdir_upto_skip(m0, path@, i as int);
                }
            }
            i += 1;
        }
        proof {
            assert(is_dir_boundary(path@, n as int));
        }
        self.ensure_dir_at(path, n, Ghost(m0));
        proof {
            assert(self@ =~= mkdir_all_map(m0, path@));
        }
        Ok(())
    }
}

/// Builds an error message from a fixed prefix and the offending path.
pub fn join_msg(prefix: &str, path: &str) -> (r: String)
    ensures
        r@ == prefix@ + path@,
{
    let mut s: String = prefix.to_owned();
    s.append(path);
    s
}

} // verus!
