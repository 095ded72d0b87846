use vstd::prelude::*;
use vstd::string::{StrSliceExecFns, StringExecFns};

verus! {

// ---------------------------------------------------------------------------
// The path dialect.
//
// Paths are plain strings whose components are separated by `/`. An absolute
// path starts with `/`; a relative request path must consist of plain name
// components only. The backslash and the colon are reserved everywhere, so
// that a name can never smuggle in another platform's separator or a
// drive/volume prefix; this makes validity independent of the platform.
// ---------------------------------------------------------------------------

/// A character that no path component may hold: another platform's
/// separator, or the drive-prefix marker.
pub open spec fn is_reserved_char(c: char) -> bool {
    c == '\\' || c == ':'
}

/// A component begins at index `i` of `p`.
pub open spec fn starts_component(p: Seq<char>, i: int) -> bool {
    i == 0 || p[i - 1] == '/'
}

/// A `.` component (a reference to the current directory) begins at `i`.
pub open spec fn dot_at(p: Seq<char>, i: int) -> bool {
    &&& starts_component(p, i)
    &&& p[i] == '.'
    &&& (i + 1 == p.len() || p[i + 1] == '/')
}

/// A `..` component (a reference to the parent directory) begins at `i`.
pub open spec fn dot_dot_at(p: Seq<char>, i: int) -> bool {
    &&& starts_component(p, i)
    &&& i + 1 < p.len()
    &&& p[i] == '.'
    &&& p[i + 1] == '.'
    &&& (i + 2 == p.len() || p[i + 2] == '/')
}

/// The safety gate's notion of a well-formed relative request path: it is
/// non-empty, not absolute, and every component is a plain, non-empty name —
/// never `.`, never `..`, never a name holding a reserved character.
pub open spec fn is_plain_rel_path(p: Seq<char>) -> bool {
    &&& 0 < p.len()
    &&& p[0] != '/'
    &&& p[p.len() - 1] != '/'
    &&& forall|i: int| 0 <= i < p.len() ==> !is_reserved_char(#[trigger] p[i])
    &&& forall|i: int| 0 < i < p.len() && p[i - 1] == '/' ==> #[trigger] p[i] != '/'
    &&& forall|i: int| 0 <= i < p.len() ==> !#[trigger] dot_at(p, i)
    &&& forall|i: int| 0 <= i < p.len() ==> !#[trigger] dot_dot_at(p, i)
}

/// A well-formed absolute path: it starts with the root marker, names at
/// least one component, and has no empty component.
pub open spec fn is_abs_path(p: Seq<char>) -> bool {
    &&& 2 <= p.len()
    &&& p[0] == '/'
    &&& p[p.len() - 1] != '/'
    &&& forall|i: int| 0 < i < p.len() && p[i - 1] == '/' ==> #[trigger] p[i] != '/'
}

/// A single plain name, fit to stand as one component of a path.
pub open spec fn is_path_segment(s: Seq<char>) -> bool {
    &&& 0 < s.len()
    &&& forall|i: int| 0 <= i < s.len() ==> #[trigger] s[i] != '/'
}

/// The join of a directory path and one further step.
pub open spec fn join_seq(a: Seq<char>, b: Seq<char>) -> Seq<char> {
    a + seq!['/'] + b
}

/// Joining a plain segment under an absolute path yields an absolute path.
pub proof fn lemma_join_abs(a: Seq<char>, b: Seq<char>)
    requires
        is_abs_path(a),
        is_path_segment(b),
    ensures
        is_abs_path(join_seq(a, b)),
{
    let j = join_seq(a, b);
    assert(j.len() == a.len() + 1 + b.len());
    assert(j[0] == a[0]);
    assert(j[j.len() - 1] == b[b.len() - 1]);
    assert forall|i: int| 0 < i < j.len() && j[i - 1] == '/' implies #[trigger] j[i] != '/' by {
        if i < a.len() {
            assert(j[i] == a[i] && j[i - 1] == a[i - 1]);
        } else if i == a.len() {
            assert(j[i - 1] == a[a.len() - 1]);
            assert(a[a.len() - 1] != '/');
        } else {
            assert(j[i] == b[i - a.len() - 1]);
        }
    }
}

/// Law: a plain relative request path resolves to a path strictly inside
/// the directory it is joined under. The directory is a proper prefix of
/// the result, the next character is the separator, and what follows is
/// exactly the request — whose components are all plain names, so no step
/// of it refers back out of the directory.
pub proof fn lemma_resolved_path_stays_inside(dir: Seq<char>, p: Seq<char>)
    requires
        is_plain_rel_path(p),
    ensures
        join_seq(dir, p).len() > dir.len() + 1,
        join_seq(dir, p).take(dir.len() as int) == dir,
        join_seq(dir, p)[dir.len() as int] == '/',
        join_seq(dir, p).skip(dir.len() as int + 1) == p,
{
    assert(join_seq(dir, p).take(dir.len() as int) =~= dir);
    assert(join_seq(dir, p).skip(dir.len() as int + 1) =~= p);
}

/// Law: a request path that starts with the root marker, or that holds a
/// `..` or `.` component or a reserved character anywhere, is not plain,
/// so path resolution rejects it, by inspecting the string alone and
/// before any filesystem access could happen.
pub proof fn lemma_traversal_rejected(p: Seq<char>, i: int)
    requires
        0 <= i < p.len(),
        ({
            ||| p[0] == '/'
            ||| dot_at(p, i)
            ||| dot_dot_at(p, i)
            ||| is_reserved_char(p[i])
        }),
    ensures
        !is_plain_rel_path(p),
{
}

/// Copies the characters of a string into a vector, for random access.
pub fn str_chars(s: &str) -> (r: Vec<char>)
    ensures
        r@ == s@,
{
    let n = s.unicode_len();
    let mut r: Vec<char> = Vec::new();
    let mut i: usize = 0;
    while i < n
        invariant
            n == s@.len(),
            i <= n,
            r@ == s@.take(i as int),
        decreases n - i,
    {
        r.push(s.get_char(i));
        proof {
            assert(r@ =~= s@.take(i + 1));
        }
        i += 1;
    }
    proof {
        assert(r@ =~= s@);
    }
    r
}

/// Joins one further step under a directory path.
pub fn join_path(a: &str, b: &str) -> (r: String)
    ensures
        r@ == join_seq(a@, b@),
{
    let mut s: String = a.to_owned();
    s.append("/");
    s.append(b);
    proof {
        reveal_strlit("/");
        assert(("/")@ =~= seq!['/']);
        assert(s@ =~= join_seq(a@, b@));
    }
    s
}

/// Decides whether `p` is a well-formed relative request path made of plain
/// name components only. This check is pure: it touches no filesystem state.
pub fn check_plain_rel_path(p: &str) -> (r: bool)
    ensures
        r == is_plain_rel_path(p@),
{
    let cs = str_chars(p);
    let n = cs.len();
    if n == 0 {
        return false;
    }
    if cs[0] == '/' {
        return false;
    }
    if cs[n - 1] == '/' {
        return false;
    }
    let mut i: usize = 0;
    while i < n
        invariant
            cs@ == p@,
            n == cs.len(),
            0 < n,
            p@[0] != '/',
            p@[n - 1] != '/',
            i <= n,
            forall|j: int| 0 <= j < i ==> !is_reserved_char(#[trigger] p@[j]),
            forall|j: int| 0 < j < i && p@[j - 1] == '/' ==> #[trigger] p@[j] != '/',
            forall|j: int| 0 <= j < i ==> !#[trigger] dot_at(p@, j),
            forall|j: int| 0 <= j < i ==> !#[trigger] dot_dot_at(p@, j),
        decreases n - i,
    {
        let c = cs[i];
        if c == '\\' || c == ':' {
            return false;
        }
        if i > 0 && cs[i - 1] == '/' && c == '/' {
            return false;
        }
        if (i == 0 || cs[i - 1] == '/') && c == '.' {
            if i + 1 == n || cs[i + 1] == '/' {
                proof {
                    assert(dot_at(p@, i as int));
                }
                return false;
            }
            if cs[i + 1] == '.' && (i + 2 == n || cs[i + 2] == '/') {
                proof {
                    assert(dot_dot_at(p@, i as int));
                }
                return false;
            }
        }
        proof {
            assert(!dot_at(p@, i as int));
            assert(!dot_dot_at(p@, i as int));
        }
        i += 1;
    }
    true
}

// ---------------------------------------------------------------------------
// File extensions.
// ---------------------------------------------------------------------------

/// The characters after the last occurrence of `c` in `p`, or all of `p`
/// when `c` does not occur.
pub open spec fn after_last(p: Seq<char>, c: char) -> Seq<char>
    decreases p.len(),
{
    if p.len() == 0 {
        p
    } else if p.last() == c {
        Seq::empty()
    } else {
        after_last(p.drop_last(), c).push(p.last())
    }
}

/// The final name component of a path: what follows the last separator.
pub open spec fn file_name_of(p: Seq<char>) -> Seq<char> {
    after_last(p, '/')
}

/// Whether the name holds a dot anywhere past its first character — the
/// condition for it to have an extension at all (a single leading dot
/// marks a hidden file, not an extension).
pub open spec fn has_extension_dot(name: Seq<char>) -> bool {
    exists|i: int| 0 < i < name.len() && name[i] == '.'
}

/// The extension of a request path: the suffix after the last dot of its
/// final name component. Only this final suffix is authoritative — the
/// name `a.tar.json` has extension `json` — and a name with no dot past
/// its first character has no extension at all.
pub open spec fn extension_of(p: Seq<char>) -> Option<Seq<char>> {
    let name = file_name_of(p);
    if has_extension_dot(name) {
        Some(after_last(name, '.'))
    } else {
        None
    }
}

proof fn lemma_after_last_found(p: Seq<char>, c: char, i: int)
    requires
        0 <= i < p.len(),
        p[i] == c,
        forall|j: int| i < j < p.len() ==> #[trigger] p[j] != c,
    ensures
        after_last(p, c) == p.subrange(i + 1, p.len() as int),
    decreases p.len(),
{
    if i == p.len() - 1 {
        assert(p.last() == c);
        assert(after_last(p, c) =~= p.subrange(i + 1, p.len() as int));
    } else {
        assert(p.last() != c);
        let q = p.drop_last();
        assert(q[i] == c);
        assert(forall|j: int| i < j < q.len() ==> #[trigger] q[j] != c);
        lemma_after_last_found(q, c, i);
        assert(after_last(p, c) =~= p.subrange(i + 1, p.len() as int));
    }
}

proof fn lemma_after_last_absent(p: Seq<char>, c: char)
    requires
        forall|j: int| 0 <= j < p.len() ==> #[trigger] p[j] != c,
    ensures
        after_last(p, c) == p,
    decreases p.len(),
{
    if p.len() > 0 {
        lemma_after_last_absent(p.drop_last(), c);
        assert(after_last(p, c) =~= p);
    }
}

/// Finds the index of the last occurrence of `c` in `cs`, if any.
fn last_index_of(cs: &Vec<char>, c: char) -> (r: Option<usize>)
    ensures
        match r {
            Some(i) => {
                &&& i < cs.len()
                &&& cs@[i as int] == c
                &&& forall|j: int| i < j < cs.len() ==> #[trigger] cs@[j] != c
            },
            None => forall|j: int| 0 <= j < cs.len() ==> #[trigger] cs@[j] != c,
        },
{
    let n = cs.len();
    let mut r: Option<usize> = None;
    let mut i: usize = 0;
    while i < n
        invariant
            n == cs.len(),
            i <= n,
            match r {
                Some(k) => {
                    &&& k < i
                    &&& cs@[k as int] == c
                    &&& forall|j: int| k < j < i ==> #[trigger] cs@[j] != c
                },
                None => forall|j: int| 0 <= j < i ==> #[trigger] cs@[j] != c,
            },
        decreases n - i,
    {
        if cs[i] == c {
            r = Some(i);
        }
        i += 1;
    }
    r
}

/// Decides whether the extension of `p` is exactly `ext`. This check is
/// pure: it touches no filesystem state.
pub fn extension_matches(p: &str, ext: &str) -> (r: bool)
    ensures
        r == (extension_of(p@) == Some(ext@)),
{
    let cs = str_chars(p);
    let n = cs.len();
    let start: usize = match last_index_of(&cs, '/') {
        Some(i) => {
            proof {
                lemma_after_last_found(p@, '/', i as int);
            }
            i + 1
        },
        None => {
            proof {
                lemma_after_last_absent(p@, '/');
            }
            0
        },
    };
    let ghost name = file_name_of(p@);
    proof {
        assert(name =~= p@.subrange(start as int, n as int));
    }
    let mut dot: Option<usize> = None;
    let mut i: usize = start;
    while i < n
        invariant
            cs@ == p@,
            n == cs.len(),
            start <= i <= n,
            match dot {
                Some(k) => {
                    &&& start <= k < i
                    &&& cs@[k as int] == '.'
                    &&& forall|j: int| k < j < i ==> #[trigger] cs@[j] != '.'
                },
                None => forall|j: int| start <= j < i ==> #[trigger] cs@[j] != '.',
            },
        decreases n - i,
    {
        if cs[i] == '.' {
            dot = Some(i);
        }
        i += 1;
    }
    let d: usize = match dot {
        None => {
            proof {
                assert(forall|k: int| 0 < k < name.len() ==> name[k] == p@[start + k]);
                assert(!has_extension_dot(name));
            }
            return false;
        },
        Some(d) => d,
    };
    if d == start {
        proof {
            assert(forall|k: int| 0 < k < name.len() ==> name[k] == p@[start + k]);
            assert(!has_extension_dot(name));
        }
        return false;
    }
    proof {
        assert(name[d - start] == '.');
        assert(0 < d - start < name.len());
        assert(has_extension_dot(name));
        assert(forall|j: int| d - start < j < name.len() ==> #[trigger] name[j] != '.');
        lemma_after_last_found(name, '.', d - start);
        assert(after_last(name, '.') =~= p@.subrange(d + 1, n as int));
    }
    let et = str_chars(ext);
    let m = et.len();
    if n - (d + 1) != m {
        proof {
            assert(after_last(name, '.').len() != ext@.len());
        }
        return false;
    }
    let mut i: usize = 0;
    while i < m
        invariant
            cs@ == p@,
            et@ == ext@,
            n == cs.len(),
            m == et.len(),
            d + 1 + m == n,
            d < n,
            i <= m,
            extension_of(p@) matches Some(e) && e == p@.subrange(d + 1, n as int),
            forall|j: int| 0 <= j < i ==> p@[d + 1 + j] == ext@[j],
        decreases m - i,
    {
        if cs[d + 1 + i] != et[i] {
            proof {
                assert(p@.subrange(d + 1, n as int)[i as int] != ext@[i as int]);
            }
            return false;
        }
        i += 1;
    }
    proof {
        assert(p@.subrange(d + 1, n as int) =~= ext@);
    }
    true
}

/// Decides whether `p` is a well-formed absolute path. This check is pure:
/// it touches no filesystem state.
pub fn check_abs_path(p: &str) -> (r: bool)
    ensures
        r == is_abs_path(p@),
{
    let cs = str_chars(p);
    let n = cs.len();
    if n < 2 {
        return false;
    }
    if cs[0] != '/' {
        return false;
    }
    if cs[n - 1] == '/' {
        return false;
    }
    let mut i: usize = 1;
    while i < n
        invariant
            cs@ == p@,
            n == cs.len(),
            2 <= n,
            i >= 1,
            i <= n,
            forall|j: int| 0 < j < i && p@[j - 1] == '/' ==> #[trigger] p@[j] != '/',
        decreases n - i,
    {
        if cs[i - 1] == '/' && cs[i] == '/' {
            return false;
        }
        i += 1;
    }
    true
}

} // verus!
