use vstd::prelude::*;

use crate::errors::Error;
use crate::identity::{is_canonical_uuid, is_hyphen_position, is_lower_hex_digit, DevSecretsId};
use crate::memfs::{
    dir_exists, join_msg, lemma_mkdir_all_idempotent, mkdir_all_map, no_file_conflict, Fs,
    FsEntry, FsNode,
};
use crate::paths::{
    check_abs_path, is_abs_path, is_path_segment, join_path, join_seq, lemma_join_abs,
};

verus! {

// ---------------------------------------------------------------------------
// The root directory and the per-project child directories.
// ---------------------------------------------------------------------------

/// The fixed name of the subdirectory reserved for this library under the
/// per-user configuration root.
pub open spec fn config_dir_name() -> Seq<char> {
    "rust-devsecrets"@
}

/// The reserved subdirectory's name, as a string.
pub fn config_dir_name_str() -> (r: &'static str)
    ensures
        r@ == config_dir_name(),
{
    "rust-devsecrets"
}

/// The reserved subdirectory name is one plain path component.
pub proof fn lemma_config_dir_name_segment()
    ensures
        is_path_segment(config_dir_name()),
{
    reveal_strlit("rust-devsecrets");
}

/// A canonical identity string is one plain path component, so it may be
/// joined under the root directory with no further escaping.
pub proof fn lemma_canonical_segment(s: Seq<char>)
    requires
        is_canonical_uuid(s),
    ensures
        is_path_segment(s),
{
    assert forall|i: int| 0 <= i < s.len() implies #[trigger] s[i] != '/' by {
        if is_hyphen_position(i) {
            assert(s[i] == '-');
        } else {
            assert(is_lower_hex_digit(s[i]));
        }
    }
}

/// The single per-user directory under which every project's secrets
/// directory lives. Its view is the absolute path of that directory.
pub struct DevSecretsRootDir {
    config_dir: String,
}

impl View for DevSecretsRootDir {
    type V = Seq<char>;

    closed spec fn view(&self) -> Seq<char> {
        self.config_dir@
    }
}

/// The secrets directory of one project. Its view is the absolute path of
/// that directory.
pub struct DevSecretsDir {
    dir: String,
}

impl View for DevSecretsDir {
    type V = Seq<char>;

    closed spec fn view(&self) -> Seq<char> {
        self.dir@
    }
}

impl DevSecretsDir {
    /// The directory's path.
    pub fn path(&self) -> (r: &str)
        ensures
            r@ == self@,
    {
        self.dir.as_str()
    }
}

impl DevSecretsRootDir {
    #[verifier::type_invariant]
    spec fn abs(self) -> bool {
        is_abs_path(self.config_dir@)
    }

    /// Opens the root directory under the per-user configuration root
    /// `root`, without creating anything. Absence is an explicit outcome,
    /// not an error; an entry that is not a directory at the reserved path
    /// is a fatal `ConflictingPathType`.
    pub fn with_config_root(fs: &Fs, root: &str) -> (r: Result<Option<DevSecretsRootDir>, Error>)
        ensures
            ({
                let cd = join_seq(root@, config_dir_name());
                &&& (!is_abs_path(root@) ==> (r matches Err(Error::FileError(_))))
                &&& (is_abs_path(root@) && !fs@.contains_key(cd) ==> (r matches Ok(None)))
                &&& (is_abs_path(root@) && dir_exists(fs@, cd) ==> (r matches Ok(Some(rd)) && rd@
                    == cd))
                &&& (is_abs_path(root@) && fs@.contains_key(cd) && !(fs@[cd] is Dir) ==> (
                r matches Err(Error::ConflictingPathType(_))))
            }),
    {
        if !check_abs_path(root) {
            return Err(
                Error::FileError(
                    join_msg("the configuration root is not an absolute path: ", root),
                ),
            );
        }
        let cd = join_path(root, config_dir_name_str());
        match fs.lookup(cd.as_str()) {
            None => Ok(None),
            Some(FsEntry::Dir) => {
                proof {
                    lemma_config_dir_name_segment();
                    lemma_join_abs(root@, config_dir_name());
                }
                Ok(Some(DevSecretsRootDir { config_dir: cd }))
            },
            Some(FsEntry::File(_)) => Err(
                Error::ConflictingPathType(
                    join_msg("a file sits at the reserved configuration path ", cd.as_str()),
                ),
            ),
        }
    }

    /// Ensures the root directory exists under the per-user configuration
    /// root `root`, creating it and any missing ancestors. The
    /// configuration root itself must already exist as a directory.
    pub fn ensure_with_config_root(fs: &mut Fs, root: &str) -> (r: Result<
        DevSecretsRootDir,
        Error,
    >)
        ensures
            ({
                let cd = join_seq(root@, config_dir_name());
                &&& (!is_abs_path(root@) ==> (r matches Err(Error::FileError(_)) && final(fs)@
                    == old(fs)@))
                &&& (is_abs_path(root@) && !old(fs)@.contains_key(root@) ==> (r matches Err(
                    Error::FileError(_),
                ) && final(fs)@ == old(fs)@))
                &&& (is_abs_path(root@) && old(fs)@.contains_key(root@) && !(old(fs)@[root@]
                    is Dir) ==> (r matches Err(Error::ConflictingPathType(_))
                    && final(fs)@ == old(fs)@))
                &&& (is_abs_path(root@) && dir_exists(old(fs)@, root@) ==> ({
                    &&& (r is Ok <==> no_file_conflict(old(fs)@, cd))
                    &&& (r matches Ok(rd) ==> (rd@ == cd && final(fs)@ == mkdir_all_map(
                        old(fs)@,
                        cd,
                    )))
                    &&& (r matches Err(e) ==> (e matches Error::ConflictingPathType(_)
                        && final(fs)@ == old(fs)@))
                }))
            }),
    {
        if !check_abs_path(root) {
            return Err(
                Error::FileError(
                    join_msg("the configuration root is not an absolute path: ", root),
                ),
            );
        }
        match fs.lookup(root) {
            None => {
                return Err(
                    Error::FileError(join_msg("the configuration root does not exist: ", root)),
                );
            },
            Some(FsEntry::File(_)) => {
                return Err(
                    Error::ConflictingPathType(
                        join_msg("the configuration root is not a directory: ", root),
                    ),
                );
            },
            Some(FsEntry::Dir) => {},
        }
        let cd = join_path(root, config_dir_name_str());
        proof {
            lemma_config_dir_name_segment();
            lemma_join_abs(root@, config_dir_name());
        }
        match fs.create_dir_all(cd.as_str()) {
            Ok(_) => Ok(DevSecretsRootDir { config_dir: cd }),
            Err(e) => Err(e),
        }
    }

    /// Looks up the child directory keyed by `id`, creating nothing.
    /// Absence is an explicit outcome; an entry that is not a directory at
    /// the child path is a fatal `ConflictingPathType`.
    pub fn get_child(&self, fs: &Fs, id: &DevSecretsId) -> (r: Result<Option<DevSecretsDir>, Error>)
        ensures
            ({
                let child = join_seq(self@, id@);
                &&& (!fs@.contains_key(child) ==> (r matches Ok(None)))
                &&& (dir_exists(fs@, child) ==> (r matches Ok(Some(d)) && d@ == child))
                &&& (fs@.contains_key(child) && !(fs@[child] is Dir) ==> (r matches Err(
                    Error::ConflictingPathType(_),
                )))
            }),
    {
        let child = join_path(self.config_dir.as_str(), id.id_str());
        match fs.lookup(child.as_str()) {
            None => Ok(None),
            Some(FsEntry::Dir) => Ok(Some(DevSecretsDir { dir: child })),
            Some(FsEntry::File(_)) => Err(
                Error::ConflictingPathType(
                    join_msg("a file sits at the child directory path ", child.as_str()),
                ),
            ),
        }
    }

    /// Ensures the child directory keyed by `id` exists, creating it and
    /// any missing ancestors. Idempotent: repeating the call with the same
    /// identity succeeds and changes nothing further.
    pub fn ensure_child(&self, fs: &mut Fs, id: &DevSecretsId) -> (r: Result<DevSecretsDir, Error>)
        ensures
            ({
                let child = join_seq(self@, id@);
                &&& (r is Ok <==> no_file_conflict(old(fs)@, child))
                &&& (r matches Ok(d) ==> (d@ == child && final(fs)@ == mkdir_all_map(
                    old(fs)@,
                    child,
                )))
                &&& (r matches Err(e) ==> ((e matches Error::ConflictingPathType(_)) && final(fs)@
                    == old(fs)@))
            }),
    {
        proof {
            use_type_invariant(self);
        }
        let id_string = id.id_str();
        let child = join_path(self.config_dir.as_str(), id_string);
        proof {
            lemma_canonical_segment(id@);
            lemma_join_abs(self@, id@);
        }
        match fs.create_dir_all(child.as_str()) {
            Ok(_) => Ok(DevSecretsDir { dir: child }),
            Err(e) => Err(e),
        }
    }
}

/// Law: ensuring a child directory is idempotent. After one successful
/// `ensure_child`, the filesystem meets the success condition of the next
/// call with the same identity, that call changes nothing further, and the
/// directory at the joined child path is present — so both calls yield a
/// directory at the same path.
pub proof fn lemma_ensure_child_idempotent(
    m: Map<Seq<char>, FsNode>,
    root_dir: Seq<char>,
    id: Seq<char>,
)
    requires
        is_canonical_uuid(id),
        no_file_conflict(m, join_seq(root_dir, id)),
    ensures
        no_file_conflict(mkdir_all_map(m, join_seq(root_dir, id)), join_seq(root_dir, id)),
        mkdir_all_map(mkdir_all_map(m, join_seq(root_dir, id)), join_seq(root_dir, id))
            == mkdir_all_map(m, join_seq(root_dir, id)),
        dir_exists(mkdir_all_map(m, join_seq(root_dir, id)), join_seq(root_dir, id)),
{
    lemma_mkdir_all_idempotent(m, join_seq(root_dir, id));
}

} // verus!
