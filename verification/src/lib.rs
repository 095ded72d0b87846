//! Verified access to per-project development secrets.
//!
//! A project is keyed by a stable, canonical UUID identity persisted in a
//! sidecar file beside its manifest. All of that project's secret files
//! live in one child directory, named by the identity, under a single
//! per-user root directory. The accessor API resolves relative request
//! paths safely, validates file extensions, and deserializes content
//! through a pluggable format.
//!
//! The filesystem itself is modelled as an explicit in-memory value
//! ([`memfs::Fs`]) passed to every operation, so that the lifecycle and
//! access rules are stated and proved over a precise map from paths to
//! entries, and so that callers and tests can substitute any starting
//! state without touching real user configuration.

use vstd::prelude::*;

pub mod errors;
pub mod format;
pub mod identity;
pub mod memfs;
pub mod paths;
pub mod rootdir;
pub mod secrets;
pub mod store;
pub mod workspace;

pub use errors::Error;
pub use format::{Format, JsonFormat};
pub use identity::DevSecretsId;
pub use memfs::{Fs, FsEntry};
pub use rootdir::{DevSecretsDir, DevSecretsRootDir};
pub use secrets::{DevSecrets, Id, SecretReader, Source, SourceWithFormat};

use crate::identity::is_canonical_uuid;
use crate::memfs::{dir_exists, is_dir_boundary, mkdir_all_map, no_file_conflict, FsNode};
use crate::paths::{is_abs_path, join_seq};
use crate::rootdir::config_dir_name;
use crate::store::{id_lookup, sidecar_path, IdLookup};

verus! {

// ---------------------------------------------------------------------------
// The whole lifecycle, end to end: what the command surface drives.
// ---------------------------------------------------------------------------

/// All that initialization needs of a starting state to be owed success:
/// the configuration root exists as a directory under an absolute path,
/// and the sidecar is readable — or absent with the project directory
/// present, in which case the directory chains must stay creatable
/// whatever fresh identity gets written.
pub open spec fn init_succeeds(
    m: Map<Seq<char>, FsNode>,
    root: Seq<char>,
    mdir: Seq<char>,
) -> bool {
    let cd = join_seq(root, config_dir_name());
    &&& is_abs_path(root)
    &&& dir_exists(m, root)
    &&& match id_lookup(m, mdir) {
        IdLookup::Found(s) => {
            &&& no_file_conflict(m, cd)
            &&& no_file_conflict(m, join_seq(cd, s))
        },
        IdLookup::Missing => {
            &&& dir_exists(m, mdir)
            &&& forall|s: Seq<char>| is_canonical_uuid(s) ==> ({
                let m1 = m.insert(sidecar_path(mdir), FsNode::File(vstd::utf8::encode_utf8(s)));
                &&& dir_exists(m1, root)
                &&& no_file_conflict(m1, cd)
                &&& no_file_conflict(m1, join_seq(cd, s))
            })
        },
        _ => false,
    }
}

/// Once a directory chain could be created, it still can be after another
/// chain has been created: chain creation adds directories only and never
/// touches a file.
proof fn lemma_mkdir_preserves_no_conflict(
    m: Map<Seq<char>, FsNode>,
    created: Seq<char>,
    p: Seq<char>,
)
    requires
        no_file_conflict(m, p),
    ensures
        no_file_conflict(mkdir_all_map(m, created), p),
{
    let m2 = mkdir_all_map(m, created);
    assert forall|i: int| #[trigger] is_dir_boundary(p, i) implies !(m2.contains_key(p.take(i))
        && m2[p.take(i)] is File) by {
        if m2.contains_key(p.take(i)) && m.contains_key(p.take(i)) {
            assert(m2[p.take(i)] == m[p.take(i)]);
        }
    }
}

/// Initializes the devsecrets machinery for the project at `manifest_dir`:
/// ensures the identity sidecar exists (writing a fresh identity once, on
/// first use), ensures the root directory under `config_root` and the
/// project's child directory, and returns the child directory's path. A
/// corrupt sidecar stops everything before any directory is touched.
/// Idempotent: on a state it has already set up, it returns the same path
/// and changes nothing.
pub fn init_devsecrets_dir_from_manifest_dir(
    fs: &mut Fs,
    config_root: &str,
    manifest_dir: &str,
) -> (r: Result<String, Error>)
    ensures
        ({
            let lk = id_lookup(old(fs)@, manifest_dir@);
            let cd = join_seq(config_root@, config_dir_name());
            &&& (lk is Obstructed ==> (r matches Err(Error::FileError(_)) && final(fs)@
                == old(fs)@))
            &&& (lk is Corrupt ==> (r matches Err(Error::CorruptIdentity(_)) && final(fs)@
                == old(fs)@))
            &&& (r matches Ok(p) ==> ({
                &&& dir_exists(final(fs)@, p@)
                &&& exists|s: Seq<char>| {
                    &&& is_canonical_uuid(s)
                    &&& p@ == join_seq(cd, s)
                    &&& #[trigger] id_lookup(final(fs)@, manifest_dir@) == IdLookup::Found(s)
                }
                &&& (lk matches IdLookup::Found(s0) ==> p@ == join_seq(cd, s0))
            }))
            &&& (init_succeeds(old(fs)@, config_root@, manifest_dir@) ==> r is Ok)
        }),
{
    let ghost m0 = fs@;
    let id = match store::ensure_devsecrets_id(fs, manifest_dir) {
        Err(e) => {
            return Err(e);
        },
        Ok(id) => id,
    };
    let ghost m1 = fs@;
    proof {
        if id_lookup(m0, manifest_dir@) is Missing {
            store::lemma_ensure_identity_idempotent(m0, manifest_dir@, id@);
        }
        assert(id_lookup(m1, manifest_dir@) == IdLookup::Found(id@));
    }
    let root = match rootdir::DevSecretsRootDir::ensure_with_config_root(fs, config_root) {
        Err(e) => {
            proof {
                if init_succeeds(m0, config_root@, manifest_dir@) {
                    assert(false);
                }
            }
            return Err(e);
        },
        Ok(root) => root,
    };
    let ghost m2 = fs@;
    let ghost cd = join_seq(config_root@, config_dir_name());
    let child = match root.ensure_child(fs, &id) {
        Err(e) => {
            proof {
                if init_succeeds(m0, config_root@, manifest_dir@) {
                    lemma_mkdir_preserves_no_conflict(m1, cd, join_seq(cd, id@));
                    assert(false);
                }
            }
            return Err(e);
        },
        Ok(child) => child,
    };
    proof {
        let child_path = join_seq(cd, id@);
        assert(fs@ == mkdir_all_map(m2, child_path));
        memfs::lemma_mkdir_all_idempotent(m2, child_path);
        assert(dir_exists(fs@, child_path));
        let sp = sidecar_path(manifest_dir@);
        assert(m1.contains_key(sp));
        assert(m2.contains_key(sp) && m2[sp] == m1[sp]);
        assert(fs@.contains_key(sp) && fs@[sp] == m1[sp]);
        assert(id_lookup(fs@, manifest_dir@) == IdLookup::Found(id@));
    }
    Ok(child.path().to_owned())
}

/// Looks up, without creating anything, the child directory of the
/// project at `manifest_dir`. A project with no readable identity fails;
/// a root or child directory that does not exist yet is the explicit
/// "not yet initialized" outcome, distinct from every genuine error.
pub fn get_devsecrets_dir_from_manifest_dir(
    fs: &Fs,
    config_root: &str,
    manifest_dir: &str,
) -> (r: Result<Option<String>, Error>)
    ensures
        ({
            let lk = id_lookup(fs@, manifest_dir@);
            let cd = join_seq(config_root@, config_dir_name());
            &&& (lk is Missing ==> (r matches Err(Error::FileError(_))))
            &&& (lk is Obstructed ==> (r matches Err(Error::FileError(_))))
            &&& (lk is Corrupt ==> (r matches Err(Error::CorruptIdentity(_))))
            &&& (lk matches IdLookup::Found(s) ==> ({
                let child = join_seq(cd, s);
                &&& (!is_abs_path(config_root@) ==> (r matches Err(Error::FileError(_))))
                &&& (is_abs_path(config_root@) ==> ({
                    &&& (!fs@.contains_key(cd) ==> (r matches Ok(None)))
                    &&& (fs@.contains_key(cd) && !(fs@[cd] is Dir) ==> (r matches Err(
                        Error::ConflictingPathType(_),
                    )))
                    &&& (dir_exists(fs@, cd) && !fs@.contains_key(child) ==> (r matches Ok(None)))
                    &&& (dir_exists(fs@, cd) && fs@.contains_key(child) && !(fs@[child] is Dir)
                        ==> (r matches Err(Error::ConflictingPathType(_))))
                    &&& (dir_exists(fs@, cd) && dir_exists(fs@, child) ==> (r matches Ok(
                        Some(p),
                    ) && p@ == child))
                }))
            }))
        }),
{
    let id = match store::read_devsecrets_id(fs, manifest_dir) {
        Err(e) => {
            return Err(e);
        },
        Ok(None) => {
            return Err(
                Error::FileError(
                    memfs::join_msg(
                        "could not read the devsecrets id of the project at ",
                        manifest_dir,
                    ),
                ),
            );
        },
        Ok(Some(id)) => id,
    };
    let root = match rootdir::DevSecretsRootDir::with_config_root(fs, config_root) {
        Err(e) => {
            return Err(e);
        },
        Ok(None) => {
            return Ok(None);
        },
        Ok(Some(root)) => root,
    };
    match root.get_child(fs, &id) {
        Err(e) => Err(e),
        Ok(None) => Ok(None),
        Ok(Some(child)) => Ok(Some(child.path().to_owned())),
    }
}

/// The build-time identifier-embedding contract: reads the project's
/// identity sidecar and fails when it is absent or unreadable, so that a
/// build step can freeze the canonical identity string into the consuming
/// artifact as a constant. Deterministic and read-only: it creates no
/// directory and performs no write.
pub fn embedded_devsecrets_id(fs: &Fs, manifest_dir: &str) -> (r: Result<DevSecretsId, Error>)
    ensures
        match id_lookup(fs@, manifest_dir@) {
            IdLookup::Missing => r matches Err(Error::FileError(_)),
            IdLookup::Obstructed => r matches Err(Error::FileError(_)),
            IdLookup::Corrupt => r matches Err(Error::CorruptIdentity(_)),
            IdLookup::Found(s) => r matches Ok(id) && id@ == s,
        },
{
    match store::read_devsecrets_id(fs, manifest_dir) {
        Err(e) => Err(e),
        Ok(None) => Err(
            Error::FileError(
                memfs::join_msg("the devsecrets id file does not exist under ", manifest_dir),
            ),
        ),
        Ok(Some(id)) => Ok(id),
    }
}

} // verus!
