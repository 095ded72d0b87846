use vstd::prelude::*;
use vstd::slice::slice_to_vec;
use vstd::string::StrSliceExecFns;
use vstd::utf8::{decode_utf8, encode_utf8, valid_utf8};

use crate::errors::Error;
use crate::identity::{is_canonical_uuid, DevSecretsId};
use crate::memfs::{dir_exists, join_msg, Fs, FsEntry, FsNode};
use crate::paths::{join_path, join_seq};

verus! {

// ---------------------------------------------------------------------------
// The identity store: the sidecar file beside a project's manifest.
// ---------------------------------------------------------------------------

/// The fixed name of the identity sidecar file that lives beside a
/// project's manifest.
pub open spec fn id_file_name() -> Seq<char> {
    ".devsecrets_id.txt"@
}

/// The sidecar file's name, as a string.
pub fn id_file_name_str() -> (r: &'static str)
    ensures
        r@ == id_file_name(),
{
    ".devsecrets_id.txt"
}

/// Where the sidecar file of the project at `dir` lives.
pub open spec fn sidecar_path(dir: Seq<char>) -> Seq<char> {
    join_seq(dir, id_file_name())
}

/// What the sidecar file of the project at `dir` holds, according to the
/// filesystem `m`.
pub enum IdLookup {
    /// No sidecar file exists.
    Missing,
    /// A directory sits at the sidecar path, so it cannot be read as a file.
    Obstructed,
    /// The sidecar file exists but its content is not one canonical
    /// identity string.
    Corrupt,
    /// The sidecar file holds the canonical identity string carried here.
    Found(Seq<char>),
}

/// Reads the project identity of `dir` out of the filesystem `m`, at the
/// specification level.
pub open spec fn id_lookup(m: Map<Seq<char>, FsNode>, dir: Seq<char>) -> IdLookup {
    let p = sidecar_path(dir);
    if !m.contains_key(p) {
        IdLookup::Missing
    } else {
        match m[p] {
            FsNode::Dir => IdLookup::Obstructed,
            FsNode::File(bytes) => {
                if valid_utf8(bytes) && is_canonical_uuid(decode_utf8(bytes)) {
                    IdLookup::Found(decode_utf8(bytes))
                } else {
                    IdLookup::Corrupt
                }
            },
        }
    }
}

/// Relies on `String::from_utf8`: succeeds exactly on input that is valid
/// UTF-8, decoding it; rejects everything else.
#[verifier::external_body]
pub(crate) fn utf8_to_string(bytes: Vec<u8>) -> (r: Option<String>)
    ensures
        r is Some <==> valid_utf8(bytes@),
        r matches Some(s) ==> s@ == decode_utf8(bytes@),
{
    String::from_utf8(bytes).ok()
}

/// Reads the identity of the project at `manifest_dir`. An absent sidecar
/// file is an explicit absence, not an error; a sidecar whose content is
/// not one canonical UUID string fails with `CorruptIdentity` — it is
/// never silently regenerated. Reads only; the filesystem is untouched.
pub fn read_devsecrets_id(fs: &Fs, manifest_dir: &str) -> (r: Result<
    Option<DevSecretsId>,
    Error,
>)
    ensures
        match id_lookup(fs@, manifest_dir@) {
            IdLookup::Missing => r matches Ok(None),
            IdLookup::Obstructed => r matches Err(Error::FileError(_)),
            IdLookup::Corrupt => r matches Err(Error::CorruptIdentity(_)),
            IdLookup::Found(s) => r matches Ok(Some(id)) && id@ == s,
        },
{
    let p = join_path(manifest_dir, id_file_name_str());
    match fs.lookup(p.as_str()) {
        None => Ok(None),
        Some(FsEntry::Dir) => Err(
            Error::FileError(join_msg("a directory sits at the sidecar path ", p.as_str())),
        ),
        Some(FsEntry::File(bytes)) => {
            let data = slice_to_vec(bytes.as_slice());
            match utf8_to_string(data) {
                None => Err(
                    Error::CorruptIdentity(
                        join_msg("the sidecar file does not hold UTF-8 text: ", p.as_str()),
                    ),
                ),
                Some(text) => match DevSecretsId::from_canonical(text.as_str()) {
                    None => Err(
                        Error::CorruptIdentity(
                            join_msg(
                                "the sidecar file does not hold one canonical UUID string: ",
                                p.as_str(),
                            ),
                        ),
                    ),
                    Some(id) => Ok(Some(id)),
                },
            }
        },
    }
}

/// Returns the identity of the project at `manifest_dir`, creating it on
/// first use: when the sidecar file is absent, a fresh identity is
/// generated and written — the one filesystem write this function ever
/// performs. An existing valid sidecar is returned as it stands and never
/// re-written; a corrupt one fails with `CorruptIdentity` and is never
/// overwritten.
pub fn ensure_devsecrets_id(fs: &mut Fs, manifest_dir: &str) -> (r: Result<DevSecretsId, Error>)
    ensures
        ({
            let lk = id_lookup(old(fs)@, manifest_dir@);
            &&& (lk matches IdLookup::Found(s) ==> (r matches Ok(id) && id@ == s && final(fs)@
                == old(fs)@))
            &&& (lk is Obstructed ==> (r matches Err(Error::FileError(_)) && final(fs)@ == old(
                fs,
            )@))
            &&& (lk is Corrupt ==> (r matches Err(Error::CorruptIdentity(_)) && final(fs)@ == old(
                fs,
            )@))
            &&& (lk is Missing && dir_exists(old(fs)@, manifest_dir@) ==> (r matches Ok(id)
                && is_canonical_uuid(id@) && final(fs)@ == old(fs)@.insert(
                sidecar_path(manifest_dir@),
                FsNode::File(encode_utf8(id@)),
            )))
            &&& (lk is Missing && !dir_exists(old(fs)@, manifest_dir@) ==> (r matches Err(
                Error::FileError(_),
            ) && final(fs)@ == old(fs)@))
        }),
{
    match read_devsecrets_id(fs, manifest_dir) {
        Err(e) => Err(e),
        Ok(Some(id)) => Ok(id),
        Ok(None) => {
            let dir_ok = match fs.lookup(manifest_dir) {
                Some(FsEntry::Dir) => true,
                _ => false,
            };
            if !dir_ok {
                return Err(
                    Error::FileError(
                        join_msg("the project directory does not exist: ", manifest_dir),
                    ),
                );
            }
            let id = DevSecretsId::new_unique();
            let p = join_path(manifest_dir, id_file_name_str());
            let bytes = id.id_str().as_bytes_vec();
            // A write can only fail on a directory at the target path, and
            // the sidecar path is known to be absent here.
            match fs.write_file(p.as_str(), bytes) {
                Ok(_) => Ok(id),
                Err(e) => {
                    proof {
                        assert(false);
                    }
                    Err(e)
                },
            }
        },
    }
}

/// Law: ensuring an identity is idempotent. Once a fresh canonical
/// identity has been written — the single write that `ensure_devsecrets_id`
/// performs, on its missing-sidecar path — the sidecar lookup finds exactly
/// that identity again; by the contract of `ensure_devsecrets_id`, a second
/// call therefore returns the same identity and changes nothing.
pub proof fn lemma_ensure_identity_idempotent(
    m: Map<Seq<char>, FsNode>,
    dir: Seq<char>,
    id: Seq<char>,
)
    requires
        is_canonical_uuid(id),
    ensures
        id_lookup(m.insert(sidecar_path(dir), FsNode::File(encode_utf8(id))), dir)
            == IdLookup::Found(id),
{
    vstd::utf8::encode_utf8_valid_utf8(id);
    vstd::utf8::encode_utf8_decode_utf8(id);
}

} // verus!
