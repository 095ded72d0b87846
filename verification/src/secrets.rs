use vstd::prelude::*;
use vstd::slice::{slice_subrange, slice_to_vec};
use vstd::utf8::{decode_utf8, valid_utf8};

use crate::errors::Error;
use crate::format::Format;
use crate::identity::DevSecretsId;
use crate::memfs::{dir_exists, join_msg, Fs, FsNode};
use crate::paths::{
    check_plain_rel_path, extension_matches, extension_of, is_abs_path, is_plain_rel_path,
    join_path, join_seq,
};
use crate::rootdir::{config_dir_name, DevSecretsDir, DevSecretsRootDir};
use crate::store::utf8_to_string;

verus! {

// ---------------------------------------------------------------------------
// The read-only secrets accessor.
// ---------------------------------------------------------------------------

/// An opaque devsecrets identity for a project, as frozen into the
/// project's own artifact by the build-time embedding step and handed back
/// at run time.
pub struct Id(pub DevSecretsId);

/// Read-only access to the files inside one project's secrets directory.
/// It holds that directory and nothing else; every read re-resolves and
/// re-validates its target path, and no write, delete or listing operation
/// exists. Its view is the directory's path.
pub struct DevSecrets {
    dir: DevSecretsDir,
}

impl View for DevSecrets {
    type V = Seq<char>;

    closed spec fn view(&self) -> Seq<char> {
        self.dir@
    }
}

impl DevSecrets {
    /// Binds an accessor to the child directory of `id` under the root
    /// directory, creating nothing. When either the root directory or the
    /// child directory does not exist yet, the outcome is
    /// `DirectoryNotInitialized`: the expected first-run state, distinct
    /// from every genuine failure.
    pub fn from_id(fs: &Fs, config_root: &str, id: &Id) -> (r: Result<DevSecrets, Error>)
        ensures
            ({
                let cd = join_seq(config_root@, config_dir_name());
                let child = join_seq(cd, id.0@);
                &&& (!is_abs_path(config_root@) ==> (r matches Err(Error::FileError(_))))
                &&& (is_abs_path(config_root@) ==> ({
                    &&& (!fs@.contains_key(cd) ==> (r matches Err(
                        Error::DirectoryNotInitialized,
                    )))
                    &&& (fs@.contains_key(cd) && !(fs@[cd] is Dir) ==> (r matches Err(
                        Error::ConflictingPathType(_),
                    )))
                    &&& (dir_exists(fs@, cd) && !fs@.contains_key(child) ==> (r matches Err(
                        Error::DirectoryNotInitialized,
                    )))
                    &&& (dir_exists(fs@, cd) && fs@.contains_key(child) && !(fs@[child] is Dir)
                        ==> (r matches Err(Error::ConflictingPathType(_))))
                    &&& (dir_exists(fs@, cd) && dir_exists(fs@, child) ==> (r matches Ok(ds)
                        && ds@ == child))
                }))
            }),
    {
        let root = match DevSecretsRootDir::with_config_root(fs, config_root) {
            Err(e) => {
                return Err(e);
            },
            Ok(None) => {
                return Err(Error::DirectoryNotInitialized);
            },
            Ok(Some(root)) => root,
        };
        match root.get_child(fs, &id.0) {
            Err(e) => Err(e),
            Ok(None) => Err(Error::DirectoryNotInitialized),
            Ok(Some(child)) => Ok(DevSecrets { dir: child }),
        }
    }

    /// The directory this accessor reads from.
    pub fn root_dir(&self) -> (r: &str)
        ensures
            r@ == self@,
    {
        self.dir.path()
    }

    /// The path-safety gate. Rejects, before anything else may happen, any
    /// request path that is absolute or holds a component that is not a
    /// plain name — `..`, `.`, an empty component, a reserved character.
    /// On success returns the request joined under the secrets directory:
    /// a path strictly inside it. This function takes no filesystem and
    /// can touch none.
    pub fn get_relative_path(&self, relpath: &str) -> (r: Result<String, Error>)
        ensures
            r is Ok <==> is_plain_rel_path(relpath@),
            r matches Ok(p) ==> p@ == join_seq(self@, relpath@),
            r matches Err(e) ==> e matches Error::InvalidRelativePath(_),
    {
        if !check_plain_rel_path(relpath) {
            return Err(
                Error::InvalidRelativePath(join_msg("not a plain relative path: ", relpath)),
            );
        }
        Ok(join_path(self.dir.path(), relpath))
    }

    /// Resolves `relpath` and reads the file's bytes. The path gate runs
    /// first: an invalid path fails with `InvalidRelativePath` before any
    /// filesystem lookup; a resolved path at which no file sits fails with
    /// `FileError`.
    pub fn read(&self, fs: &Fs, relpath: &str) -> (r: Result<Vec<u8>, Error>)
        ensures
            !is_plain_rel_path(relpath@) ==> (r matches Err(Error::InvalidRelativePath(_))),
            is_plain_rel_path(relpath@) ==> ({
                let full = join_seq(self@, relpath@);
                &&& (r is Ok <==> fs@.contains_key(full) && fs@[full] is File)
                &&& (r matches Ok(d) ==> fs@[full] == FsNode::File(d@))
                &&& (!(fs@.contains_key(full) && fs@[full] is File) ==> (r matches Err(
                    Error::FileError(_),
                )))
            }),
    {
        match self.get_relative_path(relpath) {
            Err(e) => Err(e),
            Ok(full) => fs.read_file(full.as_str()),
        }
    }

    /// Resolves `relpath` and reads the file as UTF-8 text. Content that
    /// is not valid UTF-8 fails with `ParseError`, distinct from the
    /// `FileError` of a missing file.
    pub fn read_str(&self, fs: &Fs, relpath: &str) -> (r: Result<String, Error>)
        ensures
            !is_plain_rel_path(relpath@) ==> (r matches Err(Error::InvalidRelativePath(_))),
            is_plain_rel_path(relpath@) ==> ({
                let full = join_seq(self@, relpath@);
                &&& (!(fs@.contains_key(full) && fs@[full] is File) ==> (r matches Err(
                    Error::FileError(_),
                )))
                &&& (fs@.contains_key(full) ==> (fs@[full] matches FsNode::File(bytes) ==> ({
                    &&& (r is Ok <==> valid_utf8(bytes))
                    &&& (r matches Ok(s) ==> s@ == decode_utf8(bytes))
                    &&& (!valid_utf8(bytes) ==> (r matches Err(Error::ParseError(_))))
                })))
            }),
    {
        match self.read(fs, relpath) {
            Err(e) => Err(e),
            Ok(bytes) => match utf8_to_string(bytes) {
                Some(s) => Ok(s),
                None => Err(
                    Error::ParseError(join_msg("the file does not hold UTF-8 text: ", relpath)),
                ),
            },
        }
    }

    /// Begins a read of the given relative path. The returned source can
    /// hand the content out raw, as text, or deserialized through a
    /// format.
    pub fn read_from<'a>(&'a self, path: &'a str) -> (r: Source<'a>)
        ensures
            r@ == (self@, path@),
    {
        Source { secrets: self, path }
    }
}

/// One pending read of a secret file: the accessor it goes through and the
/// relative path it asks for. Its view is that pair of paths.
pub struct Source<'a> {
    secrets: &'a DevSecrets,
    path: &'a str,
}

impl<'a> View for Source<'a> {
    type V = (Seq<char>, Seq<char>);

    closed spec fn view(&self) -> (Seq<char>, Seq<char>) {
        (self.secrets@, self.path@)
    }
}

impl<'a> Source<'a> {
    /// Attaches a format, under which the content can be deserialized.
    pub fn with_format<F: Format>(&self, fmt: F) -> (r: SourceWithFormat<'a, F>)
        ensures
            r@ == self@,
            r.spec_format() == fmt,
    {
        SourceWithFormat { secrets: self.secrets, path: self.path, format: fmt }
    }

    /// Opens a reader over the file's content.
    pub fn to_reader(&self, fs: &Fs) -> (r: Result<SecretReader, Error>)
        ensures
            !is_plain_rel_path(self@.1) ==> (r matches Err(Error::InvalidRelativePath(_))),
            is_plain_rel_path(self@.1) ==> ({
                let full = join_seq(self@.0, self@.1);
                &&& (r is Ok <==> fs@.contains_key(full) && fs@[full] is File)
                &&& (r matches Ok(rd) ==> fs@[full] == FsNode::File(rd@))
                &&& (!(fs@.contains_key(full) && fs@[full] is File) ==> (r matches Err(
                    Error::FileError(_),
                )))
            }),
    {
        match self.secrets.read(fs, self.path) {
            Err(e) => Err(e),
            Ok(bytes) => Ok(SecretReader::new(bytes)),
        }
    }

    /// The file's content as one byte vector.
    pub fn to_bytes(&self, fs: &Fs) -> (r: Result<Vec<u8>, Error>)
        ensures
            !is_plain_rel_path(self@.1) ==> (r matches Err(Error::InvalidRelativePath(_))),
            is_plain_rel_path(self@.1) ==> ({
                let full = join_seq(self@.0, self@.1);
                &&& (r is Ok <==> fs@.contains_key(full) && fs@[full] is File)
                &&& (r matches Ok(d) ==> fs@[full] == FsNode::File(d@))
                &&& (!(fs@.contains_key(full) && fs@[full] is File) ==> (r matches Err(
                    Error::FileError(_),
                )))
            }),
    {
        self.secrets.read(fs, self.path)
    }

    /// The file's content as UTF-8 text; content that is not valid UTF-8
    /// fails with `ParseError`.
    pub fn to_string(&self, fs: &Fs) -> (r: Result<String, Error>)
        ensures
            !is_plain_rel_path(self@.1) ==> (r matches Err(Error::InvalidRelativePath(_))),
            is_plain_rel_path(self@.1) ==> ({
                let full = join_seq(self@.0, self@.1);
                &&& (!(fs@.contains_key(full) && fs@[full] is File) ==> (r matches Err(
                    Error::FileError(_),
                )))
                &&& (fs@.contains_key(full) ==> (fs@[full] matches FsNode::File(bytes) ==> ({
                    &&& (r is Ok <==> valid_utf8(bytes))
                    &&& (r matches Ok(s) ==> s@ == decode_utf8(bytes))
                    &&& (!valid_utf8(bytes) ==> (r matches Err(Error::ParseError(_))))
                })))
            }),
    {
        self.secrets.read_str(fs, self.path)
    }
}

/// One pending read bound to a format. Its view is the accessor's and the
/// request's paths; the format itself is reachable as `spec_format`.
pub struct SourceWithFormat<'a, F: Format> {
    secrets: &'a DevSecrets,
    path: &'a str,
    format: F,
}

impl<'a, F: Format> View for SourceWithFormat<'a, F> {
    type V = (Seq<char>, Seq<char>);

    closed spec fn view(&self) -> (Seq<char>, Seq<char>) {
        (self.secrets@, self.path@)
    }
}

impl<'a, F: Format> SourceWithFormat<'a, F> {
    /// The format this read was bound to.
    pub closed spec fn spec_format(&self) -> F {
        self.format
    }

    /// Deserializes the file under the bound format. The extension gate
    /// runs before anything else: a request path whose final suffix is not
    /// the format's extension fails with `InvalidExtension` before any
    /// filesystem lookup. Then the path gate and the read run as in
    /// `to_bytes`, and a file whose bytes the format rejects fails with
    /// `ParseError`, carrying the underlying cause.
    pub fn into_value(&self, fs: &Fs) -> (r: Result<F::Value, Error>)
        ensures
            extension_of(self@.1) != Some(self.spec_format().spec_extension()) ==> (r matches Err(
                Error::InvalidExtension(_),
            )),
            extension_of(self@.1) == Some(self.spec_format().spec_extension()) ==> ({
                &&& (!is_plain_rel_path(self@.1) ==> (r matches Err(
                    Error::InvalidRelativePath(_),
                )))
                &&& (is_plain_rel_path(self@.1) ==> ({
                    let full = join_seq(self@.0, self@.1);
                    &&& (!(fs@.contains_key(full) && fs@[full] is File) ==> (r matches Err(
                        Error::FileError(_),
                    )))
                    &&& (fs@.contains_key(full) ==> (fs@[full] matches FsNode::File(bytes) ==> ({
                        &&& (r is Ok <==> self.spec_format().spec_parses(bytes))
                        &&& (!self.spec_format().spec_parses(bytes) ==> (r matches Err(
                            Error::ParseError(_),
                        )))
                    })))
                }))
            }),
    {
        if !extension_matches(self.path, self.format.extension()) {
            return Err(
                Error::InvalidExtension(
                    join_msg("the request path does not carry the format's extension: ", self.path),
                ),
            );
        }
        match self.secrets.read(fs, self.path) {
            Err(e) => Err(e),
            Ok(bytes) => match self.format.deserialize(&bytes) {
                Ok(v) => Ok(v),
                Err(msg) => Err(Error::ParseError(msg)),
            },
        }
    }
}

/// A reader over one secret file's content, standing in for a streaming
/// file handle: it hands the bytes out from the front. Its view is the
/// bytes not yet read.
pub struct SecretReader {
    bytes: Vec<u8>,
    pos: usize,
}

impl View for SecretReader {
    type V = Seq<u8>;

    closed spec fn view(&self) -> Seq<u8> {
        self.bytes@.skip(self.pos as int)
    }
}

impl SecretReader {
    #[verifier::type_invariant]
    spec fn wf(self) -> bool {
        self.pos <= self.bytes.len()
    }

    /// Wraps a file's content.
    pub fn new(bytes: Vec<u8>) -> (r: SecretReader)
        ensures
            r@ == bytes@,
    {
        let r = SecretReader { bytes, pos: 0 };
        proof {
            assert(r@ =~= r.bytes@);
        }
        r
    }

    /// How many bytes are left to read.
    pub fn remaining(&self) -> (r: usize)
        ensures
            r == self@.len(),
    {
        proof {
            use_type_invariant(self);
        }
        self.bytes.len() - self.pos
    }

    /// Reads the next byte, if any is left.
    pub fn read_byte(&mut self) -> (r: Option<u8>)
        ensures
            old(self)@.len() == 0 ==> (r is None && final(self)@ == old(self)@),
            old(self)@.len() > 0 ==> (r == Some(old(self)@[0]) && final(self)@ == old(
                self,
            )@.drop_first()),
    {
        proof {
            use_type_invariant(&*self);
        }
        if self.pos < self.bytes.len() {
            let b = self.bytes[self.pos];
            self.pos = self.pos + 1;
            proof {
                assert(self@ =~= old(self)@.drop_first());
            }
            Some(b)
        } else {
            None
        }
    }

    /// Reads all the remaining bytes at once.
    pub fn read_to_end(&mut self) -> (r: Vec<u8>)
        ensures
            r@ == old(self)@,
            final(self)@.len() == 0,
    {
        proof {
            use_type_invariant(&*self);
        }
        let r = slice_to_vec(slice_subrange(self.bytes.as_slice(), self.pos, self.bytes.len()));
        self.pos = self.bytes.len();
        proof {
            assert(r@ =~= old(self)@);
        }
        r
    }
}

} // verus!
