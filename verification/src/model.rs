//! The mathematical model of a bucket: the directory it is bound to, the
//! optional cap on file-name length, whether its directory still exists,
//! and the entries stored in it — files at top level and one level of
//! sub-namespaces. Every bucket operation is specified here as a pure
//! transition on this state, and the executable bucket is proved to refine
//! these transitions.

use vstd::prelude::*;

use crate::errors::Error;
use crate::errors::IoKind;

verus! {

/// A path one level below a directory: the directory's characters, a
/// separator, and the entry's name.
pub open spec fn join(dir: Seq<char>, name: Seq<char>) -> Seq<char> {
    dir + seq!['/'] + name
}

/// The views of a list of names, in order.
pub open spec fn view_seq(s: Seq<String>) -> Seq<Seq<char>> {
    s.map_values(|x: String| x@)
}

/// The abstract state of one bucket.
pub ghost struct BucketState {
    /// The characters of the bucket's directory path.
    pub dir: Seq<char>,
    /// When set, keys are cut to at most this many characters to form the
    /// stored file name.
    pub max_name: Option<usize>,
    /// Whether the bucket's directory exists; `clear` removes it.
    pub present: bool,
    /// The files directly inside the bucket directory: stored name to the
    /// bytes of the encoded value.
    pub files: Map<Seq<char>, Seq<u8>>,
    /// The sub-namespace directories: sub-name to that directory's files.
    pub subs: Map<Seq<char>, Map<Seq<char>, Seq<u8>>>,
}

impl BucketState {
    /// A fresh bucket bound to a directory that was just created or opened.
    pub open spec fn init(dir: Seq<char>) -> BucketState {
        BucketState {
            dir,
            max_name: None,
            present: true,
            files: Map::empty(),
            subs: Map::empty(),
        }
    }

    /// A directory holds at most one entry per name, so a file and a
    /// sub-namespace never share one.
    pub open spec fn inv(self) -> bool {
        forall|k: Seq<char>| self.files.contains_key(k) ==> !self.subs.contains_key(k)
    }

    /// The file name a key is stored under: the key itself, or its first
    /// `n` characters when a maximum name length `n` is set.
    pub open spec fn maxified(self, key: Seq<char>) -> Seq<char> {
        match self.max_name {
            Some(n) => if key.len() <= n {
                key
            } else {
                key.take(n as int)
            },
            None => key,
        }
    }

    /// The names of all entries directly inside the bucket directory:
    /// stored file names and sub-namespace names.
    pub open spec fn entry_names(self) -> Set<Seq<char>> {
        self.files.dom() + self.subs.dom()
    }

    /// The same bucket with the name cap set to `n`.
    pub open spec fn with_max(self, n: usize) -> BucketState {
        BucketState { max_name: Some(n), ..self }
    }

    /// Whether a probe of the key's path finds an entry; a probe never
    /// fails, a missing directory just means no entry.
    pub open spec fn exists_result(self, key: Seq<char>) -> bool {
        let name = self.maxified(key);
        self.present && (self.files.contains_key(name) || self.subs.contains_key(name))
    }

    /// Storing fails without the bucket directory, or when the stored name
    /// is taken by a sub-namespace directory.
    pub open spec fn put_result(self, key: Seq<char>) -> Result<(), Error> {
        if !self.present {
            Err(Error::Io(IoKind::NotFound))
        } else if self.subs.contains_key(self.maxified(key)) {
            Err(Error::Io(IoKind::Other))
        } else {
            Ok(())
        }
    }

    /// After a store: the bytes stand under the stored name, replacing any
    /// previous value there; a failed store changes nothing.
    pub open spec fn put_state(self, key: Seq<char>, value: Seq<u8>) -> BucketState {
        if self.put_result(key) is Ok {
            BucketState { files: self.files.insert(self.maxified(key), value), ..self }
        } else {
            self
        }
    }

    /// A load returns the bytes under the stored name; a name held by a
    /// sub-namespace is not a readable file, any other miss is not found.
    pub open spec fn get_result(self, key: Seq<char>) -> Result<Seq<u8>, Error> {
        let name = self.maxified(key);
        if self.present && self.files.contains_key(name) {
            Ok(self.files[name])
        } else if self.present && self.subs.contains_key(name) {
            Err(Error::Io(IoKind::Other))
        } else {
            Err(Error::Io(IoKind::NotFound))
        }
    }

    /// A removal needs a file under the stored name; a sub-namespace there
    /// cannot be removed as a file.
    pub open spec fn remove_result(self, key: Seq<char>) -> Result<(), Error> {
        let name = self.maxified(key);
        if self.present && self.files.contains_key(name) {
            Ok(())
        } else if self.present && self.subs.contains_key(name) {
            Err(Error::Io(IoKind::Other))
        } else {
            Err(Error::Io(IoKind::NotFound))
        }
    }

    /// After a removal the stored name is gone; a failed removal changes
    /// nothing.
    pub open spec fn remove_state(self, key: Seq<char>) -> BucketState {
        if self.remove_result(key) is Ok {
            BucketState { files: self.files.remove(self.maxified(key)), ..self }
        } else {
            self
        }
    }

    /// Listing reads the bucket directory, which must exist.
    pub open spec fn list_ok(self) -> bool {
        self.present
    }

    /// Clearing removes the bucket directory itself, which must exist.
    pub open spec fn clear_result(self) -> Result<(), Error> {
        if self.present {
            Ok(())
        } else {
            Err(Error::Io(IoKind::NotFound))
        }
    }

    /// After a clear the directory and everything in it, sub-namespaces
    /// included, are gone; the bucket is not usable until something
    /// recreates its directory.
    pub open spec fn clear_state(self) -> BucketState {
        if self.present {
            BucketState {
                present: false,
                files: Map::empty(),
                subs: Map::empty(),
                ..self
            }
        } else {
            self
        }
    }

    /// A probe one level down finds an entry only in an existing
    /// sub-namespace.
    pub open spec fn exists_within_result(self, key: Seq<char>, sub: Seq<char>) -> bool {
        let name = self.maxified(key);
        self.present && self.subs.contains_key(sub) && self.subs[sub].contains_key(name)
    }

    /// Storing one level down creates the sub-namespace directory when
    /// missing; a file holding the sub-name blocks it, and nothing works
    /// without the bucket directory.
    pub open spec fn put_within_result(self, key: Seq<char>, sub: Seq<char>) -> Result<
        (),
        Error,
    > {
        if !self.present {
            Err(Error::Io(IoKind::NotFound))
        } else if self.files.contains_key(sub) {
            Err(Error::Io(IoKind::Other))
        } else {
            Ok(())
        }
    }

    /// After a store one level down the bytes stand under the stored name
    /// inside the sub-namespace, which now exists either way.
    pub open spec fn put_within_state(
        self,
        key: Seq<char>,
        value: Seq<u8>,
        sub: Seq<char>,
    ) -> BucketState {
        if self.put_within_result(key, sub) is Ok {
            let inner = if self.subs.contains_key(sub) {
                self.subs[sub]
            } else {
                Map::empty()
            };
            BucketState {
                subs: self.subs.insert(sub, inner.insert(self.maxified(key), value)),
                ..self
            }
        } else {
            self
        }
    }

    /// A load one level down; sub-namespaces are never created by it.
    pub open spec fn get_within_result(self, key: Seq<char>, sub: Seq<char>) -> Result<
        Seq<u8>,
        Error,
    > {
        let name = self.maxified(key);
        if self.present && self.subs.contains_key(sub) {
            if self.subs[sub].contains_key(name) {
                Ok(self.subs[sub][name])
            } else {
                Err(Error::Io(IoKind::NotFound))
            }
        } else if self.present && self.files.contains_key(sub) {
            Err(Error::Io(IoKind::Other))
        } else {
            Err(Error::Io(IoKind::NotFound))
        }
    }

    /// A removal one level down.
    pub open spec fn remove_within_result(self, key: Seq<char>, sub: Seq<char>) -> Result<
        (),
        Error,
    > {
        let name = self.maxified(key);
        if self.present && self.subs.contains_key(sub) {
            if self.subs[sub].contains_key(name) {
                Ok(())
            } else {
                Err(Error::Io(IoKind::NotFound))
            }
        } else if self.present && self.files.contains_key(sub) {
            Err(Error::Io(IoKind::Other))
        } else {
            Err(Error::Io(IoKind::NotFound))
        }
    }

    /// After a removal one level down the stored name is gone from the
    /// sub-namespace; the sub-namespace directory itself stays.
    pub open spec fn remove_within_state(self, key: Seq<char>, sub: Seq<char>) -> BucketState {
        if self.remove_within_result(key, sub) is Ok {
            BucketState {
                subs: self.subs.insert(sub, self.subs[sub].remove(self.maxified(key))),
                ..self
            }
        } else {
            self
        }
    }

    /// Listing one level down needs the sub-namespace directory.
    pub open spec fn list_within_ok(self, sub: Seq<char>) -> bool {
        self.present && self.subs.contains_key(sub)
    }

    /// Why a listing or clearing one level down failed: a file under the
    /// sub-name is not a directory, anything else is not found.
    pub open spec fn within_err(self, sub: Seq<char>) -> Error {
        if self.present && self.files.contains_key(sub) {
            Error::Io(IoKind::Other)
        } else {
            Error::Io(IoKind::NotFound)
        }
    }

    /// Clearing one level down removes the sub-namespace directory and its
    /// contents; the directory must exist.
    pub open spec fn clear_within_result(self, sub: Seq<char>) -> Result<(), Error> {
        if self.present && self.subs.contains_key(sub) {
            Ok(())
        } else {
            Err(self.within_err(sub))
        }
    }

    /// After clearing one level down the sub-namespace is gone entirely.
    pub open spec fn clear_within_state(self, sub: Seq<char>) -> BucketState {
        if self.clear_within_result(sub) is Ok {
            BucketState { subs: self.subs.remove(sub), ..self }
        } else {
            self
        }
    }
}

} // verus!
