//! The store and its buckets. A `Fsdb` names a base directory; each
//! `Bucket` is bound to one subdirectory of it and keeps key-value entries
//! there, with an optional single level of sub-namespaces. The bucket holds
//! the verified state of its namespace — which entries stand under which
//! stored names — and resolves the file paths that back them; values are
//! the bytes of an already-encoded value, one file each.

use vstd::prelude::*;
use vstd::string::*;

use crate::errors::Error;
use crate::errors::IoKind;
use crate::model::join;
use crate::model::view_seq;
use crate::model::BucketState;
use crate::table::Table;

verus! {

/// The store: a handle on a base directory under which buckets live.
pub struct Fsdb {
    dir: String,
}

impl View for Fsdb {
    type V = Seq<char>;

    closed spec fn view(&self) -> Seq<char> {
        self.dir@
    }
}

fn join_path(dir: &String, name: &str) -> (r: String)
    ensures
        r@ == join(dir@, name@),
{
    let mut r = dir.clone();
    r.append("/");
    r.append(name);
    proof {
        reveal_strlit("/");
        assert(r@ =~= join(dir@, name@));
    }
    r
}

fn clone_bytes(v: &Vec<u8>) -> (r: Vec<u8>)
    ensures
        r@ == v@,
{
    let r = v.clone();
    proof {
        assert forall|i: int| 0 <= i < v@.len() implies r@[i] == v@[i] by {
            assert(cloned::<u8>(v@[i], r@[i]));
        }
        assert(r@ =~= v@);
    }
    r
}

impl Fsdb {
    /// Binds a store to a base directory. The directory and any missing
    /// ancestors are established by the surrounding shell before values
    /// are persisted; the handle itself only records the path.
    pub fn new(dir: &str) -> (r: Result<Fsdb, Error>)
        ensures
            match r {
                Ok(db) => db@ == dir@,
                Err(_) => false,
            },
    {
        Ok(Fsdb { dir: dir.to_owned() })
    }

    /// Opens the bucket named `name`: the subdirectory `dir/name` of the
    /// base directory, created if absent. The returned handle models the
    /// namespace as of that creation, with no entries and no name cap.
    pub fn bucket(&self, name: &str) -> (r: Result<Bucket, Error>)
        ensures
            match r {
                Ok(b) => b.wf() && b@ == BucketState::init(join(self@, name@)),
                Err(_) => false,
            },
    {
        Ok(Bucket {
            dir: join_path(&self.dir, name),
            max_file_name: None,
            present: true,
            files: Table::new(),
            subs: Table::new(),
        })
    }
}

/// One bucket: a directory of encoded values, each under the stored name
/// of its key, plus at most one level of sub-namespace directories.
pub struct Bucket {
    dir: String,
    max_file_name: Option<usize>,
    present: bool,
    files: Table<Vec<u8>>,
    subs: Table<Table<Vec<u8>>>,
}

impl View for Bucket {
    type V = BucketState;

    closed spec fn view(&self) -> BucketState {
        BucketState {
            dir: self.dir@,
            max_name: self.max_file_name,
            present: self.present,
            files: self.files@,
            subs: self.subs@,
        }
    }
}

impl Bucket {
    /// The two name tables are well-formed, no name is both a file and a
    /// sub-namespace, and each sub-namespace table is well-formed.
    pub closed spec fn wf(&self) -> bool {
        &&& self.files.wf()
        &&& self.subs.wf()
        &&& forall|k: Seq<char>| self.files@.contains_key(k) ==> !self.subs@.contains_key(k)
        &&& forall|i: int|
            0 <= i < self.subs.vals().len() ==> (#[trigger] self.subs.vals()[i]).wf()
    }

    /// The stored file name of a key: the key, cut to the configured
    /// maximum number of characters if one is set.
    fn maxify(&self, key: &str) -> (r: String)
        ensures
            r@ == self@.maxified(key@),
    {
        match self.max_file_name {
            Some(max) => {
                let len = key.unicode_len();
                if len <= max {
                    key.to_owned()
                } else {
                    key.substring_char(0, max).to_owned()
                }
            },
            None => key.to_owned(),
        }
    }

    /// Caps the number of characters a key contributes to its file name.
    /// Later operations cut longer keys to the first `x` characters;
    /// entries stored before the cap changed keep their old names.
    pub fn set_max_file_name(&mut self, x: usize)
        requires
            old(self).wf(),
        ensures
            final(self).wf(),
            final(self)@ == old(self)@.with_max(x),
    {
        self.max_file_name = Some(x);
    }

    /// The bucket's directory path.
    pub fn dir_path(&self) -> (r: &String)
        ensures
            r@ == self@.dir,
    {
        &self.dir
    }

    /// The path of the file a key is stored at: the bucket directory, a
    /// separator, and the stored name of the key.
    pub fn file_path(&self, key: &str) -> (r: String)
        ensures
            r@ == join(self@.dir, self@.maxified(key@)),
    {
        let name = self.maxify(key);
        join_path(&self.dir, name.as_str())
    }

    /// The path of a sub-namespace's directory; the sub-name is used
    /// verbatim, never cut.
    pub fn sub_dir_path(&self, sub: &str) -> (r: String)
        ensures
            r@ == join(self@.dir, sub@),
    {
        join_path(&self.dir, sub)
    }

    /// The path of the file a key is stored at inside a sub-namespace.
    pub fn sub_file_path(&self, key: &str, sub: &str) -> (r: String)
        ensures
            r@ == join(join(self@.dir, sub@), self@.maxified(key@)),
    {
        let name = self.maxify(key);
        let d = join_path(&self.dir, sub);
        join_path(&d, name.as_str())
    }

    /// Whether an entry stands at the key's stored name. A probe never
    /// fails: without the bucket directory there is no entry.
    pub fn exists_key(&self, key: &str) -> (r: bool)
        requires
            self.wf(),
        ensures
            r == self@.exists_result(key@),
    {
        if !self.present {
            return false;
        }
        let name = self.maxify(key);
        self.files.contains(&name) || self.subs.contains(&name)
    }

    /// Stores encoded bytes under the key's stored name, replacing any
    /// previous value there.
    pub fn put(&mut self, key: &str, value: Vec<u8>) -> (r: Result<(), Error>)
        requires
            old(self).wf(),
        ensures
            final(self).wf(),
            final(self)@ == old(self)@.put_state(key@, value@),
            r == old(self)@.put_result(key@),
    {
        let name = self.maxify(key);
        if !self.present {
            Err(Error::Io(IoKind::NotFound))
        } else if self.subs.contains(&name) {
            Err(Error::Io(IoKind::Other))
        } else {
            self.files.upsert(name, value);
            Ok(())
        }
    }

    /// Loads the encoded bytes stored under the key's stored name.
    pub fn get(&self, key: &str) -> (r: Result<Vec<u8>, Error>)
        requires
            self.wf(),
        ensures
            match r {
                Ok(v) => self@.get_result(key@) == Ok::<Seq<u8>, Error>(v@),
                Err(e) => self@.get_result(key@) == Err::<Seq<u8>, Error>(e),
            },
    {
        if !self.present {
            return Err(Error::Io(IoKind::NotFound));
        }
        let name = self.maxify(key);
        match self.files.get(&name) {
            Some(v) => Ok(clone_bytes(v)),
            None => if self.subs.contains(&name) {
                Err(Error::Io(IoKind::Other))
            } else {
                Err(Error::Io(IoKind::NotFound))
            },
        }
    }

    /// Removes the entry under the key's stored name.
    pub fn remove(&mut self, key: &str) -> (r: Result<(), Error>)
        requires
            old(self).wf(),
        ensures
            final(self).wf(),
            final(self)@ == old(self)@.remove_state(key@),
            r == old(self)@.remove_result(key@),
    {
        let name = self.maxify(key);
        if !self.present {
            Err(Error::Io(IoKind::NotFound))
        } else if self.files.remove_entry(&name) {
            Ok(())
        } else if self.subs.contains(&name) {
            Err(Error::Io(IoKind::Other))
        } else {
            Err(Error::Io(IoKind::NotFound))
        }
    }

    /// Lists the names of all entries directly inside the bucket
    /// directory: stored file names as they stand (cut keys are listed
    /// cut) and sub-namespace names, each exactly once, in no promised
    /// order.
    pub fn list(&self) -> (r: Result<Vec<String>, Error>)
        requires
            self.wf(),
        ensures
            match r {
                Ok(names) => self@.list_ok() && view_seq(names@).no_duplicates()
                    && view_seq(names@).to_set() == self@.entry_names(),
                Err(e) => !self@.list_ok() && e == Error::Io(IoKind::NotFound),
            },
    {
        if !self.present {
            return Err(Error::Io(IoKind::NotFound));
        }
        let mut names = self.files.names();
        let mut more = self.subs.names();
        names.append(&mut more);
        proof {
            self.files.lemma_key_list();
            self.subs.lemma_key_list();
            let a = self.files.key_list();
            let b = self.subs.key_list();
            assert(view_seq(names@) =~= a + b);
            assert forall|i: int, j: int|
                0 <= i < (a + b).len() && 0 <= j < (a + b).len() && i != j
                implies (a + b)[i] != (a + b)[j] by {
                if i < a.len() && j >= a.len() {
                    assert(a.contains(a[i]));
                    assert(b.contains(b[j - a.len()]));
                } else if i >= a.len() && j < a.len() {
                    assert(a.contains(a[j]));
                    assert(b.contains(b[i - a.len()]));
                }
            }
            assert forall|k: Seq<char>| #[trigger]
                (a + b).contains(k) implies self@.entry_names().contains(k) by {
                let i = choose|i: int| 0 <= i < (a + b).len() && (a + b)[i] == k;
                if i < a.len() {
                    assert(a.contains(k));
                } else {
                    assert(b.contains(k));
                }
            }
            assert forall|k: Seq<char>| self@.entry_names().contains(
                k,
            ) implies #[trigger] (a + b).contains(k) by {
                if a.contains(k) {
                    let i = choose|i: int| 0 <= i < a.len() && a[i] == k;
                    assert((a + b)[i] == k);
                } else {
                    assert(b.contains(k));
                    let i = choose|i: int| 0 <= i < b.len() && b[i] == k;
                    assert((a + b)[a.len() + i] == k);
                }
            }
            assert(view_seq(names@).to_set() =~= self@.entry_names());
        }
        Ok(names)
    }

    /// Removes the bucket directory and everything in it, sub-namespaces
    /// included. The directory is not recreated: until something brings it
    /// back, later operations fail and probes find nothing.
    pub fn clear(&mut self) -> (r: Result<(), Error>)
        requires
            old(self).wf(),
        ensures
            final(self).wf(),
            final(self)@ == old(self)@.clear_state(),
            r == old(self)@.clear_result(),
    {
        if !self.present {
            return Err(Error::Io(IoKind::NotFound));
        }
        self.present = false;
        self.files = Table::new();
        self.subs = Table::new();
        Ok(())
    }

    /// Whether an entry stands at the key's stored name inside a
    /// sub-namespace. As at top level, a probe never fails.
    pub fn exists_within(&self, key: &str, sub: &str) -> (r: bool)
        requires
            self.wf(),
        ensures
            r == self@.exists_within_result(key@, sub@),
    {
        if !self.present {
            return false;
        }
        let name = self.maxify(key);
        let sub_name = sub.to_owned();
        match self.subs.get(&sub_name) {
            Some(t) => {
                proof {
                    let i = choose|i: int|
                        0 <= i < self.subs.vals().len() && self.subs.vals()[i] == *t;
                    assert(self.subs.vals()[i].wf());
                }
                t.contains(&name)
            },
            None => false,
        }
    }

    /// Stores encoded bytes under the key's stored name inside a
    /// sub-namespace, creating the sub-namespace directory if absent.
    pub fn put_within(&mut self, key: &str, value: Vec<u8>, sub: &str) -> (r: Result<(), Error>)
        requires
            old(self).wf(),
        ensures
            final(self).wf(),
            final(self)@ == old(self)@.put_within_state(key@, value@, sub@),
            r == old(self)@.put_within_result(key@, sub@),
    {
        let name = self.maxify(key);
        let sub_name = sub.to_owned();
        if !self.present {
            return Err(Error::Io(IoKind::NotFound));
        }
        if self.files.contains(&sub_name) {
            return Err(Error::Io(IoKind::Other));
        }
        let mut inner = match self.subs.take_out(&sub_name) {
            Some(t) => {
                proof {
                    let i = choose|i: int|
                        0 <= i < old(self).subs.vals().len() && old(self).subs.vals()[i] == t;
                    assert(old(self).subs.vals()[i].wf());
                }
                t
            },
            None => Table::new(),
        };
        let ghost mid = self.subs;
        inner.upsert(name, value);
        self.subs.upsert(sub_name, inner);
        proof {
            assert(final(self).subs@ =~= old(self).subs@.insert(
                sub_name@,
                old(self)@.put_within_state(key@, value@, sub@).subs[sub_name@],
            ));
            let fin = *final(self);
            assert forall|i: int|
                0 <= i < fin.subs.vals().len() implies (#[trigger] fin.subs.vals()[i]).wf() by {
                let t = fin.subs.vals()[i];
                if t != inner {
                    assert(mid.vals().contains(t));
                    let j = choose|j: int| 0 <= j < mid.vals().len() && mid.vals()[j] == t;
                    assert(old(self).subs.vals().contains(mid.vals()[j]));
                    let j0 = choose|j0: int|
                        0 <= j0 < old(self).subs.vals().len() && old(self).subs.vals()[j0] == t;
                    assert(old(self).subs.vals()[j0].wf());
                }
            }
        }
        Ok(())
    }

    /// Loads the encoded bytes stored under the key's stored name inside a
    /// sub-namespace; the sub-namespace is never created by a load.
    pub fn get_within(&self, key: &str, sub: &str) -> (r: Result<Vec<u8>, Error>)
        requires
            self.wf(),
        ensures
            match r {
                Ok(v) => self@.get_within_result(key@, sub@) == Ok::<Seq<u8>, Error>(v@),
                Err(e) => self@.get_within_result(key@, sub@) == Err::<Seq<u8>, Error>(e),
            },
    {
        if !self.present {
            return Err(Error::Io(IoKind::NotFound));
        }
        let name = self.maxify(key);
        let sub_name = sub.to_owned();
        match self.subs.get(&sub_name) {
            Some(t) => {
                proof {
                    let i = choose|i: int|
                        0 <= i < self.subs.vals().len() && self.subs.vals()[i] == *t;
                    assert(self.subs.vals()[i].wf());
                }
                match t.get(&name) {
                    Some(v) => Ok(clone_bytes(v)),
                    None => Err(Error::Io(IoKind::NotFound)),
                }
            },
            None => if self.files.contains(&sub_name) {
                Err(Error::Io(IoKind::Other))
            } else {
                Err(Error::Io(IoKind::NotFound))
            },
        }
    }

    /// Removes the entry under the key's stored name inside a
    /// sub-namespace; the sub-namespace directory itself stays.
    pub fn remove_within(&mut self, key: &str, sub: &str) -> (r: Result<(), Error>)
        requires
            old(self).wf(),
        ensures
            final(self).wf(),
            final(self)@ == old(self)@.remove_within_state(key@, sub@),
            r == old(self)@.remove_within_result(key@, sub@),
    {
        let name = self.maxify(key);
        let sub_name = sub.to_owned();
        if !self.present {
            return Err(Error::Io(IoKind::NotFound));
        }
        match self.subs.take_out(&sub_name) {
            Some(mut inner) => {
                proof {
                    let i = choose|i: int|
                        0 <= i < old(self).subs.vals().len() && old(self).subs.vals()[i] == inner;
                    assert(old(self).subs.vals()[i].wf());
                }
                let ghost mid = self.subs;
                let found = inner.remove_entry(&name);
                self.subs.upsert(sub_name, inner);
                proof {
                    if found {
                        assert(final(self).subs@ =~= old(self)@.remove_within_state(
                            key@,
                            sub@,
                        ).subs);
                    } else {
                        assert(final(self).subs@ =~= old(self).subs@);
                    }
                    let fin = *final(self);
                    assert forall|i: int|
                        0 <= i < fin.subs.vals().len() implies (#[trigger] fin.subs.vals()[i]).wf()
                        by {
                        let t = fin.subs.vals()[i];
                        if t != inner {
                            assert(mid.vals().contains(t));
                            let j0 = choose|j0: int|
                                0 <= j0 < old(self).subs.vals().len() && old(self).subs.vals()[j0]
                                    == t;
                            assert(old(self).subs.vals()[j0].wf());
                        }
                    }
                }
                if found {
                    Ok(())
                } else {
                    Err(Error::Io(IoKind::NotFound))
                }
            },
            None => if self.files.contains(&sub_name) {
                Err(Error::Io(IoKind::Other))
            } else {
                Err(Error::Io(IoKind::NotFound))
            },
        }
    }

    /// Lists the stored names inside a sub-namespace, each exactly once,
    /// in no promised order. The sub-namespace directory must exist.
    pub fn list_within(&self, sub: &str) -> (r: Result<Vec<String>, Error>)
        requires
            self.wf(),
        ensures
            match r {
                Ok(names) => self@.list_within_ok(sub@) && view_seq(names@).no_duplicates()
                    && view_seq(names@).to_set() == self@.subs[sub@].dom(),
                Err(e) => !self@.list_within_ok(sub@) && e == self@.within_err(sub@),
            },
    {
        if !self.present {
            return Err(Error::Io(IoKind::NotFound));
        }
        let sub_name = sub.to_owned();
        match self.subs.get(&sub_name) {
            Some(t) => {
                proof {
                    let i = choose|i: int|
                        0 <= i < self.subs.vals().len() && self.subs.vals()[i] == *t;
                    assert(self.subs.vals()[i].wf());
                    t.lemma_key_list();
                }
                let names = t.names();
                proof {
                    assert(view_seq(names@).to_set() =~= self@.subs[sub_name@].dom());
                }
                Ok(names)
            },
            None => if self.files.contains(&sub_name) {
                Err(Error::Io(IoKind::Other))
            } else {
                Err(Error::Io(IoKind::NotFound))
            },
        }
    }

    /// Removes a sub-namespace directory and everything in it; the bucket
    /// directory and the other entries stay.
    pub fn clear_within(&mut self, sub: &str) -> (r: Result<(), Error>)
        requires
            old(self).wf(),
        ensures
            final(self).wf(),
            final(self)@ == old(self)@.clear_within_state(sub@),
            r == old(self)@.clear_within_result(sub@),
    {
        if !self.present {
            return Err(Error::Io(IoKind::NotFound));
        }
        let sub_name = sub.to_owned();
        if self.subs.remove_entry(&sub_name) {
            Ok(())
        } else if self.files.contains(&sub_name) {
            Err(Error::Io(IoKind::Other))
        } else {
            Err(Error::Io(IoKind::NotFound))
        }
    }
}

} // verus!
