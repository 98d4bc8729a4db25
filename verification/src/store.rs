use vstd::prelude::*;
use crate::errors::PostError;

verus! {

/// Durable key-value store for post records, backed by a `sled`
/// database. Keys and values are strings; on disk they are held as
/// their UTF-8 bytes, so distinct keys stay distinct.
#[verifier::external_body]
pub struct MetadataStore {
    db: sled::Db,
}

/// What the store holds: each key's characters mapped to the stored
/// value's characters.
pub uninterp spec fn store_contents(s: MetadataStore) -> Map<Seq<char>, Seq<char>>;

/// Strict lexicographic order by code point. For strings held as UTF-8
/// bytes, as sled holds its keys, this is exactly the byte order the
/// tree keeps.
pub open spec fn lex_lt(a: Seq<char>, b: Seq<char>) -> bool
    decreases a.len(),
{
    if b.len() == 0 {
        false
    } else if a.len() == 0 {
        true
    } else if a[0] != b[0] {
        (a[0] as u32) < (b[0] as u32)
    } else {
        lex_lt(a.drop_first(), b.drop_first())
    }
}

impl MetadataStore {
    /// Relies on sled::open: opens (or creates) the database kept in
    /// the directory at `path`; its contents are whatever that
    /// directory already holds.
    #[verifier::external_body]
    pub(crate) fn open(path: &str) -> (r: Result<MetadataStore, PostError>)
        ensures
            r matches Err(e) ==> e == PostError::StorageFailure,
    {
        match sled::open(path) {
            Ok(db) => Ok(MetadataStore { db }),
            Err(_) => Err(PostError::StorageFailure),
        }
    }

    /// Relies on sled::Config::temporary: the database lives at a fresh
    /// temporary path, so it starts with no entries.
    #[verifier::external_body]
    pub(crate) fn open_temporary() -> (r: Result<MetadataStore, PostError>)
        ensures
            match r {
                Ok(s) => store_contents(s) == Map::<Seq<char>, Seq<char>>::empty(),
                Err(e) => e == PostError::StorageFailure,
            },
    {
        match sled::Config::new().temporary(true).open() {
            Ok(db) => Ok(MetadataStore { db }),
            Err(_) => Err(PostError::StorageFailure),
        }
    }

    /// Relies on sled::Tree::insert: maps the key to the value,
    /// replacing any earlier value. When sled reports an error the
    /// update may or may not have been applied.
    #[verifier::external_body]
    pub(crate) fn put(&mut self, key: &str, value: &str) -> (r: Result<(), PostError>)
        ensures
            r matches Ok(u) ==> store_contents(*final(self)) == store_contents(*old(self)).insert(
                key@,
                value@,
            ),
            r matches Err(e) ==> e == PostError::StorageFailure && (store_contents(*final(self))
                == store_contents(*old(self)) || store_contents(*final(self)) == store_contents(
                *old(self),
            ).insert(key@, value@)),
    {
        match self.db.insert(key.as_bytes(), value.as_bytes()) {
            Ok(_) => Ok(()),
            Err(_) => Err(PostError::StorageFailure),
        }
    }

    /// Relies on sled::Tree::get: returns the value stored under the
    /// key, or nothing when the key is absent.
    #[verifier::external_body]
    pub(crate) fn get(&self, key: &str) -> (r: Result<Option<String>, PostError>)
        ensures
            r matches Ok(v) ==> match v {
                Option::Some(s) => store_contents(*self).contains_key(key@) && s@
                    == store_contents(*self)[key@],
                Option::None => !store_contents(*self).contains_key(key@),
            },
            r matches Err(e) ==> e == PostError::StorageFailure,
    {
        match self.db.get(key.as_bytes()) {
            Ok(Some(ivec)) => match String::from_utf8(ivec.to_vec()) {
                Ok(s) => Ok(Some(s)),
                Err(_) => Err(PostError::StorageFailure),
            },
            Ok(None) => Ok(None),
            Err(_) => Err(PostError::StorageFailure),
        }
    }

    /// Relies on sled::Tree::remove: the key is no longer present.
    /// When sled reports an error the removal may or may not have been
    /// applied.
    #[verifier::external_body]
    pub(crate) fn remove(&mut self, key: &str) -> (r: Result<(), PostError>)
        ensures
            r matches Ok(u) ==> store_contents(*final(self)) == store_contents(*old(self)).remove(
                key@,
            ),
            r matches Err(e) ==> e == PostError::StorageFailure && (store_contents(*final(self))
                == store_contents(*old(self)) || store_contents(*final(self)) == store_contents(
                *old(self),
            ).remove(key@)),
    {
        match self.db.remove(key.as_bytes()) {
            Ok(_) => Ok(()),
            Err(_) => Err(PostError::StorageFailure),
        }
    }

    /// Relies on sled::Tree::iter: yields every key-value pair of the
    /// tree exactly once, in ascending key order.
    #[verifier::external_body]
    pub(crate) fn entries(&self) -> (r: Result<Vec<(String, String)>, PostError>)
        ensures
            r matches Ok(es) ==> {
                &&& forall|i: int, j: int|
                    0 <= i < j < es@.len() ==> es@[i].0@ != es@[j].0@
                &&& forall|i: int, j: int|
                    0 <= i < j < es@.len() ==> lex_lt(es@[i].0@, es@[j].0@)
                &&& forall|i: int|
                    0 <= i < es@.len() ==> store_contents(*self).contains_key(#[trigger] es@[i].0@)
                        && es@[i].1@ == store_contents(*self)[es@[i].0@]
                &&& forall|k: Seq<char>|
                    store_contents(*self).contains_key(k) ==> exists|i: int|
                        0 <= i < es@.len() && #[trigger] es@[i].0@ == k
            },
            r matches Err(e) ==> e == PostError::StorageFailure,
    {
        let mut out = Vec::new();
        for item in self.db.iter() {
            match item {
                Ok((k, v)) => {
                    match (String::from_utf8(k.to_vec()), String::from_utf8(v.to_vec())) {
                        (Ok(ks), Ok(vs)) => out.push((ks, vs)),
                        _ => return Err(PostError::StorageFailure),
                    }
                },
                Err(_) => return Err(PostError::StorageFailure),
            }
        }
        Ok(out)
    }
}

} // verus!
