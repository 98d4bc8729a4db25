use vstd::prelude::*;
use vstd::string::StringExecFns;
use crate::codec::{
    decode_record, decode_spec, encode_record, encode_spec, generate_unique_id, unique_id_spec,
};
use crate::errors::PostError;
use crate::media::{media_file_name, media_name_spec, MediaKind};
use crate::record::{record_wf, PostRecord, RecordView};
use crate::render::{render_post, rendered_post_spec};
use crate::self_service_authorized;
use crate::store::{store_contents, MetadataStore};

verus! {

/// A freshly created post: its durable record and the page rendered
/// for it.
#[derive(Debug)]
pub struct CreatedPost {
    pub record: PostRecord,
    pub html: String,
}

/// A post as served: its record and the page rendered for it now.
#[derive(Debug)]
pub struct ReadOutcome {
    pub record: PostRecord,
    pub html: String,
}

/// The records line up one-to-one with a sequence of store keys:
/// as many records as keys, the keys distinct, in ascending store
/// order, each key present with its value decoding to the record at
/// the same position, and every key of the store among them.
pub open spec fn posts_keyed(
    contents: Map<Seq<char>, Seq<char>>,
    posts: Seq<RecordView>,
    keys: Seq<Seq<char>>,
) -> bool {
    &&& keys.len() == posts.len()
    &&& forall|i: int, j: int| 0 <= i < j < keys.len() ==> keys[i] != keys[j]
    &&& forall|i: int, j: int|
        0 <= i < j < keys.len() ==> crate::store::lex_lt(#[trigger] keys[i], #[trigger] keys[j])
    &&& forall|i: int|
        0 <= i < keys.len() ==> contents.contains_key(#[trigger] keys[i]) && decode_spec(
            contents[keys[i]],
        ) == Option::Some(posts[i])
    &&& forall|k: Seq<char>|
        contents.contains_key(k) ==> exists|i: int| 0 <= i < keys.len() && #[trigger] keys[i] == k
}

/// The decoded records stand for exactly what the store holds: one
/// record per stored key, in ascending key order, each decoding from
/// its key's value.
pub open spec fn posts_match(contents: Map<Seq<char>, Seq<char>>, posts: Seq<RecordView>) -> bool {
    exists|keys: Seq<Seq<char>>| posts_keyed(contents, posts, keys)
}

/// Some stored record already carries this title.
pub open spec fn title_taken(contents: Map<Seq<char>, Seq<char>>, title: Seq<char>) -> bool {
    exists|k: Seq<char>|
        #[trigger] contents.contains_key(k) && (decode_spec(contents[k]) matches Some(r)
            && r.title == title)
}

/// The record a successful creation stores.
pub open spec fn created_record_spec(
    title: Seq<char>,
    message: Seq<char>,
    media: Option<MediaKind>,
    now: int,
    token: Seq<char>,
) -> RecordView {
    RecordView {
        id: unique_id_spec(now as nat, token),
        title: title,
        message: message,
        media: match media {
            Option::Some(k) => Option::Some(media_name_spec(k)),
            Option::None => Option::None,
        },
        created_at: now,
    }
}

/// A record with its title and message replaced.
pub open spec fn updated_view(prev: RecordView, title: Seq<char>, message: Seq<char>) -> RecordView {
    RecordView { id: prev.id, title: title, message: message, media: prev.media, created_at: prev.created_at }
}

/// What a successful administrative edit does: the stored value under
/// `id` is replaced by the re-encoded record with the new title and
/// message, and `html` is that record's page at `now`.
pub open spec fn edit_result(
    pre: Map<Seq<char>, Seq<char>>,
    post: Map<Seq<char>, Seq<char>>,
    id: Seq<char>,
    title: Seq<char>,
    message: Seq<char>,
    html: Seq<char>,
    now: int,
) -> bool {
    &&& pre.contains_key(id)
    &&& decode_spec(pre[id]) matches Some(prev) && post == pre.insert(
        id,
        encode_spec(updated_view(prev, title, message)),
    ) && html == rendered_post_spec(updated_view(prev, title, message), now)
}

/// Orchestrates the post lifecycle: it owns the metadata store, which
/// is the source of truth, and the administrative credential, and is
/// the sole writer of both persistence layers.
pub struct PostLifecycleManager {
    store: MetadataStore,
    admin_password: String,
}

/// The administrative surface's handle; the manager carries both the
/// public and the administrative operations.
pub type AdminState = PostLifecycleManager;

impl PostLifecycleManager {
    /// What the metadata store currently holds.
    pub closed spec fn contents(self) -> Map<Seq<char>, Seq<char>> {
        store_contents(self.store)
    }

    /// The configured administrative credential.
    pub closed spec fn password_spec(self) -> Seq<char> {
        self.admin_password@
    }

    /// Wraps an already opened store.
    pub fn new(store: MetadataStore, admin_password: String) -> (m: Self)
        ensures
            m.contents() == store_contents(store),
            m.password_spec() == admin_password@,
    {
        PostLifecycleManager { store, admin_password }
    }

    /// Opens the durable store kept at `path`. Failing to open it is
    /// the one fatal condition of the system.
    pub fn open(path: &str, admin_password: String) -> (r: Result<Self, PostError>)
        ensures
            r matches Ok(m) ==> m.password_spec() == admin_password@,
            r matches Err(e) ==> e == PostError::StorageFailure,
    {
        match MetadataStore::open(path) {
            Ok(store) => Ok(PostLifecycleManager { store, admin_password }),
            Err(e) => Err(e),
        }
    }

    /// Opens a store at a fresh temporary location, holding nothing.
    pub fn open_temporary(admin_password: String) -> (r: Result<Self, PostError>)
        ensures
            r matches Ok(m) ==> m.contents() == Map::<Seq<char>, Seq<char>>::empty()
                && m.password_spec() == admin_password@,
            r matches Err(e) ==> e == PostError::StorageFailure,
    {
        match MetadataStore::open_temporary() {
            Ok(store) => Ok(PostLifecycleManager { store, admin_password }),
            Err(e) => Err(e),
        }
    }

    /// Whether some stored record already carries `title`.
    pub fn title_exists(&self, title: &str) -> (r: Result<bool, PostError>)
        ensures
            r matches Ok(b) ==> b == title_taken(self.contents(), title@),
            r matches Err(e) ==> e == PostError::StorageFailure,
    {
        let entries = match self.store.entries() {
            Ok(es) => es,
            Err(e) => { return Err(e); },
        };
        let t = String::from_str(title);
        let n = entries.len();
        let mut i: usize = 0;
        while i < n
            invariant
                i <= n,
                n == entries@.len(),
                t@ == title@,
                forall|j: int|
                    0 <= j < entries@.len() ==> self.contents().contains_key(
                        #[trigger] entries@[j].0@,
                    ) && entries@[j].1@ == self.contents()[entries@[j].0@],
                forall|k: Seq<char>|
                    self.contents().contains_key(k) ==> exists|j: int|
                        0 <= j < entries@.len() && #[trigger] entries@[j].0@ == k,
                forall|j: int|
                    0 <= j < i ==> !(decode_spec(#[trigger] entries@[j].1@) matches Some(r2)
                        && r2.title == title@),
            decreases n - i,
        {
            match decode_record(entries[i].1.as_str()) {
                Option::Some(rec) => {
                    if rec.title == t {
                        proof {
                            let k = entries@[i as int].0@;
                            assert(self.contents().contains_key(k) && (decode_spec(
                                self.contents()[k],
                            ) matches Some(r2) && r2.title == title@));
                        }
                        return Ok(true);
                    }
                },
                Option::None => { return Err(PostError::StorageFailure); },
            }
            i = i + 1;
        }
        proof {
            assert forall|k: Seq<char>| self.contents().contains_key(k) implies !(decode_spec(
                self.contents()[k],
            ) matches Some(r2) && r2.title == title@) by {
                let j = choose|j: int| 0 <= j < entries@.len() && #[trigger] entries@[j].0@ == k;
                assert(entries@[j].1@ == self.contents()[k]);
            };
        }
        Ok(false)
    }

    /// Returns every stored record, decoded, one per key in ascending
    /// key order. Identifiers begin with the creation timestamp, so
    /// reading the list backwards gives the most recent posts first.
    #[verifier::rlimit(50)]
    pub fn get_posts(&self) -> (r: Result<Vec<PostRecord>, PostError>)
        ensures
            r matches Ok(posts) ==> posts_match(
                self.contents(),
                posts@.map_values(|p: PostRecord| p@),
            ),
            r matches Err(e) ==> e == PostError::StorageFailure,
    {
        let entries = match self.store.entries() {
            Ok(es) => es,
            Err(e) => { return Err(e); },
        };
        let n = entries.len();
        let mut posts: Vec<PostRecord> = Vec::new();
        let mut i: usize = 0;
        while i < n
            invariant
                i <= n,
                n == entries@.len(),
                posts@.len() == i,
                forall|j: int|
                    0 <= j < entries@.len() ==> self.contents().contains_key(
                        #[trigger] entries@[j].0@,
                    ) && entries@[j].1@ == self.contents()[entries@[j].0@],
                forall|k: Seq<char>|
                    self.contents().contains_key(k) ==> exists|j: int|
                        0 <= j < entries@.len() && #[trigger] entries@[j].0@ == k,
                forall|j: int|
                    0 <= j < i ==> decode_spec(entries@[j].1@) == Option::Some(
                        #[trigger] posts@[j]@,
                    ),
            decreases n - i,
        {
            match decode_record(entries[i].1.as_str()) {
                Option::Some(rec) => { posts.push(rec); },
                Option::None => { return Err(PostError::StorageFailure); },
            }
            i = i + 1;
        }
        proof {
            let views = posts@.map_values(|p: PostRecord| p@);
            let keys = entries@.map_values(|e: (String, String)| e.0@);
            assert(keys.len() == views.len());
            assert forall|i: int| 0 <= i < keys.len() implies #[trigger] keys[i] == entries@[i].0@
                && views[i] == posts@[i]@ by {};
            assert forall|i: int| 0 <= i < keys.len() implies self.contents().contains_key(
                #[trigger] keys[i],
            ) && decode_spec(self.contents()[keys[i]]) == Option::Some(views[i]) by {
                assert(keys[i] == entries@[i].0@);
                assert(views[i] == posts@[i]@);
            };
            assert forall|k: Seq<char>| self.contents().contains_key(k) implies exists|i: int|
                0 <= i < keys.len() && #[trigger] keys[i] == k by {
                let j = choose|j: int| 0 <= j < entries@.len() && #[trigger] entries@[j].0@ == k;
                assert(keys[j] == k);
            };
            assert(posts_keyed(self.contents(), views, keys));
            assert(posts_match(self.contents(), views));
        }
        Ok(posts)
    }

    /// Creates a post: the title must be fresh, the record is stored
    /// under a new identifier built from `now` and `token`, and the
    /// post's page is rendered. On any failure no record is stored,
    /// except that a reported storage failure may have left the write
    /// applied.
    pub fn create(
        &mut self,
        title: &str,
        message: &str,
        media: Option<MediaKind>,
        now: i64,
        token: &str,
    ) -> (r: Result<CreatedPost, PostError>)
        requires
            0 <= now,
        ensures
            final(self).password_spec() == old(self).password_spec(),
            match r {
                Ok(c) => {
                    &&& !title_taken(old(self).contents(), title@)
                    &&& c.record@ == created_record_spec(
                        title@,
                        message@,
                        media,
                        now as int,
                        token@,
                    )
                    &&& record_wf(c.record@)
                    &&& final(self).contents() == old(self).contents().insert(
                        c.record@.id,
                        encode_spec(c.record@),
                    )
                    &&& c.html@ == rendered_post_spec(c.record@, now as int)
                },
                Err(e) => {
                    &&& (e == PostError::DuplicateTitle ==> title_taken(
                        old(self).contents(),
                        title@,
                    ) && final(self).contents() == old(self).contents())
                    &&& (e == PostError::StorageFailure ==> final(self).contents() == old(self).contents() || (!title_taken(old(self).contents(), title@) && final(self).contents() == old(self).contents().insert(
                        created_record_spec(title@, message@, media, now as int, token@).id,
                        encode_spec(created_record_spec(title@, message@, media, now as int, token@)),
                    )))
                    &&& (e == PostError::DuplicateTitle || e == PostError::StorageFailure)
                },
            },
    {
        match self.title_exists(title) {
            Err(e) => { return Err(e); },
            Ok(true) => { return Err(PostError::DuplicateTitle); },
            Ok(false) => {},
        }
        let id = generate_unique_id(now, token);
        let media_reference = match media {
            Option::Some(k) => Option::Some(media_file_name(k)),
            Option::None => Option::None,
        };
        let record = PostRecord {
            directory_id: id,
            title: String::from_str(title),
            message: String::from_str(message),
            media_reference,
            created_at: now,
        };
        let encoded = encode_record(&record);
        proof {
            assert(record@ == created_record_spec(title@, message@, media, now as int, token@));
        }
        match self.store.put(record.directory_id.as_str(), encoded.as_str()) {
            Ok(u) => {},
            Err(e) => { return Err(e); },
        }
        let html = render_post(&record, now);
        Ok(CreatedPost { record, html })
    }

    /// Serves a post: its record and the page regenerated for it at
    /// `now`. The store is authoritative; the page can always be
    /// rebuilt from the record alone.
    pub fn read(&self, id: &str, now: i64) -> (r: Result<ReadOutcome, PostError>)
        requires
            0 <= now,
        ensures
            match r {
                Ok(out) => self.contents().contains_key(id@) && decode_spec(self.contents()[id@])
                    == Option::Some(out.record@) && out.html@ == rendered_post_spec(
                    out.record@,
                    now as int,
                ),
                Err(e) => (e == PostError::NotFound && !self.contents().contains_key(id@)) || e
                    == PostError::StorageFailure,
            },
    {
        let stored = match self.store.get(id) {
            Ok(v) => v,
            Err(e) => { return Err(e); },
        };
        let value = match stored {
            Option::Some(v) => v,
            Option::None => { return Err(PostError::NotFound); },
        };
        let record = match decode_record(value.as_str()) {
            Option::Some(rec) => rec,
            Option::None => { return Err(PostError::StorageFailure); },
        };
        let html = render_post(&record, now);
        Ok(ReadOutcome { record, html })
    }

    /// Administrative edit: the credential is checked first; on success
    /// the record's title and message are replaced, the identifier,
    /// media and creation time kept, and the page re-rendered at `now`.
    pub fn edit_admin(
        &mut self,
        id: &str,
        new_title: &str,
        new_message: &str,
        password: &str,
        now: i64,
    ) -> (r: Result<String, PostError>)
        requires
            0 <= now,
        ensures
            final(self).password_spec() == old(self).password_spec(),
            r == Err::<String, PostError>(PostError::Unauthorized) <==> password@ != old(self).password_spec(),
            match r {
                Ok(html) => edit_result(
                    old(self).contents(),
                    final(self).contents(),
                    id@,
                    new_title@,
                    new_message@,
                    html@,
                    now as int,
                ),
                Err(e) => {
                    &&& (e == PostError::Unauthorized ==> final(self).contents() == old(self).contents())
                    &&& (e == PostError::NotFound ==> !old(self).contents().contains_key(id@)
                        && final(self).contents() == old(self).contents())
                    &&& (e == PostError::StorageFailure ==> final(self).contents() == old(self).contents() || (old(self).contents().contains_key(id@)
                        && (decode_spec(old(self).contents()[id@]) matches Some(prev)
                        && final(self).contents() == old(self).contents().insert(
                        id@,
                        encode_spec(updated_view(prev, new_title@, new_message@)),
                    ))))
                    &&& (e == PostError::Unauthorized || e == PostError::NotFound || e
                        == PostError::StorageFailure)
                },
            },
    {
        let pw = String::from_str(password);
        if !(pw == self.admin_password) {
            return Err(PostError::Unauthorized);
        }
        let stored = match self.store.get(id) {
            Ok(v) => v,
            Err(e) => { return Err(e); },
        };
        let value = match stored {
            Option::Some(v) => v,
            Option::None => { return Err(PostError::NotFound); },
        };
        let prev = match decode_record(value.as_str()) {
            Option::Some(rec) => rec,
            Option::None => { return Err(PostError::StorageFailure); },
        };
        let updated = PostRecord {
            directory_id: prev.directory_id,
            title: String::from_str(new_title),
            message: String::from_str(new_message),
            media_reference: prev.media_reference,
            created_at: prev.created_at,
        };
        let encoded = encode_record(&updated);
        match self.store.put(id, encoded.as_str()) {
            Ok(u) => {},
            Err(e) => { return Err(e); },
        }
        let html = render_post(&updated, now);
        Ok(html)
    }

    /// Self-service deletion: allowed only while the grace window is
    /// open at `now`; afterwards the record stays fully readable.
    pub fn delete_self(&mut self, id: &str, now: i64) -> (r: Result<(), PostError>)
        requires
            0 <= now,
        ensures
            final(self).password_spec() == old(self).password_spec(),
            match r {
                Ok(u) => {
                    &&& old(self).contents().contains_key(id@)
                    &&& decode_spec(old(self).contents()[id@]) matches Some(rec)
                        && self_service_authorized(rec.created_at, now as int)
                    &&& final(self).contents() == old(self).contents().remove(id@)
                },
                Err(e) => {
                    &&& (e == PostError::NotFound ==> !old(self).contents().contains_key(id@)
                        && final(self).contents() == old(self).contents())
                    &&& (e == PostError::WindowExpired ==> old(self).contents().contains_key(id@)
                        && (decode_spec(old(self).contents()[id@]) matches Some(rec)
                        && !self_service_authorized(rec.created_at, now as int)) && final(self).contents() == old(self).contents())
                    &&& (e == PostError::StorageFailure ==> final(self).contents() == old(self).contents() || (old(self).contents().contains_key(id@)
                        && (decode_spec(old(self).contents()[id@]) matches Some(rec)
                        && self_service_authorized(rec.created_at, now as int)) && final(self).contents() == old(self).contents().remove(id@)))
                    &&& (e == PostError::NotFound || e == PostError::WindowExpired || e
                        == PostError::StorageFailure)
                },
            },
    {
        let stored = match self.store.get(id) {
            Ok(v) => v,
            Err(e) => { return Err(e); },
        };
        let value = match stored {
            Option::Some(v) => v,
            Option::None => { return Err(PostError::NotFound); },
        };
        let record = match decode_record(value.as_str()) {
            Option::Some(rec) => rec,
            Option::None => { return Err(PostError::StorageFailure); },
        };
        if !crate::authorized_self_service(record.created_at, now) {
            return Err(PostError::WindowExpired);
        }
        match self.store.remove(id) {
            Ok(u) => Ok(()),
            Err(e) => Err(e),
        }
    }

    /// Administrative deletion: gated by the credential alone; a wrong
    /// credential mutates nothing, a right one removes the record no
    /// matter how old it is.
    pub fn delete_admin(&mut self, id: &str, password: &str) -> (r: Result<(), PostError>)
        ensures
            final(self).password_spec() == old(self).password_spec(),
            r == Err::<(), PostError>(PostError::Unauthorized) <==> password@ != old(self).password_spec(),
            match r {
                Ok(u) => old(self).contents().contains_key(id@) && final(self).contents() == old(self).contents().remove(id@),
                Err(e) => {
                    &&& (e == PostError::Unauthorized ==> final(self).contents() == old(self).contents())
                    &&& (e == PostError::NotFound ==> !old(self).contents().contains_key(id@)
                        && final(self).contents() == old(self).contents())
                    &&& (e == PostError::StorageFailure ==> final(self).contents() == old(self).contents() || (old(self).contents().contains_key(id@)
                        && final(self).contents() == old(self).contents().remove(id@)))
                    &&& (e == PostError::Unauthorized || e == PostError::NotFound || e
                        == PostError::StorageFailure)
                },
            },
    {
        let pw = String::from_str(password);
        if !(pw == self.admin_password) {
            return Err(PostError::Unauthorized);
        }
        let stored = match self.store.get(id) {
            Ok(v) => v,
            Err(e) => { return Err(e); },
        };
        match stored {
            Option::Some(v) => {},
            Option::None => { return Err(PostError::NotFound); },
        }
        match self.store.remove(id) {
            Ok(u) => Ok(()),
            Err(e) => Err(e),
        }
    }
}

/// A successfully created record is immediately readable: its key maps
/// to a stored value that decodes back to exactly the submitted record.
pub proof fn lemma_create_then_read(pre: Map<Seq<char>, Seq<char>>, r: RecordView)
    requires
        record_wf(r),
    ensures
        pre.insert(r.id, encode_spec(r)).contains_key(r.id),
        decode_spec(pre.insert(r.id, encode_spec(r))[r.id]) == Option::Some(r),
{
    crate::codec::lemma_encode_decode(r);
}

/// A creation that passed the freshness check stores the only record
/// with its title: every other stored key reads a different title.
pub proof fn lemma_created_title_unique(pre: Map<Seq<char>, Seq<char>>, r: RecordView)
    requires
        !title_taken(pre, r.title),
    ensures
        forall|k: Seq<char>|
            #[trigger] pre.insert(r.id, encode_spec(r)).contains_key(k) && k != r.id ==> !(
            decode_spec(pre.insert(r.id, encode_spec(r))[k]) matches Some(q) && q.title == r.title),
{
    let post = pre.insert(r.id, encode_spec(r));
    assert forall|k: Seq<char>| #[trigger] post.contains_key(k) && k != r.id implies !(decode_spec(
        post[k],
    ) matches Some(q) && q.title == r.title) by {
        assert(pre.contains_key(k));
        assert(post[k] == pre[k]);
    };
}

} // verus!
