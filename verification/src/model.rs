//! The paste lifecycle manager and its data types: the only place where the
//! business rules live.

use vstd::prelude::*;

use crate::database;
use crate::database::DatabaseError;
use crate::database::apply_update;
use crate::database::find_url;
use crate::database::has_url;
use crate::database::lemma_find_url;
use crate::database::remove_url;
use crate::database::update_record;
use crate::database::Database;
use crate::utility::bytes_of;
use crate::utility::hash_of;
use crate::utility::hash_string;
use crate::utility::is_url_safe;
use crate::utility::pseudoid;
use crate::utility::random_string;
use crate::utility::token;
use crate::utility::unix_timestamp;
use crate::utility::url_safe;

verus! {

/// Everything that a paste operation can fail with.
#[derive(Debug, Clone, Copy, PartialEq, Eq, Structural)]
pub enum PasteError {
    /// The URL holds a byte outside `[A-Za-z0-9_-]`, or is over 250 bytes.
    InvalidUrl,
    /// The password is over 250 bytes.
    InvalidPassword,
    /// The content is empty or over 200,000 bytes.
    InvalidContent,
    /// A paste with this URL is already stored.
    AlreadyExists,
    /// The storage layer failed; the cause is carried along.
    Database(DatabaseError),
    /// No paste with this URL is stored.
    NotFound,
    /// The password does not match the stored credential digest.
    IncorrectPassword,
}

/// The mathematical value of a stored paste record.
pub ghost struct PasteModel {
    pub id: i64,
    pub url: Seq<char>,
    pub content: Seq<char>,
    pub password_hash: Seq<char>,
    pub date_published: i64,
    pub date_edited: i64,
}

/// Represents the database's paste schema as a struct; a randomly generated
/// i64 ID identifies a paste independently of its URL.
pub struct DatabasePaste {
    pub id: i64,
    pub url: String,
    pub content: String,
    pub password_hash: String,
    pub date_published: i64,
    pub date_edited: i64,
}

impl View for DatabasePaste {
    type V = PasteModel;

    open spec fn view(&self) -> PasteModel {
        PasteModel {
            id: self.id,
            url: self.url@,
            content: self.content@,
            password_hash: self.password_hash@,
            date_published: self.date_published,
            date_edited: self.date_edited,
        }
    }
}

impl Clone for DatabasePaste {
    fn clone(&self) -> (r: Self)
        ensures
            r == *self,
    {
        DatabasePaste {
            id: self.id,
            url: self.url.clone(),
            content: self.content.clone(),
            password_hash: self.password_hash.clone(),
            date_published: self.date_published,
            date_edited: self.date_edited,
        }
    }
}

/// The mathematical value of the mutable part of a record.
pub ghost struct UpdateModel {
    pub url: Seq<char>,
    pub content: Seq<char>,
    pub password_hash: Seq<char>,
    pub date_edited: i64,
}

/// The "mutable" fields on a paste within the database; used for editing
/// existing paste records.
pub struct PartialDatabasePaste {
    pub url: String,
    pub content: String,
    pub password_hash: String,
    pub date_edited: i64,
}

impl View for PartialDatabasePaste {
    type V = UpdateModel;

    open spec fn view(&self) -> UpdateModel {
        UpdateModel {
            url: self.url@,
            content: self.content@,
            password_hash: self.password_hash@,
            date_edited: self.date_edited,
        }
    }
}

impl Clone for PartialDatabasePaste {
    fn clone(&self) -> (r: Self)
        ensures
            r == *self,
    {
        PartialDatabasePaste {
            url: self.url.clone(),
            content: self.content.clone(),
            password_hash: self.password_hash.clone(),
            date_edited: self.date_edited,
        }
    }
}

/// Data provided by the user to create a new paste from, or to update an
/// existing paste with.
pub struct NewPasteData {
    pub url: String,
    pub content: String,
    pub password: String,
}

/// Identifies a paste and authorizes access to it: the URL together with the
/// plain editing password.
pub struct PasteCredentials {
    pub url: String,
    pub password: String,
}

/// The flat form in which an edit request arrives: the addressed URL and
/// password beside the new content and the optional new URL and password.
pub struct UpdateForm {
    pub url: String,
    pub password: String,
    pub content: String,
    pub new_url: String,
    pub new_password: String,
}

impl UpdateForm {
    /// Splits the form into the credentials that authorize the edit and the
    /// data to store.
    pub fn into_parts(self) -> (r: (PasteCredentials, NewPasteData))
        ensures
            r.0.url@ == self.url@,
            r.0.password@ == self.password@,
            r.1.url@ == self.new_url@,
            r.1.content@ == self.content@,
            r.1.password@ == self.new_password@,
    {
        let credentials = PasteCredentials { url: self.url, password: self.password };
        let update = NewPasteData {
            url: self.new_url,
            content: self.content,
            password: self.new_password,
        };
        (credentials, update)
    }
}

/// The mathematical value of a client-facing paste view.
pub ghost struct ReturnModel {
    pub url: Seq<char>,
    pub content: Seq<char>,
    pub date_published: i64,
    pub date_edited: i64,
}

/// What is served to the end user: the stored record without its numeric id
/// and without the credential digest.
pub struct PasteReturn {
    pub url: String,
    pub content: String,
    pub date_published: i64,
    pub date_edited: i64,
}

impl View for PasteReturn {
    type V = ReturnModel;

    open spec fn view(&self) -> ReturnModel {
        ReturnModel {
            url: self.url@,
            content: self.content@,
            date_published: self.date_published,
            date_edited: self.date_edited,
        }
    }
}

/// The client-facing view of a stored record.
pub open spec fn return_of(rec: PasteModel) -> ReturnModel {
    ReturnModel {
        url: rec.url,
        content: rec.content,
        date_published: rec.date_published,
        date_edited: rec.date_edited,
    }
}

impl vstd::std_specs::convert::FromSpecImpl<DatabasePaste> for PasteReturn {
    open spec fn obeys_from_spec() -> bool {
        true
    }

    open spec fn from_spec(paste: DatabasePaste) -> Self {
        PasteReturn {
            url: paste.url,
            content: paste.content,
            date_published: paste.date_published,
            date_edited: paste.date_edited,
        }
    }
}

impl From<DatabasePaste> for PasteReturn {
    fn from(paste: DatabasePaste) -> (r: Self)
        ensures
            r@ == return_of(paste@),
    {
        Self {
            url: paste.url,
            content: paste.content,
            date_published: paste.date_published,
            date_edited: paste.date_edited,
        }
    }
}

/// A URL the caller may supply: empty (a token will be generated) or
/// URL-safe and at most 250 bytes.
pub open spec fn valid_url_input(u: Seq<char>) -> bool {
    url_safe(u) && bytes_of(u).len() <= 250
}

/// Acceptable paste content: non-empty and at most 200,000 bytes.
pub open spec fn valid_content(c: Seq<char>) -> bool {
    c.len() != 0 && bytes_of(c).len() <= 200_000
}

/// A supplied password must fit in 250 bytes; an empty one stands for "none
/// given".
pub open spec fn valid_password_input(p: Seq<char>) -> bool {
    p.len() == 0 || bytes_of(p).len() <= 250
}

/// Decides whether `url` may serve as a paste's public URL, exactly as
/// `create` accepts it: empty is allowed (a token is generated), anything
/// else must be URL-safe and at most 250 bytes.
pub fn check_url(url: &String) -> (r: Result<(), PasteError>)
    ensures
        r == (if valid_url_input(url@) {
            Ok::<(), PasteError>(())
        } else {
            Err::<(), PasteError>(PasteError::InvalidUrl)
        }),
{
    if !is_url_safe(url.as_str()) || url.as_str().as_bytes().len() > 250 {
        Err(PasteError::InvalidUrl)
    } else {
        Ok(())
    }
}

/// Decides whether `password` authorizes access to the stored record: its
/// digest must equal the stored credential digest.
pub fn check_password(existing: &DatabasePaste, password: String) -> (r: bool)
    ensures
        r == (hash_of(password@) == existing@.password_hash),
{
    let hashed = hash_string(password);
    existing.password_hash == hashed
}

/// What holds of a freshly created record and the credentials returned for
/// it: `t1` is `t0` plus one record at the end, whose URL was free before,
/// whose content is the submitted one, whose credential digest is the hash
/// of the returned password, and whose two timestamps coincide. A supplied
/// URL or password is returned as given; an omitted one is a generated
/// token.
pub open spec fn created(
    t0: Seq<PasteModel>,
    t1: Seq<PasteModel>,
    u: Seq<char>,
    c: Seq<char>,
    p: Seq<char>,
    creds: PasteCredentials,
) -> bool {
    &&& (u.len() > 0 ==> creds.url@ == u)
    &&& (u.len() == 0 ==> token(creds.url@))
    &&& !has_url(t0, creds.url@)
    &&& (p.len() > 0 ==> creds.password@ == p)
    &&& (p.len() == 0 ==> token(creds.password@))
    &&& t1.len() == t0.len() + 1
    &&& t1.drop_last() == t0
    &&& t1.last().url == creds.url@
    &&& t1.last().content == c
    &&& t1.last().password_hash == hash_of(creds.password@)
    &&& t1.last().date_published == t1.last().date_edited
    &&& 0 <= t1.last().date_published
}

/// The complete contract of `create`: which error comes on which input, and
/// what a success stores. When the URL is omitted, the generator may in
/// principle find every candidate taken and give up with `AlreadyExists`;
/// every other outcome is pinned by the input alone.
pub open spec fn create_post(
    t0: Seq<PasteModel>,
    t1: Seq<PasteModel>,
    u: Seq<char>,
    c: Seq<char>,
    p: Seq<char>,
    r: Result<PasteCredentials, PasteError>,
) -> bool {
    if !valid_url_input(u) {
        r == Err::<PasteCredentials, PasteError>(PasteError::InvalidUrl) && t1 == t0
    } else if u.len() > 0 && has_url(t0, u) {
        r == Err::<PasteCredentials, PasteError>(PasteError::AlreadyExists) && t1 == t0
    } else {
        ||| (u.len() == 0 && r == Err::<PasteCredentials, PasteError>(PasteError::AlreadyExists)
            && t1 == t0)
        ||| (!valid_content(c) && r == Err::<PasteCredentials, PasteError>(
            PasteError::InvalidContent,
        ) && t1 == t0)
        ||| (valid_content(c) && p.len() > 0 && bytes_of(p).len() > 250 && r == Err::<
            PasteCredentials,
            PasteError,
        >(PasteError::InvalidPassword) && t1 == t0)
        ||| (valid_content(c) && valid_password_input(p) && (r matches Ok(creds) && created(
            t0,
            t1,
            u,
            c,
            p,
            creds,
        )))
    }
}

/// The complete contract of `update`, given the prior table `t0` and the
/// submitted credentials and fields: which error comes on which input, and
/// that a success rewrites exactly the addressed record.
pub open spec fn update_post(
    t0: Seq<PasteModel>,
    t1: Seq<PasteModel>,
    cu: Seq<char>,
    cp: Seq<char>,
    u: Seq<char>,
    c: Seq<char>,
    p: Seq<char>,
    r: Result<(), PasteError>,
) -> bool {
    if !has_url(t0, cu) {
        r == Err::<(), PasteError>(PasteError::NotFound) && t1 == t0
    } else {
        let rec = t0[find_url(t0, cu)];
        if hash_of(cp) != rec.password_hash {
            r == Err::<(), PasteError>(PasteError::IncorrectPassword) && t1 == t0
        } else if p.len() > 0 && bytes_of(p).len() > 250 {
            r == Err::<(), PasteError>(PasteError::InvalidPassword) && t1 == t0
        } else if !valid_content(c) {
            r == Err::<(), PasteError>(PasteError::InvalidContent) && t1 == t0
        } else {
            &&& r == Ok::<(), PasteError>(())
            &&& t1.len() == t0.len()
            &&& ({
                let te = t1[find_url(t0, cu)].date_edited;
                &&& rec.date_published <= te
                &&& 0 <= te
                &&& t1 == apply_update(
                    t0,
                    cu,
                    UpdateModel {
                        url: if u.len() == 0 {
                            cu
                        } else {
                            u
                        },
                        content: c,
                        password_hash: if p.len() == 0 {
                            hash_of(cp)
                        } else {
                            hash_of(p)
                        },
                        date_edited: te,
                    },
                )
            })
        }
    }
}

/// The complete contract of `delete`: `NotFound` without a stored record,
/// `IncorrectPassword` on a digest mismatch, and otherwise the record (and
/// any duplicate of its URL) is gone.
pub open spec fn delete_post(
    t0: Seq<PasteModel>,
    t1: Seq<PasteModel>,
    cu: Seq<char>,
    cp: Seq<char>,
    r: Result<(), PasteError>,
) -> bool {
    if !has_url(t0, cu) {
        r == Err::<(), PasteError>(PasteError::NotFound) && t1 == t0
    } else if hash_of(cp) != t0[find_url(t0, cu)].password_hash {
        r == Err::<(), PasteError>(PasteError::IncorrectPassword) && t1 == t0
    } else {
        r == Ok::<(), PasteError>(()) && t1 == remove_url(t0, cu)
    }
}

/// What `retrieve` yields on the given table: the client-facing view of the
/// first record carrying the URL, or `NotFound`.
pub open spec fn spec_retrieve(tbl: Seq<PasteModel>, url: Seq<char>) -> Result<
    ReturnModel,
    PasteError,
> {
    if !has_url(tbl, url) {
        Err(PasteError::NotFound)
    } else {
        Ok(return_of(tbl[find_url(tbl, url)]))
    }
}

/// Validates content and password for a new paste and builds the record to
/// store: the content must be acceptable, a supplied password must fit in
/// 250 bytes, an omitted one is replaced by a generated token, and the
/// record carries the digest of the effective password together with one
/// creation timestamp for both date fields.
pub fn prepare_paste(url: String, content: String, password: String) -> (r: Result<
    (DatabasePaste, PasteCredentials),
    PasteError,
>)
    ensures
        !valid_content(content@) ==> r == Err::<(DatabasePaste, PasteCredentials), PasteError>(
            PasteError::InvalidContent,
        ),
        valid_content(content@) && password@.len() > 0 && bytes_of(password@).len() > 250 ==> r
            == Err::<(DatabasePaste, PasteCredentials), PasteError>(PasteError::InvalidPassword),
        valid_content(content@) && valid_password_input(password@) ==> (r matches Ok(pair) && {
            let rec = pair.0;
            let creds = pair.1;
            &&& rec@.url == url@
            &&& creds.url@ == url@
            &&& rec@.content == content@
            &&& (password@.len() > 0 ==> creds.password@ == password@)
            &&& (password@.len() == 0 ==> token(creds.password@))
            &&& rec@.password_hash == hash_of(creds.password@)
            &&& rec@.date_published == rec@.date_edited
            &&& 0 <= rec@.date_published
        }),
{
    if content.as_str().is_empty() || content.as_str().as_bytes().len() > 200_000 {
        return Err(PasteError::InvalidContent);
    }
    let password: String = if password.as_str().is_empty() {
        random_string()
    } else {
        if password.as_str().as_bytes().len() > 250 {
            return Err(PasteError::InvalidPassword);
        }
        password
    };
    let timestamp = unix_timestamp();
    let record = DatabasePaste {
        id: pseudoid(),
        url: url.clone(),
        content,
        password_hash: hash_string(password.clone()),
        date_published: timestamp,
        date_edited: timestamp,
    };
    Ok((record, PasteCredentials { url, password }))
}

/// Authenticates an update against the retrieved record and builds the
/// fields to store: an omitted new URL keeps the addressed one, an omitted
/// new password keeps the authenticating one (its digest is recomputed), a
/// supplied new password must fit in 250 bytes, and the edit timestamp
/// never precedes the record's publication time, even if the clock stepped
/// back.
pub fn prepare_update(
    existing: &DatabasePaste,
    credentials: PasteCredentials,
    paste: NewPasteData,
) -> (r: Result<PartialDatabasePaste, PasteError>)
    ensures
        hash_of(credentials.password@) != existing@.password_hash ==> r == Err::<
            PartialDatabasePaste,
            PasteError,
        >(PasteError::IncorrectPassword),
        hash_of(credentials.password@) == existing@.password_hash && paste.password@.len() > 0
            && bytes_of(paste.password@).len() > 250 ==> r == Err::<
            PartialDatabasePaste,
            PasteError,
        >(PasteError::InvalidPassword),
        hash_of(credentials.password@) == existing@.password_hash && valid_password_input(
            paste.password@,
        ) && !valid_content(paste.content@) ==> r == Err::<PartialDatabasePaste, PasteError>(
            PasteError::InvalidContent,
        ),
        hash_of(credentials.password@) == existing@.password_hash && valid_password_input(
            paste.password@,
        ) && valid_content(paste.content@) ==> (r matches Ok(upd) && {
            &&& upd@.url == (if paste.url@.len() == 0 {
                credentials.url@
            } else {
                paste.url@
            })
            &&& upd@.content == paste.content@
            &&& upd@.password_hash == (if paste.password@.len() == 0 {
                hash_of(credentials.password@)
            } else {
                hash_of(paste.password@)
            })
            &&& existing@.date_published <= upd@.date_edited
            &&& 0 <= upd@.date_edited
        }),
{
    let credential_hash = hash_string(credentials.password);
    if !(existing.password_hash == credential_hash) {
        return Err(PasteError::IncorrectPassword);
    }
    let url: String = if paste.url.as_str().is_empty() {
        credentials.url
    } else {
        paste.url
    };
    let password_empty = paste.password.as_str().is_empty();
    if !password_empty && paste.password.as_str().as_bytes().len() > 250 {
        return Err(PasteError::InvalidPassword);
    }
    let password_hash: String = if password_empty {
        credential_hash
    } else {
        hash_string(paste.password)
    };
    if paste.content.as_str().is_empty() || paste.content.as_str().as_bytes().len() > 200_000 {
        return Err(PasteError::InvalidContent);
    }
    let now = unix_timestamp();
    let date_edited: i64 = if now < existing.date_published {
        existing.date_published
    } else {
        now
    };
    Ok(PartialDatabasePaste { url, content: paste.content, password_hash, date_edited })
}

/// Generates a URL token that no stored paste carries yet. Random collisions
/// are next to impossible, but the search is bounded all the same; `None`
/// reports that every candidate was taken.
fn generate_free_url(db: &Database) -> (r: Option<String>)
    ensures
        r matches Some(u) ==> token(u@) && !has_url(db@, u@),
{
    let mut attempts: usize = 0;
    while attempts < 64
        invariant
            attempts <= 64,
        decreases 64 - attempts,
    {
        let candidate = random_string();
        if database::retrieve_paste(db, &candidate).is_err() {
            return Some(candidate);
        }
        attempts = attempts + 1;
    }
    None
}

/// Every stored paste carries a distinct URL.
pub open spec fn unique_urls(tbl: Seq<PasteModel>) -> bool {
    forall|i: int, j: int| 0 <= i < j < tbl.len() ==> #[trigger] tbl[i].url != #[trigger] tbl[j].url
}

/// No stored paste was edited before it was published.
pub open spec fn dates_ok(tbl: Seq<PasteModel>) -> bool {
    forall|i: int| 0 <= i < tbl.len() ==> #[trigger] tbl[i].date_published <= tbl[i].date_edited
}

/// After a create, the fresh record stands at the end of the table, so its
/// URL is found there and nowhere earlier.
pub proof fn lemma_created_find(
    t0: Seq<PasteModel>,
    t1: Seq<PasteModel>,
    u: Seq<char>,
    c: Seq<char>,
    p: Seq<char>,
    creds: PasteCredentials,
)
    requires
        created(t0, t1, u, c, p, creds),
    ensures
        find_url(t1, creds.url@) == t1.len() - 1,
        t1[t1.len() - 1] == t1.last(),
{
    let url = creds.url@;
    lemma_find_url(t1, url);
    assert(forall|i: int| 0 <= i < t0.len() ==> t1[i] == #[trigger] t1.drop_last()[i]);
    assert(t1[t1.len() - 1].url == url);
    assert(has_url(t1, url));
    let k = find_url(t1, url);
    if k < t1.len() - 1 {
        assert(t1.drop_last()[k].url == url);
        assert(has_url(t0, url));
        assert(false);
    }
}

/// For every valid input to `create`, a following `retrieve` of the
/// returned URL yields a view with the submitted content and with equal
/// publication and edit timestamps.
pub proof fn lemma_create_then_retrieve(
    t0: Seq<PasteModel>,
    t1: Seq<PasteModel>,
    u: Seq<char>,
    c: Seq<char>,
    p: Seq<char>,
    creds: PasteCredentials,
)
    requires
        created(t0, t1, u, c, p, creds),
    ensures
        spec_retrieve(t1, creds.url@) matches Ok(v) && v.url == creds.url@ && v.content == c
            && v.date_published == v.date_edited,
{
    lemma_created_find(t0, t1, u, c, p, creds);
    assert(has_url(t1, creds.url@)) by {
        lemma_find_url(t1, creds.url@);
    }
}

/// Retrieval does not mutate the table, so two retrievals with no mutation
/// in between yield identical views.
pub proof fn lemma_retrieve_idempotent(
    tbl: Seq<PasteModel>,
    url: Seq<char>,
    r1: Result<ReturnModel, PasteError>,
    r2: Result<ReturnModel, PasteError>,
)
    requires
        r1 == spec_retrieve(tbl, url),
        r2 == spec_retrieve(tbl, url),
    ensures
        r1 == r2,
{
}

/// Tables that agree on every record's URL are searched alike.
proof fn lemma_find_url_same_urls(a: Seq<PasteModel>, b: Seq<PasteModel>, url: Seq<char>)
    requires
        a.len() == b.len(),
        forall|i: int| 0 <= i < a.len() ==> a[i].url == #[trigger] b[i].url,
    ensures
        find_url(a, url) == find_url(b, url),
    decreases a.len(),
{
    if a.len() != 0 {
        assert(forall|i: int| 0 <= i < a.len() - 1 ==> a.drop_first()[i].url == #[trigger] b
            .drop_first()[i].url);
        lemma_find_url_same_urls(a.drop_first(), b.drop_first(), url);
    }
}

/// Round trip: `create`, then `update` with new content under the returned
/// credentials (keeping the URL), then `retrieve`, yields the new content;
/// the publication timestamp is unchanged and never exceeds the edit
/// timestamp.
pub proof fn lemma_round_trip(
    t0: Seq<PasteModel>,
    t1: Seq<PasteModel>,
    t2: Seq<PasteModel>,
    u: Seq<char>,
    c: Seq<char>,
    p: Seq<char>,
    creds: PasteCredentials,
    u2: Seq<char>,
    c2: Seq<char>,
    p2: Seq<char>,
)
    requires
        created(t0, t1, u, c, p, creds),
        update_post(t1, t2, creds.url@, creds.password@, u2, c2, p2, Ok(())),
        u2.len() == 0,
    ensures
        spec_retrieve(t2, creds.url@) matches Ok(v) && v.content == c2 && v.date_published
            == t1.last().date_published && v.date_published <= v.date_edited,
{
    let url = creds.url@;
    lemma_created_find(t0, t1, u, c, p, creds);
    lemma_find_url(t1, url);
    let k = find_url(t1, url);
    let te = t2[k].date_edited;
    let upd = UpdateModel {
        url,
        content: c2,
        password_hash: if p2.len() == 0 {
            hash_of(creds.password@)
        } else {
            hash_of(p2)
        },
        date_edited: te,
    };
    assert(t2 == apply_update(t1, url, upd));
    assert(forall|i: int| 0 <= i < t1.len() ==> t1[i].url == #[trigger] t2[i].url);
    lemma_find_url_same_urls(t2, t1, url);
    assert(t2[k] == update_record(t1[k], upd));
    assert(has_url(t2, url)) by {
        lemma_find_url(t2, url);
    }
}

/// `create` preserves URL uniqueness: the fresh record's URL was free.
pub proof fn lemma_create_preserves_unique(
    t0: Seq<PasteModel>,
    t1: Seq<PasteModel>,
    u: Seq<char>,
    c: Seq<char>,
    p: Seq<char>,
    creds: PasteCredentials,
)
    requires
        unique_urls(t0),
        created(t0, t1, u, c, p, creds),
    ensures
        unique_urls(t1),
{
    assert(forall|i: int| 0 <= i < t0.len() ==> t1[i] == #[trigger] t1.drop_last()[i]);
    assert forall|i: int, j: int| 0 <= i < j < t1.len() implies #[trigger] t1[i].url != #[trigger] t1[j].url by {
        if j == t1.len() - 1 {
            if t1[i].url == t1[j].url {
                assert(t0[i].url == creds.url@);
                assert(has_url(t0, creds.url@));
            }
        } else {
            assert(t0[i].url != t0[j].url);
        }
    }
}

/// `update` preserves URL uniqueness unless it renames a paste to a URL
/// that another stored paste already carries.
pub proof fn lemma_update_preserves_unique(t0: Seq<PasteModel>, url: Seq<char>, upd: UpdateModel)
    requires
        unique_urls(t0),
        upd.url == url || !has_url(t0, upd.url),
    ensures
        unique_urls(apply_update(t0, url, upd)),
{
    let t1 = apply_update(t0, url, upd);
    assert forall|i: int, j: int| 0 <= i < j < t1.len() implies #[trigger] t1[i].url != #[trigger] t1[j].url by {
        assert(t0[i].url != t0[j].url);
        if t1[i].url == t1[j].url {
            if t0[i].url == url && t0[j].url != url {
                assert(has_url(t0, upd.url));
            } else if t0[i].url != url && t0[j].url == url {
                assert(has_url(t0, upd.url));
            }
        }
    }
}

/// `delete` preserves URL uniqueness: it only removes records.
pub proof fn lemma_delete_preserves_unique(t0: Seq<PasteModel>, url: Seq<char>)
    requires
        unique_urls(t0),
    ensures
        unique_urls(remove_url(t0, url)),
    decreases t0.len(),
{
    if t0.len() != 0 {
        let head = t0.drop_last();
        let out = remove_url(t0, url);
        let out_head = remove_url(head, url);
        assert(forall|i: int, j: int| 0 <= i < j < head.len() ==> #[trigger] head[i].url != #[trigger] head[j].url);
        lemma_delete_preserves_unique(head, url);
        if t0.last().url != url {
            crate::database::lemma_remove_url(head, url);
            assert forall|i: int, j: int| 0 <= i < j < out.len() implies #[trigger] out[i].url
                != #[trigger] out[j].url by {
                if j == out.len() - 1 {
                    if out[i].url == out[j].url {
                        assert(out_head[i].url == t0.last().url);
                        assert(has_url(out_head, t0.last().url));
                        assert(has_url(head, t0.last().url));
                        let w = choose|k: int|
                            0 <= k < head.len() && #[trigger] head[k].url == t0.last().url;
                        assert(t0[w].url == t0[t0.len() - 1].url);
                        assert(false);
                    }
                } else {
                    assert(out_head[i].url != out_head[j].url);
                }
            }
        }
    }
}

/// `create` keeps every record published no later than it was edited: the
/// fresh record carries one timestamp for both dates.
pub proof fn lemma_create_preserves_dates(
    t0: Seq<PasteModel>,
    t1: Seq<PasteModel>,
    u: Seq<char>,
    c: Seq<char>,
    p: Seq<char>,
    creds: PasteCredentials,
)
    requires
        dates_ok(t0),
        created(t0, t1, u, c, p, creds),
    ensures
        dates_ok(t1),
{
    assert(forall|i: int| 0 <= i < t0.len() ==> t1[i] == #[trigger] t1.drop_last()[i]);
    assert forall|i: int| 0 <= i < t1.len() implies #[trigger] t1[i].date_published
        <= t1[i].date_edited by {
        if i < t0.len() {
            assert(t1[i] == t0[i]);
            assert(t0[i].date_published <= t0[i].date_edited);
        } else {
            assert(t1[i] == t1.last());
        }
    }
}

/// A successful `update` keeps every record published no later than it was
/// edited: the edit timestamp it writes never precedes the publication time
/// of the (unique) addressed record.
pub proof fn lemma_update_preserves_dates(
    t0: Seq<PasteModel>,
    t1: Seq<PasteModel>,
    cu: Seq<char>,
    cp: Seq<char>,
    u: Seq<char>,
    c: Seq<char>,
    p: Seq<char>,
)
    requires
        dates_ok(t0),
        unique_urls(t0),
        update_post(t0, t1, cu, cp, u, c, p, Ok(())),
    ensures
        dates_ok(t1),
{
    if !has_url(t0, cu) {
    } else {
        lemma_find_url(t0, cu);
        let k = find_url(t0, cu);
        assert forall|i: int| 0 <= i < t1.len() implies #[trigger] t1[i].date_published
            <= t1[i].date_edited by {
            if t0[i].url == cu {
                if i != k {
                    assert(t0[i].url == t0[k].url);
                    assert(false);
                }
            }
        }
    }
}

/// `delete` keeps every remaining record published no later than it was
/// edited: it only removes records.
pub proof fn lemma_delete_preserves_dates(t0: Seq<PasteModel>, url: Seq<char>)
    requires
        dates_ok(t0),
    ensures
        dates_ok(remove_url(t0, url)),
    decreases t0.len(),
{
    if t0.len() != 0 {
        let head = t0.drop_last();
        assert(forall|i: int| 0 <= i < head.len() ==> #[trigger] head[i].date_published <= head[i].date_edited);
        lemma_delete_preserves_dates(head, url);
    }
}

/// The URL a stored paste may carry: URL-safe and 1 to 250 bytes.
pub open spec fn valid_stored_url(u: Seq<char>) -> bool {
    url_safe(u) && 1 <= bytes_of(u).len() <= 250
}

/// Every stored paste carries a valid URL.
pub open spec fn urls_ok(tbl: Seq<PasteModel>) -> bool {
    forall|i: int| 0 <= i < tbl.len() ==> valid_stored_url(#[trigger] tbl[i].url)
}

/// `create` keeps every stored URL valid: a supplied URL passed validation,
/// and a generated token is URL-safe and 64 bytes long.
pub proof fn lemma_create_preserves_urls_ok(
    t0: Seq<PasteModel>,
    t1: Seq<PasteModel>,
    u: Seq<char>,
    c: Seq<char>,
    p: Seq<char>,
    creds: PasteCredentials,
)
    requires
        urls_ok(t0),
        valid_url_input(u),
        created(t0, t1, u, c, p, creds),
    ensures
        urls_ok(t1),
{
    assert(forall|i: int| 0 <= i < t0.len() ==> t1[i] == #[trigger] t1.drop_last()[i]);
    if u.len() == 0 {
        crate::utility::lemma_token_url_safe(creds.url@);
    } else {
        crate::utility::lemma_bytes_of_nonempty(u);
    }
    assert forall|i: int| 0 <= i < t1.len() implies valid_stored_url(#[trigger] t1[i].url) by {
        if i < t0.len() {
            assert(t1[i] == t0[i]);
            assert(valid_stored_url(t0[i].url));
        } else {
            assert(t1[i] == t1.last());
        }
    }
}

/// `update` keeps every stored URL valid whenever the URL it writes is
/// itself valid — in particular whenever it keeps the addressed URL.
pub proof fn lemma_update_preserves_urls_ok(t0: Seq<PasteModel>, url: Seq<char>, upd: UpdateModel)
    requires
        urls_ok(t0),
        has_url(t0, url) ==> valid_stored_url(upd.url),
    ensures
        urls_ok(apply_update(t0, url, upd)),
{
    let t1 = apply_update(t0, url, upd);
    assert forall|i: int| 0 <= i < t1.len() implies valid_stored_url(#[trigger] t1[i].url) by {
        assert(valid_stored_url(t0[i].url));
        if t0[i].url == url {
            assert(has_url(t0, url));
        }
    }
}

/// `delete` keeps every remaining URL valid: it only removes records.
pub proof fn lemma_delete_preserves_urls_ok(t0: Seq<PasteModel>, url: Seq<char>)
    requires
        urls_ok(t0),
    ensures
        urls_ok(remove_url(t0, url)),
    decreases t0.len(),
{
    if t0.len() != 0 {
        let head = t0.drop_last();
        assert(forall|i: int| 0 <= i < head.len() ==> valid_stored_url(#[trigger] head[i].url));
        lemma_delete_preserves_urls_ok(head, url);
    }
}

/// The paste lifecycle manager: validates inputs, resolves defaults and
/// collisions, checks credentials, and mediates every access to the stored
/// table of pastes.
pub struct Manager {
    db: Database,
}

impl View for Manager {
    type V = Seq<PasteModel>;

    closed spec fn view(&self) -> Seq<PasteModel> {
        self.db@
    }
}

impl Manager {
    /// Opens the manager over a fresh, empty paste store.
    pub fn init() -> (m: Manager)
        ensures
            m@ == Seq::<PasteModel>::empty(),
    {
        Manager { db: database::init_database() }
    }

    /// Creates a paste from the submitted data and returns the effective
    /// URL and plain password — the only moment the plain password is ever
    /// handed out.
    pub fn create_paste(&mut self, paste: NewPasteData) -> (r: Result<PasteCredentials, PasteError>)
        ensures
            create_post(old(self)@, final(self)@, paste.url@, paste.content@, paste.password@, r),
    {
        proof {
            lemma_find_url(self.db@, paste.url@);
        }
        if let Err(e) = check_url(&paste.url) {
            return Err(e);
        }
        let url: String;
        if paste.url.as_str().is_empty() {
            match generate_free_url(&self.db) {
                Some(fresh) => {
                    url = fresh;
                },
                None => {
                    return Err(PasteError::AlreadyExists);
                },
            }
        } else {
            if database::retrieve_paste(&self.db, &paste.url).is_ok() {
                return Err(PasteError::AlreadyExists);
            }
            url = paste.url.clone();
        }
        let (record, credentials) = match prepare_paste(url, paste.content, paste.password) {
            Ok(pair) => pair,
            Err(e) => {
                return Err(e);
            },
        };
        let ghost t0 = old(self)@;
        let ghost rec_model = record@;
        match database::insert_paste(&mut self.db, record) {
            Ok(()) => {
                proof {
                    assert(t0.push(rec_model).drop_last() =~= t0);
                }
                Ok(credentials)
            },
            Err(e) => Err(PasteError::Database(e)),
        }
    }

    /// Updates the paste addressed by the credentials with the submitted
    /// fields, after authenticating the password against the stored digest.
    pub fn update_paste(
        &mut self,
        paste_credentials: PasteCredentials,
        paste: NewPasteData,
    ) -> (r: Result<(), PasteError>)
        ensures
            update_post(
                old(self)@,
                final(self)@,
                paste_credentials.url@,
                paste_credentials.password@,
                paste.url@,
                paste.content@,
                paste.password@,
                r,
            ),
    {
        proof {
            lemma_find_url(self.db@, paste_credentials.url@);
        }
        let existing = match database::retrieve_paste(&self.db, &paste_credentials.url) {
            Ok(paste) => paste,
            Err(_) => {
                return Err(PasteError::NotFound);
            },
        };
        let ghost t0 = old(self)@;
        let ghost cu = paste_credentials.url@;
        let url = paste_credentials.url.clone();
        let updated = match prepare_update(&existing, paste_credentials, paste) {
            Ok(upd) => upd,
            Err(e) => {
                return Err(e);
            },
        };
        let ghost upd_model = updated@;
        match database::update_paste(&mut self.db, url, updated) {
            Ok(()) => {
                proof {
                    lemma_find_url(t0, cu);
                    assert(self@[find_url(t0, cu)] == update_record(
                        t0[find_url(t0, cu)],
                        upd_model,
                    ));
                }
                Ok(())
            },
            Err(e) => Err(PasteError::Database(e)),
        }
    }

    /// Deletes the paste addressed by the credentials, after authenticating
    /// the password against the stored digest.
    pub fn delete_paste(&mut self, paste: PasteCredentials) -> (r: Result<(), PasteError>)
        ensures
            delete_post(old(self)@, final(self)@, paste.url@, paste.password@, r),
    {
        proof {
            lemma_find_url(self.db@, paste.url@);
        }
        let existing = match database::retrieve_paste(&self.db, &paste.url) {
            Ok(found) => found,
            Err(_) => {
                return Err(PasteError::NotFound);
            },
        };
        if !check_password(&existing, paste.password) {
            return Err(PasteError::IncorrectPassword);
        }
        match database::delete_paste(&mut self.db, &paste.url) {
            Ok(()) => Ok(()),
            Err(e) => Err(PasteError::Database(e)),
        }
    }

    /// Looks a paste up by its URL and returns the client-facing view:
    /// neither the numeric id nor the credential digest is ever exposed.
    pub fn retrieve_paste(&self, url: String) -> (r: Result<PasteReturn, PasteError>)
        ensures
            match r {
                Ok(v) => spec_retrieve(self@, url@) == Ok::<ReturnModel, PasteError>(v@),
                Err(e) => spec_retrieve(self@, url@) == Err::<ReturnModel, PasteError>(e),
            },
    {
        proof {
            lemma_find_url(self.db@, url@);
        }
        match database::retrieve_paste(&self.db, &url) {
            Ok(database_paste) => Ok(PasteReturn::from(database_paste)),
            Err(_) => Err(PasteError::NotFound),
        }
    }
}

} // verus!
