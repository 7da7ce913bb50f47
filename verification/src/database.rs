//! The storage gateway: a table of paste records with create, read, update
//! and delete access keyed by a paste's URL.
//!
//! The gateway applies no business rules of its own. It mirrors the
//! behaviour of a bare relational table: `insert` appends without checking
//! uniqueness, `update` and `delete` touch every matching row and succeed
//! even when no row matches, and `retrieve` hands back the first match.

use vstd::prelude::*;

use crate::model::DatabasePaste;
use crate::model::PartialDatabasePaste;
use crate::model::PasteModel;
use crate::model::UpdateModel;

verus! {

/// What the storage gateway can report: a missing record, or a fault of the
/// store while reading or writing.
#[derive(Debug, Clone, Copy, PartialEq, Eq, Structural)]
pub enum DatabaseError {
    /// No record matches the given URL.
    NotFound,
    /// The store failed while reading.
    Read,
    /// The store failed while writing.
    Write,
}

/// Some stored record carries the given URL.
pub open spec fn has_url(tbl: Seq<PasteModel>, url: Seq<char>) -> bool {
    exists|i: int| 0 <= i < tbl.len() && #[trigger] tbl[i].url == url
}

/// The index of the first record carrying the given URL, or -1 when there is
/// none.
pub open spec fn find_url(tbl: Seq<PasteModel>, url: Seq<char>) -> int
    decreases tbl.len(),
{
    if tbl.len() == 0 {
        -1
    } else if tbl[0].url == url {
        0
    } else {
        let rest = find_url(tbl.drop_first(), url);
        if rest == -1 {
            -1
        } else {
            rest + 1
        }
    }
}

/// `find_url` yields -1 exactly when no record matches, and otherwise the
/// first matching index.
pub proof fn lemma_find_url(tbl: Seq<PasteModel>, url: Seq<char>)
    ensures
        find_url(tbl, url) == -1 <==> !has_url(tbl, url),
        find_url(tbl, url) != -1 ==> 0 <= find_url(tbl, url) < tbl.len()
            && tbl[find_url(tbl, url)].url == url
            && (forall|j: int| 0 <= j < find_url(tbl, url) ==> #[trigger] tbl[j].url != url),
    decreases tbl.len(),
{
    if tbl.len() != 0 && tbl[0].url != url {
        lemma_find_url(tbl.drop_first(), url);
        let rest = tbl.drop_first();
        assert(forall|i: int| 0 < i < tbl.len() ==> #[trigger] tbl[i].url == rest[i - 1].url);
        if has_url(tbl, url) {
            let w = choose|i: int| 0 <= i < tbl.len() && #[trigger] tbl[i].url == url;
            assert(rest[w - 1].url == url);
            assert(has_url(rest, url));
        }
    }
}

/// What a record looks like after an update has replaced its mutable fields.
pub open spec fn update_record(rec: PasteModel, upd: UpdateModel) -> PasteModel {
    PasteModel {
        id: rec.id,
        url: upd.url,
        content: upd.content,
        password_hash: upd.password_hash,
        date_published: rec.date_published,
        date_edited: upd.date_edited,
    }
}

/// The table after every record carrying `url` has had its mutable fields
/// replaced.
pub open spec fn apply_update(tbl: Seq<PasteModel>, url: Seq<char>, upd: UpdateModel) -> Seq<
    PasteModel,
> {
    Seq::new(
        tbl.len(),
        |i: int|
            if tbl[i].url == url {
                update_record(tbl[i], upd)
            } else {
                tbl[i]
            },
    )
}

/// The table after every record carrying `url` has been removed; the other
/// records keep their order.
pub open spec fn remove_url(tbl: Seq<PasteModel>, url: Seq<char>) -> Seq<PasteModel>
    decreases tbl.len(),
{
    if tbl.len() == 0 {
        Seq::empty()
    } else {
        let rest = remove_url(tbl.drop_last(), url);
        if tbl.last().url == url {
            rest
        } else {
            rest.push(tbl.last())
        }
    }
}

/// No removed table still carries the removed URL, and it carries exactly
/// the other URLs of the original.
pub proof fn lemma_remove_url(tbl: Seq<PasteModel>, url: Seq<char>)
    ensures
        !has_url(remove_url(tbl, url), url),
        forall|v: Seq<char>| v != url ==> (has_url(remove_url(tbl, url), v) <==> #[trigger] has_url(
            tbl,
            v,
        )),
    decreases tbl.len(),
{
    if tbl.len() == 0 {
    } else {
        lemma_remove_url(tbl.drop_last(), url);
        let head = tbl.drop_last();
        let out = remove_url(tbl, url);
        let out_head = remove_url(head, url);
        assert forall|v: Seq<char>| v != url && has_url(tbl, v) implies has_url(out, v) by {
            let w = choose|i: int| 0 <= i < tbl.len() && #[trigger] tbl[i].url == v;
            if w < tbl.len() - 1 {
                assert(head[w].url == v);
                assert(has_url(head, v));
                let k = choose|i: int| 0 <= i < out_head.len() && #[trigger] out_head[i].url == v;
                assert(out[k].url == v);
            } else {
                assert(tbl.last().url == v);
                assert(out.last().url == v);
            }
        }
        assert forall|v: Seq<char>| v != url && has_url(out, v) implies has_url(tbl, v) by {
            let w = choose|i: int| 0 <= i < out.len() && #[trigger] out[i].url == v;
            if tbl.last().url != url && w == out.len() - 1 {
                assert(tbl.last().url == v);
            } else {
                assert(out_head[w].url == v);
                assert(has_url(head, v));
                let k = choose|i: int| 0 <= i < head.len() && #[trigger] head[i].url == v;
                assert(tbl[k].url == v);
            }
        }
        if tbl.last().url != url {
            assert forall|i: int| 0 <= i < out.len() implies #[trigger] out[i].url != url by {
                if i < out.len() - 1 {
                    assert(out_head[i].url != url);
                }
            }
        }
    }
}

/// The persistent table of pastes.
///
/// The in-memory representation keeps the records in insertion order, the
/// way a relational table scan would return them.
pub struct Database {
    pastes: Vec<DatabasePaste>,
}

impl View for Database {
    type V = Seq<PasteModel>;

    closed spec fn view(&self) -> Seq<PasteModel> {
        Seq::new(self.pastes@.len() as nat, |i: int| self.pastes@[i]@)
    }
}

/// Opens the paste store, initially empty; other database helper functions
/// operate on the handle it returns.
pub fn init_database() -> (db: Database)
    ensures
        db@ == Seq::<PasteModel>::empty(),
{
    let db = Database { pastes: Vec::new() };
    proof {
        assert(db@ =~= Seq::<PasteModel>::empty());
    }
    db
}

/// Creates a new paste record: the record is appended to the table, with no
/// uniqueness check of its own (the manager is responsible for the
/// pre-check).
pub fn insert_paste(db: &mut Database, paste: DatabasePaste) -> (r: Result<(), DatabaseError>)
    ensures
        r is Ok,
        final(db)@ == old(db)@.push(paste@),
{
    let ghost expected = old(db)@.push(paste@);
    db.pastes.push(paste);
    proof {
        assert(db@ =~= expected);
    }
    Ok(())
}

/// Fetches the first paste record whose URL matches, or reports `NotFound`.
pub fn retrieve_paste(db: &Database, url: &String) -> (r: Result<DatabasePaste, DatabaseError>)
    ensures
        match r {
            Ok(p) => find_url(db@, url@) >= 0 && p@ == db@[find_url(db@, url@)],
            Err(e) => e == DatabaseError::NotFound && !has_url(db@, url@),
        },
{
    proof {
        lemma_find_url(db@, url@);
    }
    let n = db.pastes.len();
    let mut i: usize = 0;
    while i < n
        invariant
            n == db.pastes@.len(),
            i <= n,
            forall|j: int| 0 <= j < i ==> #[trigger] db@[j].url != url@,
            find_url(db@, url@) == -1 || find_url(db@, url@) >= i,
        decreases n - i,
    {
        proof {
            lemma_find_url(db@, url@);
        }
        if db.pastes[i].url == *url {
            proof {
                assert(db@[i as int] == db.pastes@[i as int]@);
                assert(db@[i as int].url == url@);
                assert(has_url(db@, url@));
                assert(find_url(db@, url@) == i);
            }
            return Ok(db.pastes[i].clone());
        }
        i = i + 1;
    }
    assert(!has_url(db@, url@));
    Err(DatabaseError::NotFound)
}

/// Updates every paste record matching `url`, replacing its mutable fields;
/// succeeds silently when no record matches.
pub fn update_paste(db: &mut Database, url: String, paste: PartialDatabasePaste) -> (r: Result<
    (),
    DatabaseError,
>)
    ensures
        r is Ok,
        final(db)@ == apply_update(old(db)@, url@, paste@),
{
    let ghost t0 = old(db)@;
    let n = db.pastes.len();
    let mut out: Vec<DatabasePaste> = Vec::new();
    let mut i: usize = 0;
    while i < n
        invariant
            n == db.pastes@.len(),
            i <= n,
            db@ == t0,
            out@.len() == i,
            forall|j: int| 0 <= j < i ==> #[trigger] out@[j]@ == apply_update(t0, url@, paste@)[j],
        decreases n - i,
    {
        let rec = &db.pastes[i];
        if rec.url == url {
            out.push(
                DatabasePaste {
                    id: rec.id,
                    url: paste.url.clone(),
                    content: paste.content.clone(),
                    password_hash: paste.password_hash.clone(),
                    date_published: rec.date_published,
                    date_edited: paste.date_edited,
                },
            );
        } else {
            out.push(rec.clone());
        }
        i = i + 1;
    }
    db.pastes = out;
    proof {
        assert(db@ =~= apply_update(t0, url@, paste@));
    }
    Ok(())
}

/// Deletes every paste record matching `url`; succeeds silently when no
/// record matches.
pub fn delete_paste(db: &mut Database, url: &String) -> (r: Result<(), DatabaseError>)
    ensures
        r is Ok,
        final(db)@ == remove_url(old(db)@, url@),
{
    let ghost t0 = old(db)@;
    let n = db.pastes.len();
    let mut out: Vec<DatabasePaste> = Vec::new();
    let mut i: usize = 0;
    while i < n
        invariant
            n == db.pastes@.len(),
            i <= n,
            db@ == t0,
            out@.len() == remove_url(t0.take(i as int), url@).len(),
            forall|j: int| 0 <= j < out@.len() ==> #[trigger] out@[j]@ == remove_url(
                t0.take(i as int),
                url@,
            )[j],
        decreases n - i,
    {
        proof {
            assert(t0.take(i + 1).drop_last() =~= t0.take(i as int));
            assert(t0.take(i + 1).last() == t0[i as int]);
        }
        let rec = &db.pastes[i];
        if rec.url == *url {
            assert(remove_url(t0.take(i + 1), url@) == remove_url(t0.take(i as int), url@));
        } else {
            out.push(rec.clone());
        }
        i = i + 1;
    }
    db.pastes = out;
    proof {
        assert(t0.take(n as int) =~= t0);
        assert(db@ =~= remove_url(t0, url@));
    }
    Ok(())
}

} // verus!
