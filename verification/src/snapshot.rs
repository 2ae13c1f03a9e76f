use crate::database::{Database, DatabaseView};
use crate::error::DatabaseError;
use crate::items::{lists, record_views, ItemSet};
use crate::path::{database_label, database_name};
use crate::record::{Record, RecordView};
use vstd::prelude::*;

verus! {

/// `bincode::ErrorKind`, the error of the encoder and the decoder. It is
/// carried from the call to the place that turns it into a
/// [`DatabaseError`], and never looked into.
#[verifier::external_type_specification]
#[verifier::external_body]
pub struct ExErrorKind(bincode::ErrorKind);

/// The bytes that `bincode::serialize` gives for a database written as the
/// tuple of its label, its path, its flag and its records, each record a
/// tuple of its three fields; `None` where it gives an error.
pub uninterp spec fn bincode_image(
    label: Seq<char>,
    save_path: Option<Seq<char>>,
    strict_dupes: bool,
    rows: Seq<(Seq<char>, Seq<char>, Seq<char>)>,
) -> Option<Seq<u8>>;

/// The database, written as that tuple, that `bincode::deserialize` reads
/// from `bytes`; `None` where it gives an error.
pub uninterp spec fn bincode_parse(bytes: Seq<u8>) -> Option<
    (Seq<char>, Option<Seq<char>>, bool, Seq<(Seq<char>, Seq<char>, Seq<char>)>),
>;

/// `bincode::serialize` on the tuple `(label, save_path, strict_dupes, rows)`.
///
/// The result is a function of the arguments. Of the bytes it is also taken
/// on trust that `bincode::deserialize` reads the same tuple back from them:
/// both use the same fixed-width little-endian layout, in which a string is
/// its length and its bytes, an option a tag and its value, and a sequence
/// its length and its elements.
#[verifier::external_body]
pub(crate) fn serialize_store(
    label: &String,
    save_path: &Option<String>,
    strict_dupes: bool,
    rows: &Vec<(String, String, String)>,
) -> (r: Result<Vec<u8>, Box<bincode::ErrorKind>>)
    ensures
        match r {
            Ok(bytes) => {
                &&& bincode_image(label@, save_path.deep_view(), strict_dupes, rows.deep_view())
                    == Some(bytes@)
                &&& bincode_parse(bytes@) == Some(
                    (label@, save_path.deep_view(), strict_dupes, rows.deep_view()),
                )
            },
            Err(_) => bincode_image(label@, save_path.deep_view(), strict_dupes, rows.deep_view())
                is None,
        },
{
    bincode::serialize(&(label, save_path, strict_dupes, rows))
}

/// `bincode::deserialize` of `bytes` as a tuple `(label, save_path,
/// strict_dupes, rows)`. Bytes behind the tuple are ignored.
#[verifier::external_body]
pub(crate) fn deserialize_store(bytes: &[u8]) -> (r: Result<
    (String, Option<String>, bool, Vec<(String, String, String)>),
    Box<bincode::ErrorKind>,
>)
    ensures
        match r {
            Ok(parts) => bincode_parse(bytes@) == Some(
                (parts.0@, parts.1.deep_view(), parts.2, parts.3.deep_view()),
            ),
            Err(_) => bincode_parse(bytes@) is None,
        },
{
    bincode::deserialize(bytes)
}

/// The three fields of a record as they stand in an image.
pub open spec fn record_row(record: RecordView) -> (Seq<char>, Seq<char>, Seq<char>) {
    (record.uuid, record.model, record.attributes)
}

/// The record that a row of an image stands for.
pub open spec fn row_record(row: (Seq<char>, Seq<char>, Seq<char>)) -> RecordView {
    RecordView { uuid: row.0, model: row.1, attributes: row.2 }
}

/// The records that the rows of an image stand for, as a set: a row that
/// comes twice counts once.
pub open spec fn row_set(rows: Seq<(Seq<char>, Seq<char>, Seq<char>)>) -> Set<RecordView> {
    rows.map_values(|row: (Seq<char>, Seq<char>, Seq<char>)| row_record(row)).to_set()
}

/// `rows` holds each member of `items` once, and nothing else.
pub open spec fn rows_list(
    rows: Seq<(Seq<char>, Seq<char>, Seq<char>)>,
    items: Set<RecordView>,
) -> bool {
    &&& rows.map_values(|row: (Seq<char>, Seq<char>, Seq<char>)| row_record(row)).no_duplicates()
    &&& row_set(rows) == items
}

/// `bytes` is an image of `db`: what the encoder gives for its fields and
/// its records in some order.
pub open spec fn is_image(bytes: Seq<u8>, db: DatabaseView) -> bool {
    exists|rows: Seq<(Seq<char>, Seq<char>, Seq<char>)>| #[trigger]
        rows_list(rows, db.items) && bincode_image(
            db.label,
            db.save_path,
            db.strict_dupes,
            rows,
        ) == Some(bytes)
}

/// The encoder refuses `db` with its records in some order.
pub open spec fn is_refused(db: DatabaseView) -> bool {
    exists|rows: Seq<(Seq<char>, Seq<char>, Seq<char>)>| #[trigger]
        rows_list(rows, db.items) && bincode_image(
            db.label,
            db.save_path,
            db.strict_dupes,
            rows,
        ) is None
}

/// The database that `bytes` is read as, if it is read as one.
pub open spec fn restored(bytes: Seq<u8>) -> Option<DatabaseView> {
    match bincode_parse(bytes) {
        Some((label, save_path, strict_dupes, rows)) => Some(
            DatabaseView { label, save_path, strict_dupes, items: row_set(rows) },
        ),
        None => None,
    }
}

/// The rows of a listing of records, in the same order.
pub open spec fn record_rows(records: Seq<&Record>) -> Seq<(Seq<char>, Seq<char>, Seq<char>)> {
    records.map_values(|r: &Record| record_row(r@))
}

/// The rows of a listing of `items` list `items` too.
pub proof fn lemma_rows_of_listing(records: Seq<&Record>, items: Set<RecordView>)
    requires
        lists(records, items),
    ensures
        rows_list(record_rows(records), items),
{
    let back = record_rows(records).map_values(
        |row: (Seq<char>, Seq<char>, Seq<char>)| row_record(row),
    );
    assert(back =~= record_views(records));
}

/// One more row in front adds its record to the set that the rows stand for.
pub proof fn lemma_row_set_grows(
    first: (Seq<char>, Seq<char>, Seq<char>),
    rest: Seq<(Seq<char>, Seq<char>, Seq<char>)>,
)
    ensures
        row_set(seq![first] + rest) == row_set(rest).insert(row_record(first)),
{
    let longer = (seq![first] + rest).map_values(
        |row: (Seq<char>, Seq<char>, Seq<char>)| row_record(row),
    );
    let shorter = rest.map_values(|row: (Seq<char>, Seq<char>, Seq<char>)| row_record(row));
    assert forall|v: RecordView| longer.contains(v) <==> (v == row_record(first)
        || shorter.contains(v)) by {
        if longer.contains(v) {
            let i = choose|i: int| 0 <= i < longer.len() && longer[i] == v;
            if i > 0 {
                assert(shorter[i - 1] == v);
            }
        }
        if shorter.contains(v) {
            let i = choose|i: int| 0 <= i < shorter.len() && shorter[i] == v;
            assert(longer[i + 1] == v);
        }
        if v == row_record(first) {
            assert(longer[0] == v);
        }
    }
    assert(row_set(seq![first] + rest) =~= row_set(rest).insert(row_record(first)));
}

/// The fields of each record, copied out in the order of `records`.
pub fn rows_of(records: &Vec<&Record>) -> (rows: Vec<(String, String, String)>)
    ensures
        rows.deep_view() == record_rows(records@),
{
    let mut rows: Vec<(String, String, String)> = Vec::new();
    let mut i: usize = 0;
    while i < records.len()
        invariant
            i <= records.len(),
            rows.len() == i,
            forall|j: int|
                0 <= j < i ==> (#[trigger] rows[j]).deep_view() == record_row(records[j]@),
        decreases records.len() - i,
    {
        let record = records[i];
        rows.push((record.uuid.clone(), record.model.clone(), record.attributes.clone()));
        i += 1;
    }
    assert(rows.deep_view() =~= record_rows(records@));
    rows
}

impl Database {
    /// The image of the database: its label, its path, its flag and all its
    /// records in one sequence of bytes, from which [`Database::from_bytes`]
    /// restores an equal database. Fails with `IOError` where the encoder
    /// gives an error.
    pub fn dump_db(&self) -> (r: Result<Vec<u8>, DatabaseError>)
        ensures
            match r {
                Ok(bytes) => is_image(bytes@, self@) && restored(bytes@) == Some(self@),
                Err(e) => e == DatabaseError::IOError && is_refused(self@),
            },
    {
        let all = self.items.records();
        let rows = rows_of(&all);
        proof {
            lemma_rows_of_listing(all@, self@.items);
        }
        match serialize_store(&self.label, &self.save_path, self.strict_dupes, &rows) {
            Ok(bytes) => Ok(bytes),
            Err(_) => Err(DatabaseError::IOError),
        }
    }

    /// A database with the given fields that holds the records of `rows`,
    /// each once.
    pub fn restore(
        label: String,
        save_path: Option<String>,
        strict_dupes: bool,
        rows: Vec<(String, String, String)>,
    ) -> (db: Database)
        ensures
            db@ == (DatabaseView {
                label: label@,
                save_path: save_path.deep_view(),
                strict_dupes,
                items: row_set(rows.deep_view()),
            }),
    {
        let ghost all = rows.deep_view();
        let mut rows = rows;
        let mut items = ItemSet::new();
        while rows.len() > 0
            invariant
                rows.len() <= all.len(),
                rows.deep_view() == all.take(rows.len() as int),
                items@ == row_set(all.skip(rows.len() as int)),
            decreases rows.len(),
        {
            let ghost before = rows.len() as int;
            let ghost done = all.skip(before);
            let ghost held = rows.deep_view();
            match rows.pop() {
                Some(row) => {
                    let record = Record { uuid: row.0, model: row.1, attributes: row.2 };
                    proof {
                        assert(held[before - 1] == row.deep_view());
                        assert(record@ == row_record(all[before - 1]));
                    }
                    items.insert(record);
                },
                None => {},
            }
            proof {
                assert(all.skip(before - 1) =~= seq![all[before - 1]] + done);
                lemma_row_set_grows(all[before - 1], done);
                assert(rows.deep_view() =~= all.take(before - 1));
            }
        }
        assert(all.skip(0) =~= all);
        Database { label, save_path, strict_dupes, items }
    }

    /// The database that `bytes` is an image of, or `CorruptData` where
    /// they are not read as one.
    pub fn from_bytes(bytes: &[u8]) -> (r: Result<Database, DatabaseError>)
        ensures
            match restored(bytes@) {
                Some(db) => r is Ok && r->Ok_0@ == db,
                None => r is Err && r->Err_0 == DatabaseError::CorruptData,
            },
    {
        match deserialize_store(bytes) {
            Ok((label, save_path, strict_dupes, rows)) => Ok(
                Database::restore(label, save_path, strict_dupes, rows),
            ),
            Err(_) => Err(DatabaseError::CorruptData),
        }
    }

    /// The database saved at `path`, or a new one where nothing is saved
    /// there yet. `stream` is what was read at the path: `None` where there
    /// is no file.
    ///
    /// With a file the database is restored from it, whatever `path` and
    /// `strict_dupes` say. Without one the new database is empty, is named
    /// after the file in `path`, has `path` as its `save_path`, and treats
    /// duplicates as `strict_dupes` says; where `path` gives no name this
    /// fails with `BadDbName`.
    pub fn auto_from(path: String, stream: Option<Vec<u8>>, strict_dupes: bool) -> (r: Result<
        Database,
        DatabaseError,
    >)
        ensures
            match stream {
                Some(bytes) => match restored(bytes@) {
                    Some(db) => r is Ok && r->Ok_0@ == db,
                    None => r is Err && r->Err_0 == DatabaseError::CorruptData,
                },
                None => match database_label(path@) {
                    Some(label) => r is Ok && r->Ok_0@ == DatabaseView::empty(
                        label,
                        Some(path@),
                        strict_dupes,
                    ),
                    None => r is Err && r->Err_0 == DatabaseError::BadDbName,
                },
            },
    {
        match stream {
            Some(bytes) => Database::from_bytes(bytes.as_slice()),
            None => {
                match database_name(path.as_str()) {
                    Ok(label) => Ok(Database::new(label, Some(path), strict_dupes)),
                    Err(e) => Err(e),
                }
            },
        }
    }

    /// The database saved in a file, from what was read there: `None`
    /// stands for a path at which there is no file, and gives
    /// `DatabaseNotFound`.
    pub fn from(stream: Option<Vec<u8>>) -> (r: Result<Database, DatabaseError>)
        ensures
            match stream {
                None => r is Err && r->Err_0 == DatabaseError::DatabaseNotFound,
                Some(bytes) => match restored(bytes@) {
                    Some(db) => r is Ok && r->Ok_0@ == db,
                    None => r is Err && r->Err_0 == DatabaseError::CorruptData,
                },
            },
    {
        match stream {
            None => Err(DatabaseError::DatabaseNotFound),
            Some(bytes) => Database::from_bytes(bytes.as_slice()),
        }
    }
}

} // verus!
