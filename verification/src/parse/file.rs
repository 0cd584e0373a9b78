//! Accounts kept in a comma-separated file.

use crate::acc::{all_wf, Account, AccountView};
use crate::parse::record::{
    decode_record, decoded, key_in_alphabet, no_columns, schema_of, Schema,
};
use crate::parse::{AccList, DataSrc, SourceError};
use vstd::prelude::*;

verus! {

/// What the `csv` reader makes of a file's bytes: one entry for each row
/// that it reads, the header row first; the text of the row's fields, or `None`
/// for a row that it reports an error for.
pub uninterp spec fn csv_rows(data: Seq<u8>) -> Seq<Option<Seq<Seq<char>>>>;

/// Reads rows with a `csv::Reader` over the bytes, built by `ReaderBuilder`
/// with `has_headers(false)` so that `Reader::records` hands out the header
/// row too, and copies each field of each `StringRecord` into a `String`. The
/// contract names what comes out; it claims nothing more of it.
#[verifier::external_body]
fn scan_csv(data: &[u8]) -> (rows: Vec<Option<Vec<String>>>)
    ensures
        rows.deep_view() == csv_rows(data@),
{
    let mut reader = csv::ReaderBuilder::new().has_headers(false).from_reader(data);
    reader.records().map(|r| r.ok().map(|rec| rec.iter().map(String::from).collect())).collect()
}

/// The records of a table: its rows after the header.
pub open spec fn records_of(table: Seq<Option<Seq<Seq<char>>>>) -> Seq<Option<Seq<Seq<char>>>> {
    if table.len() == 0 {
        Seq::empty()
    } else {
        table.skip(1)
    }
}

/// The schema of a table: that of its header row, and one without columns
/// where the header could not be read.
pub open spec fn table_schema(table: Seq<Option<Seq<Seq<char>>>>) -> Schema {
    if table.len() > 0 && table[0] is Some {
        schema_of(table[0]->0)
    } else {
        no_columns()
    }
}

/// The account of a record: none where the row could not be read or does
/// not decode.
pub open spec fn record_account(schema: Schema, row: Option<Seq<Seq<char>>>) -> Option<
    AccountView,
> {
    match row {
        Some(fields) => decoded(schema, fields),
        None => None,
    }
}

/// `outcome` is what loading a table gives. The load succeeds where every
/// record has an account; the accounts are then the records' in their order.
/// Otherwise it fails at the first record that has none.
pub open spec fn loaded(
    table: Seq<Option<Seq<Seq<char>>>>,
    outcome: Result<Seq<AccountView>, SourceError>,
) -> bool {
    let records = records_of(table);
    let schema = table_schema(table);
    match outcome {
        Ok(accounts) => {
            &&& accounts.len() == records.len()
            &&& forall|k: int|
                0 <= k < records.len() ==> (#[trigger] record_account(schema, records[k]))
                    == Some(accounts[k])
        },
        Err(SourceError::MalformedEntry(k)) => {
            &&& k < records.len()
            &&& record_account(schema, records[k as int]) is None
            &&& forall|j: int|
                0 <= j < k ==> (#[trigger] record_account(schema, records[j])) is Some
        },
        Err(_) => false,
    }
}

/// Every record of the table was read and has its key written in base32
/// symbols alone.
pub open spec fn keys_in_alphabet(table: Seq<Option<Seq<Seq<char>>>>) -> bool {
    forall|k: int|
        0 <= k < records_of(table).len() ==> ((#[trigger] records_of(table)[k]) matches Some(
            fields,
        ) && key_in_alphabet(table_schema(table), fields))
}

/// What a loading result holds, as plain values.
pub open spec fn outcome_view(r: Result<Vec<Account>, SourceError>) -> Result<
    Seq<AccountView>,
    SourceError,
> {
    match r {
        Ok(accounts) => Ok(accounts.deep_view()),
        Err(e) => Err(e),
    }
}

/// Loading a table has one outcome only.
pub proof fn lemma_loaded_unique(
    table: Seq<Option<Seq<Seq<char>>>>,
    a: Result<Seq<AccountView>, SourceError>,
    b: Result<Seq<AccountView>, SourceError>,
)
    requires
        loaded(table, a),
        loaded(table, b),
    ensures
        a == b,
{
    let records = records_of(table);
    let schema = table_schema(table);
    match (a, b) {
        (Ok(x), Ok(y)) => {
            assert forall|k: int| 0 <= k < x.len() implies x[k] == y[k] by {
                assert(record_account(schema, records[k]) == Some(x[k]));
                assert(record_account(schema, records[k]) == Some(y[k]));
            }
            assert(x =~= y);
        },
        (Ok(x), Err(SourceError::MalformedEntry(k))) => {
            assert(record_account(schema, records[k as int]) == Some(x[k as int]));
        },
        (Err(SourceError::MalformedEntry(k)), Ok(y)) => {
            assert(record_account(schema, records[k as int]) == Some(y[k as int]));
        },
        (Err(SourceError::MalformedEntry(j)), Err(SourceError::MalformedEntry(k))) => {
            if j < k {
                assert(record_account(schema, records[j as int]) is Some);
            }
            if k < j {
                assert(record_account(schema, records[k as int]) is Some);
            }
        },
        _ => {},
    }
}

/// A load that hands out accounts hands out one for each record, and each
/// can be shown: no list is partial.
pub proof fn lemma_loaded_whole(table: Seq<Option<Seq<Seq<char>>>>, accounts: Seq<AccountView>)
    requires
        loaded(table, Ok(accounts)),
    ensures
        accounts.len() == records_of(table).len(),
        forall|k: int| 0 <= k < accounts.len() ==> (#[trigger] accounts[k]).valid(),
{
    let records = records_of(table);
    let schema = table_schema(table);
    assert forall|k: int| 0 <= k < accounts.len() implies (#[trigger] accounts[k]).valid() by {
        assert(record_account(schema, records[k]) == Some(accounts[k]));
    }
}

/// A table with a record that could not be read, or that does not decode,
/// does not load: the failure names a record.
pub proof fn lemma_one_bad_record_fails_all(
    table: Seq<Option<Seq<Seq<char>>>>,
    outcome: Result<Seq<AccountView>, SourceError>,
    k: int,
)
    requires
        loaded(table, outcome),
        0 <= k < records_of(table).len(),
        record_account(table_schema(table), records_of(table)[k]) is None,
    ensures
        outcome matches Err(SourceError::MalformedEntry(first)) && first <= k,
{
    match outcome {
        Ok(accounts) => {
            assert(record_account(table_schema(table), records_of(table)[k]) == Some(accounts[k]));
        },
        Err(SourceError::MalformedEntry(first)) => {
            if k < first {
                assert(record_account(table_schema(table), records_of(table)[k]) is Some);
            }
        },
        Err(_) => {},
    }
}

/// Turns the rows of a table into accounts, or names the first record that
/// stands in the way.
pub fn accounts_from_table(rows: &Vec<Option<Vec<String>>>) -> (r: Result<
    Vec<Account>,
    SourceError,
>)
    ensures
        loaded(rows.deep_view(), outcome_view(r)),
        r matches Ok(accounts) ==> all_wf(accounts@),
        r is Ok ==> keys_in_alphabet(rows.deep_view()),
{
    let ghost table: Seq<Option<Seq<Seq<char>>>> = rows.deep_view();
    let ghost records: Seq<Option<Seq<Seq<char>>>> = records_of(table);
    let mut accounts: Vec<Account> = Vec::new();
    if rows.len() == 0 {
        assert(accounts.deep_view() =~= Seq::<AccountView>::empty());
        return Ok(accounts);
    }
    assert(rows@[0].deep_view() == table[0]);
    let schema: Schema = match &rows[0] {
        Some(header) => Schema::of(header),
        None => Schema::none(),
    };
    let mut k: usize = 1;
    while k < rows.len()
        invariant
            1 <= k <= rows@.len(),
            table == rows.deep_view(),
            records == records_of(table),
            schema == table_schema(table),
            accounts@.len() == k - 1,
            all_wf(accounts@),
            forall|j: int|
                0 <= j < k - 1 ==> (#[trigger] record_account(schema, records[j])) == Some(
                    accounts@[j]@,
                ),
            forall|j: int|
                0 <= j < k - 1 ==> ((#[trigger] records[j]) matches Some(fields)
                    && key_in_alphabet(schema, fields)),
        decreases rows@.len() - k,
    {
        assert(rows@[k as int].deep_view() == records[k - 1]);
        let decoded: Option<Account> = match &rows[k] {
            Some(fields) => decode_record(&schema, fields),
            None => None,
        };
        match decoded {
            Some(account) => {
                accounts.push(account);
            },
            None => {
                return Err(SourceError::MalformedEntry(k - 1));
            },
        }
        k += 1;
    }
    assert(accounts.deep_view().len() == records.len());
    Ok(accounts)
}

/// Reads the accounts out of the bytes of a comma-separated file.
pub fn parse_accounts(data: &[u8]) -> (r: Result<Vec<Account>, SourceError>)
    ensures
        loaded(csv_rows(data@), outcome_view(r)),
        r matches Ok(accounts) ==> all_wf(accounts@),
        r is Ok ==> keys_in_alphabet(csv_rows(data@)),
{
    let rows: Vec<Option<Vec<String>>> = scan_csv(data);
    accounts_from_table(&rows)
}

/// The descriptor of a file source: a fixed note for the default store,
/// else the file's name, or a note where the path has none.
pub open spec fn origin_of(is_default_store: bool, file_name: Option<Seq<char>>) -> DataSrc<
    Seq<char>,
> {
    if is_default_store {
        DataSrc::Msg("<default store>"@)
    } else {
        match file_name {
            Some(name) => DataSrc::Filename(name),
            None => DataSrc::Msg("<no source available>"@),
        }
    }
}

/// Reads accounts from a comma-separated file: a header row that names the
/// columns `name`, `acc_id`, `key` and `interv`, then one record per account.
pub struct CsvParser {
    file_name: Option<String>,
    is_default_store: bool,
    password: Option<String>,
    contents: Option<Vec<u8>>,
}

impl CsvParser {
    /// The last component of the file's path, where it has one.
    pub closed spec fn file_name(&self) -> Option<Seq<char>> {
        self.file_name.deep_view()
    }

    /// Whether the file is the default store.
    pub closed spec fn is_default_store(&self) -> bool {
        self.is_default_store
    }

    /// The password that was given for the file.
    pub closed spec fn password(&self) -> Option<Seq<char>> {
        self.password.deep_view()
    }

    /// The bytes of the file, once it has been read.
    pub closed spec fn contents(&self) -> Option<Seq<u8>> {
        match self.contents {
            Some(data) => Some(data@),
            None => None,
        }
    }

    /// Creates a parser for the file whose path ends in `pt`. The file's
    /// bytes are not known yet.
    pub fn new(pt: Option<String>, store_typ: bool, key: Option<String>) -> (parser: Self)
        ensures
            parser.file_name() == pt.deep_view(),
            parser.is_default_store() == store_typ,
            parser.password() == key.deep_view(),
            parser.contents() is None,
    {
        Self { file_name: pt, is_default_store: store_typ, password: key, contents: None }
    }

    /// Hands the parser the bytes that were read from the file.
    pub fn attach(&mut self, data: Vec<u8>)
        ensures
            final(self).contents() == Some(data@),
            final(self).file_name() == old(self).file_name(),
            final(self).is_default_store() == old(self).is_default_store(),
            final(self).password() == old(self).password(),
    {
        self.contents = Some(data);
    }
}

impl AccList for CsvParser {
    /// A file source hands out what loading the file's bytes gives, and is
    /// unavailable without them.
    open spec fn hands_out(&self, answer: Result<Vec<Account>, SourceError>) -> bool {
        match self.contents() {
            Some(data) => loaded(csv_rows(data), outcome_view(answer)),
            None => answer == Err::<Vec<Account>, SourceError>(SourceError::SourceUnavailable),
        }
    }

    /// A file source describes itself by its descriptor.
    open spec fn describes(&self, src: DataSrc<String>) -> bool {
        src@ == origin_of(self.is_default_store(), self.file_name())
    }

    /// The accounts of the file. Without the file's bytes the source is
    /// unavailable.
    fn get_accs(&self) -> (r: Result<Vec<Account>, SourceError>)
        ensures
            match self.contents() {
                Some(data) => loaded(csv_rows(data), outcome_view(r)),
                None => r == Err::<Vec<Account>, SourceError>(SourceError::SourceUnavailable),
            },
            r matches Ok(accounts) ==> all_wf(accounts@),
            r is Ok ==> (self.contents() matches Some(data) && keys_in_alphabet(csv_rows(data))),
    {
        match &self.contents {
            Some(data) => parse_accounts(data.as_slice()),
            None => Err(SourceError::SourceUnavailable),
        }
    }

    fn get_src(&self) -> (src: DataSrc<String>)
        ensures
            src@ == origin_of(self.is_default_store(), self.file_name()),
    {
        if self.is_default_store {
            DataSrc::Msg(String::from_str("<default store>"))
        } else {
            match &self.file_name {
                Some(name) => DataSrc::Filename(name.clone()),
                None => DataSrc::Msg(String::from_str("<no source available>")),
            }
        }
    }

    /// Writing back is not available: the call always fails and stores nothing.
    fn write_accs(&self, to_write: Vec<Account>) -> (r: Result<(), SourceError>)
        ensures
            r == Err::<(), SourceError>(SourceError::UnimplementedCapability),
    {
        Err(SourceError::UnimplementedCapability)
    }
}

} // verus!
