//! One stored record: which columns it has and what account it decodes to.

use crate::acc::{Account, AccountView};
use crate::parse::number::{field_number, parse_field_number};
use crate::parse::{base32_plugin, in_alphabet, secret_of};
use vstd::prelude::*;
use vstd::utf8::encode_utf8;

verus! {

/// Where a column of a given title stands in the header row.
#[derive(Debug, Clone, Copy, PartialEq, Eq, Structural)]
pub enum Column {
    /// No field of the header has the title.
    Absent,
    /// Exactly this field of the header has the title.
    At(usize),
    /// More than one field of the header has the title.
    Repeated,
}

/// The places of the four columns that make up an account.
#[derive(Debug, Clone, Copy, PartialEq, Eq, Structural)]
pub struct Schema {
    pub name: Column,
    pub acc_id: Column,
    pub key: Column,
    pub interv: Column,
}

/// Field `i` of the header has the title.
pub open spec fn stands_at(header: Seq<Seq<char>>, title: Seq<char>, i: int) -> bool {
    0 <= i < header.len() && header[i] == title
}

/// Where the column of a title stands in a header.
pub open spec fn column_of(header: Seq<Seq<char>>, title: Seq<char>) -> Column {
    if forall|i: int| !stands_at(header, title, i) {
        Column::Absent
    } else if exists|i: int, j: int|
        i != j && stands_at(header, title, i) && stands_at(header, title, j) {
        Column::Repeated
    } else {
        Column::At((choose|i: int| stands_at(header, title, i)) as usize)
    }
}

/// The schema of a table without a header: no column has a place.
pub open spec fn no_columns() -> Schema {
    Schema {
        name: Column::Absent,
        acc_id: Column::Absent,
        key: Column::Absent,
        interv: Column::Absent,
    }
}

/// The schema that a header row lays down.
pub open spec fn schema_of(header: Seq<Seq<char>>) -> Schema {
    Schema {
        name: column_of(header, "name"@),
        acc_id: column_of(header, "acc_id"@),
        key: column_of(header, "key"@),
        interv: column_of(header, "interv"@),
    }
}

/// The field of a row under a column; `None` where the row has none.
pub open spec fn cell(row: Seq<Seq<char>>, column: Column) -> Option<Seq<char>> {
    match column {
        Column::At(i) => if i < row.len() {
            Some(row[i as int])
        } else {
            None
        },
        _ => None,
    }
}

/// The qualifier that a field gives: none where the field is missing or blank.
pub open spec fn qualifier_of(field: Option<Seq<char>>) -> Option<Seq<char>> {
    match field {
        Some(text) => if text.len() > 0 {
            Some(text)
        } else {
            None
        },
        None => None,
    }
}

/// The interval that a field gives. A missing or blank field names none; any
/// other must write a positive number. The outer `None` is a field that does not.
pub open spec fn interval_of(field: Option<Seq<char>>) -> Option<Option<u64>> {
    match field {
        Some(text) => if text.len() == 0 {
            Some(None)
        } else {
            match field_number(encode_utf8(text)) {
                Some(secs) => if secs > 0 {
                    Some(Some(secs))
                } else {
                    None
                },
                None => None,
            }
        },
        None => Some(None),
    }
}

/// The account made of a name, a qualifier, a decoded secret and an
/// interval; `None` where the name is blank, or the secret or the interval
/// did not decode, or the secret is empty.
pub open spec fn assembled(
    name: Seq<char>,
    acc_id: Option<Seq<char>>,
    secret: Option<Seq<u8>>,
    interv: Option<Option<u64>>,
) -> Option<AccountView> {
    match (secret, interv) {
        (Some(key), Some(every)) => if name.len() > 0 && key.len() > 0 {
            Some(AccountView { name, acc_id, key, interv: every })
        } else {
            None
        },
        _ => None,
    }
}

/// The account that a row decodes to under a schema, or `None` for a row
/// that is malformed: one of the four columns is repeated, the name or the key
/// is missing or blank, the key is not base32, or the interval is no positive
/// number.
pub open spec fn decoded(schema: Schema, row: Seq<Seq<char>>) -> Option<AccountView> {
    if schema.name is Repeated || schema.acc_id is Repeated || schema.key is Repeated
        || schema.interv is Repeated {
        None
    } else {
        match (cell(row, schema.name), cell(row, schema.key)) {
            (Some(name), Some(key_text)) => assembled(
                name,
                qualifier_of(cell(row, schema.acc_id)),
                secret_of(encode_utf8(key_text)),
                interval_of(cell(row, schema.interv)),
            ),
            _ => None,
        }
    }
}

/// The key of the row is there and written in base32 symbols alone.
pub open spec fn key_in_alphabet(schema: Schema, row: Seq<Seq<char>>) -> bool {
    match cell(row, schema.key) {
        Some(key_text) => in_alphabet(encode_utf8(key_text)),
        None => false,
    }
}

/// A column has a place exactly where one field of the header, and no
/// other, has the title.
pub proof fn lemma_column_place(header: Seq<Seq<char>>, title: Seq<char>, k: int)
    requires
        0 <= k < header.len() <= usize::MAX,
    ensures
        column_of(header, title) == Column::At(k as usize) <==> (stands_at(header, title, k)
            && forall|j: int| j != k ==> !stands_at(header, title, j)),
{
    if stands_at(header, title, k) && (forall|j: int| j != k ==> !stands_at(header, title, j)) {
        let chosen: int = choose|i: int| stands_at(header, title, i);
        assert(chosen == k);
    }
    if column_of(header, title) == Column::At(k as usize) {
        let chosen: int = choose|i: int| stands_at(header, title, i);
        assert(stands_at(header, title, chosen));
        assert(chosen == k);
        assert forall|j: int| j != k implies !stands_at(header, title, j) by {
            if stands_at(header, title, j) {
                assert(j != chosen && stands_at(header, title, j) && stands_at(
                    header,
                    title,
                    chosen,
                ));
            }
        }
    }
}

/// Every account that decodes can be shown.
pub proof fn lemma_decoded_valid(schema: Schema, row: Seq<Seq<char>>)
    ensures
        decoded(schema, row) matches Some(account) ==> account.valid(),
{
}

/// Finds the column of a title in a header row.
pub fn locate_column(header: &Vec<String>, title: &str) -> (column: Column)
    ensures
        column == column_of(header.deep_view(), title@),
{
    let wanted: String = String::from_str(title);
    let ghost fields: Seq<Seq<char>> = header.deep_view();
    let mut found: Column = Column::Absent;
    let mut i: usize = 0;
    while i < header.len()
        invariant
            i <= header@.len(),
            wanted@ == title@,
            fields == header.deep_view(),
            match found {
                Column::Absent => forall|j: int| 0 <= j < i ==> !stands_at(fields, title@, j),
                Column::At(k) => k < i && stands_at(fields, title@, k as int) && forall|j: int|
                    0 <= j < i && j != k ==> !stands_at(fields, title@, j),
                Column::Repeated => exists|a: int, b: int|
                    a != b && stands_at(fields, title@, a) && stands_at(fields, title@, b),
            },
        decreases header@.len() - i,
    {
        if header[i] == wanted {
            assert(stands_at(fields, title@, i as int));
            found = match found {
                Column::Absent => Column::At(i),
                Column::At(k) => {
                    assert(k != i && stands_at(fields, title@, k as int));
                    Column::Repeated
                },
                Column::Repeated => Column::Repeated,
            };
        }
        i += 1;
    }
    proof {
        match found {
            Column::Absent => {},
            Column::At(k) => {
                assert(stands_at(fields, title@, k as int));
                let chosen: int = choose|c: int| stands_at(fields, title@, c);
                assert(chosen == k);
            },
            Column::Repeated => {},
        }
    }
    found
}

impl Schema {
    /// The schema of a table without a header.
    pub fn none() -> (schema: Schema)
        ensures
            schema == no_columns(),
    {
        Schema {
            name: Column::Absent,
            acc_id: Column::Absent,
            key: Column::Absent,
            interv: Column::Absent,
        }
    }

    /// Reads the schema off a header row.
    pub fn of(header: &Vec<String>) -> (schema: Schema)
        ensures
            schema == schema_of(header.deep_view()),
    {
        Schema {
            name: locate_column(header, "name"),
            acc_id: locate_column(header, "acc_id"),
            key: locate_column(header, "key"),
            interv: locate_column(header, "interv"),
        }
    }
}

/// The field of a row under a column, where the row has one.
pub fn field<'a>(row: &'a Vec<String>, column: Column) -> (text: Option<&'a String>)
    ensures
        text.deep_view() == cell(row.deep_view(), column),
{
    match column {
        Column::At(i) => if i < row.len() {
            Some(&row[i])
        } else {
            None
        },
        _ => None,
    }
}

/// Reads the interval out of its field.
pub fn decode_interval(text: Option<&String>) -> (interv: Option<Option<u64>>)
    ensures
        interv == interval_of(text.deep_view()),
{
    match text {
        None => Some(None),
        Some(t) => {
            if t.as_str().is_empty() {
                Some(None)
            } else {
                match parse_field_number(t.as_str().as_bytes()) {
                    Some(secs) => if secs > 0 {
                        Some(Some(secs))
                    } else {
                        None
                    },
                    None => None,
                }
            }
        },
    }
}

/// Reads the qualifier out of its field.
pub fn decode_qualifier(text: Option<&String>) -> (acc_id: Option<String>)
    ensures
        acc_id.deep_view() == qualifier_of(text.deep_view()),
{
    match text {
        None => None,
        Some(t) => if t.as_str().is_empty() {
            None
        } else {
            Some(t.clone())
        },
    }
}

/// Puts an account together from its name, its qualifier, the outcome of
/// decoding its secret and its interval.
pub fn build_account(
    name: String,
    acc_id: Option<String>,
    secret: Result<Vec<u8>, String>,
    interv: Option<Option<u64>>,
) -> (account: Option<Account>)
    ensures
        account.deep_view() == assembled(
            name@,
            acc_id.deep_view(),
            match secret {
                Ok(key) => Some(key@),
                Err(_) => None,
            },
            interv,
        ),
{
    match (secret, interv) {
        (Ok(key), Some(every)) => if name.as_str().is_empty() || key.len() == 0 {
            None
        } else {
            Some(Account { name, acc_id, key, interv: every })
        },
        _ => None,
    }
}

/// Decodes one row into an account.
pub fn decode_record(schema: &Schema, row: &Vec<String>) -> (account: Option<Account>)
    ensures
        account.deep_view() == decoded(*schema, row.deep_view()),
        account matches Some(a) ==> a.wf(),
        account is Some ==> key_in_alphabet(*schema, row.deep_view()),
{
    let repeated: bool = match schema.name {
        Column::Repeated => true,
        _ => false,
    } || match schema.acc_id {
        Column::Repeated => true,
        _ => false,
    } || match schema.key {
        Column::Repeated => true,
        _ => false,
    } || match schema.interv {
        Column::Repeated => true,
        _ => false,
    };
    if repeated {
        return None;
    }
    match (field(row, schema.name), field(row, schema.key)) {
        (Some(name), Some(key_text)) => {
            let secret: Result<Vec<u8>, String> = base32_plugin(key_text.clone());
            build_account(
                name.clone(),
                decode_qualifier(field(row, schema.acc_id)),
                secret,
                decode_interval(field(row, schema.interv)),
            )
        },
        _ => None,
    }
}

} // verus!
