//! Tabular text at the program's two boundaries, through the `csv` crate:
//! reading the bulk-blocking batch input, and encoding contributor output
//! rows.
//!
//! The crate's parser and encoder are trusted at their interface: their
//! results are named (`csv_rows`, `csv_line`) as functions of their input
//! alone, and everything around the calls — picking each row's first field,
//! assembling a row's fields — is verified.

use vstd::prelude::*;

use crate::aggregate::ContributorSummary;
use crate::enrich::Enrichment;
use crate::error::InputError;
use crate::render::basic_row_fields;
use crate::render::enriched_row_fields;
use crate::render::spec_bool_token;
use crate::render::spec_i64_digits;
use crate::render::spec_u64_digits;

verus! {

/// What the tabular-text parser makes of an input: the fields of every data
/// record, after the header row, or nothing when the input is malformed. A
/// function of the input bytes alone.
pub uninterp spec fn csv_rows(input: Seq<u8>) -> Option<Seq<Seq<Seq<char>>>>;

/// Relies on csv::Reader (default configuration: first row is a header and
/// is skipped): parses tabular text into its data records' fields.
#[verifier::external_body]
fn parse_rows_raw(input: &[u8]) -> (r: Result<Vec<Vec<String>>, InputError>)
    ensures
        r is Ok <==> csv_rows(input@) is Some,
        r is Ok ==> (r->Ok_0)@.map_values(
            |row: Vec<String>| row@.map_values(|f: String| f@),
        ) == csv_rows(input@)->0,
        r is Err ==> r->Err_0 == InputError::MalformedBatchInput,
{
    let mut reader = csv::Reader::from_reader(input);
    let mut out: Vec<Vec<String>> = Vec::new();
    for record in reader.records() {
        match record {
            Ok(rec) => out.push(rec.iter().map(|f| f.to_string()).collect()),
            Err(_) => return Err(InputError::MalformedBatchInput),
        }
    }
    Ok(out)
}

/// What the tabular-text encoder makes of one record's fields: the encoded
/// line, default quoting, record terminator included. A function of the
/// fields alone.
pub uninterp spec fn csv_line(fields: Seq<Seq<char>>) -> Seq<u8>;

/// Relies on csv::Writer (default configuration): encodes one record.
#[verifier::external_body]
fn write_row_raw(fields: &Vec<String>) -> (r: Vec<u8>)
    ensures
        r@ == csv_line(fields@.map_values(|f: String| f@)),
{
    let mut writer = csv::Writer::from_writer(Vec::new());
    let _ = writer.write_record(fields);
    match writer.into_inner() {
        Ok(bytes) => bytes,
        Err(_) => Vec::new(),
    }
}

/// The first field of every non-empty row, in row order.
pub open spec fn spec_first_fields(rows: Seq<Seq<Seq<char>>>) -> Seq<Seq<char>>
    decreases rows.len(),
{
    if rows.len() == 0 {
        Seq::empty()
    } else if rows.last().len() >= 1 {
        spec_first_fields(rows.drop_last()).push(rows.last()[0])
    } else {
        spec_first_fields(rows.drop_last())
    }
}

/// Reads the bulk-blocking batch input: one login per data row, taken from
/// the row's first field, every other field ignored. Fails exactly when the
/// tabular text itself is malformed.
#[verifier::loop_isolation(false)]
pub fn batch_logins(input: &[u8]) -> (r: Result<Vec<String>, InputError>)
    ensures
        r is Ok <==> csv_rows(input@) is Some,
        r is Ok ==> (r->Ok_0)@.map_values(|s: String| s@) == spec_first_fields(
            csv_rows(input@)->0,
        ),
        r is Err ==> r->Err_0 == InputError::MalformedBatchInput,
{
    let rows = match parse_rows_raw(input) {
        Ok(rows) => rows,
        Err(e) => {
            return Err(e);
        },
    };
    let ghost all = rows@.map_values(|row: Vec<String>| row@.map_values(|f: String| f@));
    let mut out: Vec<String> = Vec::new();
    let mut i: usize = 0;
    while i < rows.len()
        invariant
            i <= rows.len(),
            out@.map_values(|s: String| s@) == spec_first_fields(all.take(i as int)),
        decreases rows.len() - i,
    {
        proof {
            assert(all[i as int] == rows@[i as int]@.map_values(|f: String| f@));
            assert(all.take(i + 1).drop_last() =~= all.take(i as int));
            assert(all.take(i + 1).last() == all[i as int]);
        }
        let row = &rows[i];
        if row.len() > 0 {
            let field = row[0].clone();
            proof {
                assert(field@ == all[i as int][0]);
            }
            out.push(field);
        }
        proof {
            assert(out@.map_values(|s: String| s@) =~= spec_first_fields(all.take(i + 1)));
        }
        i = i + 1;
    }
    proof {
        assert(all.take(i as int) =~= all);
    }
    Ok(out)
}

/// Encodes one contributor row without enrichment: `login,id,count`.
pub fn render_basic_row(s: &ContributorSummary) -> (r: Vec<u8>)
    ensures
        r@ == csv_line(
            seq![s.login@, spec_u64_digits(s.id as nat), spec_u64_digits(s.count as nat)],
        ),
{
    let fields = basic_row_fields(s);
    let out = write_row_raw(&fields);
    proof {
        assert(fields@.map_values(|f: String| f@) =~= seq![
            s.login@,
            spec_u64_digits(s.id as nat),
            spec_u64_digits(s.count as nat),
        ]);
    }
    out
}

/// Encodes one enriched contributor row:
/// `login,id,count,age,name,you_follow,follows_you,handle`.
pub fn render_enriched_row(s: &ContributorSummary, e: &Enrichment) -> (r: Vec<u8>)
    ensures
        r@ == csv_line(
            seq![
                s.login@,
                spec_u64_digits(s.id as nat),
                spec_u64_digits(s.count as nat),
                spec_i64_digits(e.age_days as int),
                e.display_name@,
                spec_bool_token(e.you_follow),
                spec_bool_token(e.follows_you),
                e.twitter_handle@,
            ],
        ),
{
    let fields = enriched_row_fields(s, e);
    let out = write_row_raw(&fields);
    proof {
        assert(fields@.map_values(|f: String| f@) =~= seq![
            s.login@,
            spec_u64_digits(s.id as nat),
            spec_u64_digits(s.count as nat),
            spec_i64_digits(e.age_days as int),
            e.display_name@,
            spec_bool_token(e.you_follow),
            spec_bool_token(e.follows_you),
            e.twitter_handle@,
        ]);
    }
    out
}

} // verus!
