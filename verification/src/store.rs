//! The record store: an append-only log of CSV rows held as bytes, and the
//! linear search over it. Reading and writing the CSV text itself is the work
//! of the `csv` crate; what a row means is decided here.

use crate::patient::{
    lemma_row_round_trip, row_fields, row_record, views, Patient, PatientView, RowFault,
};
use crate::decimal::decimal;
use crate::line::{is_plain, lemma_decimal_written, lemma_joined_five, lemma_plain_field_written};
use crate::rows::{csv_rows, read_rows, utf8_fields, write_row, written_field, written_line};
use crate::text::{chars_of, contains_chars, is_substring, lemma_substring_reflexive};
use vstd::prelude::*;
use vstd::utf8::encode_utf8;

verus! {

/// Why the store could not do what was asked.
#[derive(Debug, Clone, Copy, PartialEq, Eq)]
pub enum StoreError {
    /// The log is not CSV text that the reader accepts.
    Malformed,
    /// Row `row` of the log, counted from zero, is no patient.
    Row { row: usize, fault: RowFault },
    /// The writer refused the record.
    Unwritable,
}

/// `term` is a substring of the patient's name or of the patient's contact.
pub open spec fn matches(p: PatientView, term: Seq<char>) -> bool {
    is_substring(term, p.name) || is_substring(term, p.contact)
}

/// The test that a search for `term` applies to each record.
pub open spec fn matcher(term: Seq<char>) -> spec_fn(PatientView) -> bool {
    |p: PatientView| matches(p, term)
}

/// The patients that the rows denote, in row order; the first row that
/// denotes none decides the error.
pub open spec fn decode_rows(rows: Seq<Seq<Seq<char>>>) -> Result<Seq<PatientView>, StoreError>
    decreases rows.len(),
{
    if rows.len() == 0 {
        Ok(Seq::empty())
    } else {
        match decode_rows(rows.drop_last()) {
            Err(e) => Err(e),
            Ok(records) => match row_record(rows.last()) {
                Ok(p) => Ok(records.push(p)),
                Err(fault) => Err(StoreError::Row { row: (rows.len() - 1) as usize, fault }),
            },
        }
    }
}

/// What a search for `term` finds in rows: the matching patients in row
/// order, provided that every row denotes a patient.
pub open spec fn found_in_rows(rows: Seq<Seq<Seq<char>>>, term: Seq<char>) -> Result<
    Seq<PatientView>,
    StoreError,
> {
    match decode_rows(rows) {
        Ok(records) => Ok(records.filter(matcher(term))),
        Err(e) => Err(e),
    }
}

/// What a search for `term` finds in a log of bytes.
pub open spec fn found_in_log(log: Seq<u8>, term: Seq<char>) -> Result<
    Seq<PatientView>,
    StoreError,
> {
    match csv_rows(log) {
        Some(rows) => found_in_rows(rows, term),
        None => Err(StoreError::Malformed),
    }
}

/// Rows decode exactly when each of them denotes a patient, and then to those
/// patients, one per row and in row order.
pub proof fn lemma_decode_rows_ok(rows: Seq<Seq<Seq<char>>>)
    ensures
        decode_rows(rows) is Ok <==> forall|i: int|
            0 <= i < rows.len() ==> (#[trigger] row_record(rows[i])) is Ok,
        decode_rows(rows) matches Ok(records) ==> records.len() == rows.len() && forall|i: int|
            0 <= i < rows.len() ==> row_record(rows[i]) == Ok::<PatientView, RowFault>(
                #[trigger] records[i],
            ),
    decreases rows.len(),
{
    if rows.len() > 0 {
        let front = rows.drop_last();
        lemma_decode_rows_ok(front);
        assert forall|i: int| 0 <= i < front.len() implies front[i] == rows[i] by {}
        if decode_rows(rows) is Ok {
            assert forall|i: int| 0 <= i < rows.len() implies (#[trigger] row_record(
                rows[i],
            )) is Ok by {
                if i < front.len() {
                    assert(front[i] == rows[i]);
                }
            }
        }
        if forall|i: int| 0 <= i < rows.len() ==> (#[trigger] row_record(rows[i])) is Ok {
            assert forall|i: int| 0 <= i < front.len() implies (#[trigger] row_record(
                front[i],
            )) is Ok by {
                assert(front[i] == rows[i]);
            }
            assert(row_record(rows[rows.len() - 1]) is Ok);
        }
    }
}

/// Row `i` denotes no patient, by `fault`, and every row before it denotes one.
pub open spec fn is_first_fault(rows: Seq<Seq<Seq<char>>>, i: int, fault: RowFault) -> bool {
    &&& 0 <= i < rows.len()
    &&& row_record(rows[i]) == Err::<PatientView, RowFault>(fault)
    &&& forall|j: int| 0 <= j < i ==> (#[trigger] row_record(rows[j])) is Ok
}

/// Where rows do not decode, the error names the first row that denotes no
/// patient, with that row's fault.
pub proof fn lemma_decode_rows_err(rows: Seq<Seq<Seq<char>>>)
    requires
        rows.len() <= usize::MAX,
    ensures
        match decode_rows(rows) {
            Ok(_) => true,
            Err(StoreError::Row { row, fault }) => is_first_fault(rows, row as int, fault),
            Err(_) => false,
        },
    decreases rows.len(),
{
    if rows.len() > 0 {
        let front = rows.drop_last();
        lemma_decode_rows_err(front);
        lemma_decode_rows_ok(front);
        assert forall|j: int| 0 <= j < front.len() implies (#[trigger] row_record(rows[j]))
            == row_record(front[j]) by {
            assert(front[j] == rows[j]);
        }
    }
}

/// An error in the first `k` rows is the error of the whole.
proof fn lemma_decode_rows_err_prefix(rows: Seq<Seq<Seq<char>>>, k: int)
    requires
        0 <= k <= rows.len(),
        decode_rows(rows.take(k)) is Err,
    ensures
        decode_rows(rows) == decode_rows(rows.take(k)),
    decreases rows.len() - k,
{
    if k == rows.len() {
        assert(rows.take(k) =~= rows);
    } else {
        assert(rows.drop_last().take(k) =~= rows.take(k));
        lemma_decode_rows_err_prefix(rows.drop_last(), k);
    }
}

/// One more row at the end of the log adds at most one patient, at the end
/// of what a search finds: the patients found before stay, in their order.
pub proof fn lemma_search_after_append(
    rows: Seq<Seq<Seq<char>>>,
    p: PatientView,
    term: Seq<char>,
)
    requires
        p.age <= u32::MAX,
    ensures
        found_in_rows(rows.push(row_fields(p)), term) == match found_in_rows(rows, term) {
            Ok(found) => Ok::<Seq<PatientView>, StoreError>(
                if matches(p, term) {
                    found.push(p)
                } else {
                    found
                },
            ),
            Err(e) => Err(e),
        },
{
    let longer = rows.push(row_fields(p));
    assert(longer.drop_last() =~= rows);
    assert(longer.last() == row_fields(p));
    lemma_row_round_trip(p);
    if let Ok(records) = decode_rows(rows) {
        reveal(Seq::filter);
        assert(records.push(p).drop_last() =~= records);
    }
}

/// A search of a log that holds one patient's row, for that patient's name
/// or contact, finds exactly that patient with every field as it was.
pub proof fn lemma_search_finds_appended(p: PatientView, term: Seq<char>)
    requires
        p.age <= u32::MAX,
        term == p.name || term == p.contact,
    ensures
        found_in_rows(seq![row_fields(p)], term) == Ok::<Seq<PatientView>, StoreError>(seq![p]),
{
    let none = Seq::<Seq<Seq<char>>>::empty();
    lemma_search_after_append(none, p, term);
    lemma_substring_reflexive(p.name);
    lemma_substring_reflexive(p.contact);
    reveal(Seq::filter);
    assert(none.push(row_fields(p)) =~= seq![row_fields(p)]);
    assert(Seq::<PatientView>::empty().filter(matcher(term)) =~= Seq::<PatientView>::empty());
    assert(Seq::<PatientView>::empty().push(p) =~= seq![p]);
}

/// Two patients appended one after the other, both matching the term, are
/// found in the order in which they were appended.
pub proof fn lemma_search_keeps_order(first: PatientView, second: PatientView, term: Seq<char>)
    requires
        first.age <= u32::MAX,
        second.age <= u32::MAX,
        matches(first, term),
        matches(second, term),
    ensures
        found_in_rows(seq![row_fields(first), row_fields(second)], term) == Ok::<
            Seq<PatientView>,
            StoreError,
        >(seq![first, second]),
{
    let none = Seq::<Seq<Seq<char>>>::empty();
    let one = none.push(row_fields(first));
    lemma_search_after_append(none, first, term);
    lemma_search_after_append(one, second, term);
    reveal(Seq::filter);
    assert(Seq::<PatientView>::empty().filter(matcher(term)) =~= Seq::<PatientView>::empty());
    assert(one.push(row_fields(second)) =~= seq![row_fields(first), row_fields(second)]);
    assert(Seq::<PatientView>::empty().push(first).push(second) =~= seq![first, second]);
}

impl Patient {
    /// Whether `term` is a substring of the name or of the contact.
    pub fn matches(&self, term: &str) -> (hit: bool)
        ensures
            hit == matches(self@, term@),
    {
        let needle = chars_of(term);
        self.matches_chars(&needle)
    }

    /// The same test, for a term that is already split into characters.
    fn matches_chars(&self, needle: &Vec<char>) -> (hit: bool)
        ensures
            hit == matches(self@, needle@),
    {
        let name = chars_of(self.name.as_str());
        if contains_chars(&name, needle) {
            return true;
        }
        let contact = chars_of(self.contact.as_str());
        contains_chars(&contact, needle)
    }
}

/// Searches rows of fields, such as the reader hands out, for the patients
/// whose name or contact holds `term`. The result keeps the order of the
/// rows. A row that denotes no patient fails the whole search: the error
/// names the first such row.
pub fn search_rows(rows: &Vec<Vec<String>>, term: &str) -> (res: Result<Vec<Patient>, StoreError>)
    ensures
        match res {
            Ok(found) => found_in_rows(rows.deep_view(), term@) == Ok::<
                Seq<PatientView>,
                StoreError,
            >(views(found@)),
            Err(e) => found_in_rows(rows.deep_view(), term@) == Err::<Seq<PatientView>, StoreError>(
                e,
            ),
        },
{
    let needle = chars_of(term);
    let mut found: Vec<Patient> = Vec::new();
    let ghost all = rows.deep_view();
    let ghost mut records: Seq<PatientView> = Seq::empty();
    let n: usize = rows.len();
    let mut i: usize = 0;
    proof {
        reveal(Seq::filter);
        assert(all.take(0) =~= Seq::<Seq<Seq<char>>>::empty());
        assert(views(found@) =~= records.filter(matcher(term@)));
    }
    while i < n
        invariant
            i <= n,
            n == rows@.len(),
            all == rows.deep_view(),
            needle@ == term@,
            decode_rows(all.take(i as int)) == Ok::<Seq<PatientView>, StoreError>(records),
            views(found@) == records.filter(matcher(term@)),
        decreases n - i,
    {
        proof {
            assert(all.take(i + 1).drop_last() =~= all.take(i as int));
            assert(all.take(i + 1).last() == rows@[i as int].deep_view());
        }
        match Patient::from_fields(&rows[i]) {
            Err(fault) => {
                proof {
                    lemma_decode_rows_err_prefix(all, i + 1);
                }
                return Err(StoreError::Row { row: i, fault });
            },
            Ok(p) => {
                let hit = p.matches_chars(&needle);
                proof {
                    reveal(Seq::filter);
                    assert(records.push(p@).drop_last() =~= records);
                    if hit {
                        assert(views(found@.push(p)) =~= views(found@).push(p@));
                    }
                    records = records.push(p@);
                }
                if hit {
                    found.push(p);
                }
            },
        }
        i += 1;
    }
    assert(all.take(n as int) =~= all);
    Ok(found)
}

/// Searches the log for the patients whose name or contact holds `term`:
/// case-sensitive, character for character. The log is read as headerless
/// CSV, whole; the patients come back in the order of their rows. A log
/// without rows gives an empty result. A log that is no CSV text, or a row
/// that denotes no patient, fails the whole search.
pub fn search_patients(log: &[u8], term: &str) -> (res: Result<Vec<Patient>, StoreError>)
    ensures
        match res {
            Ok(found) => found_in_log(log@, term@) == Ok::<Seq<PatientView>, StoreError>(
                views(found@),
            ),
            Err(e) => found_in_log(log@, term@) == Err::<Seq<PatientView>, StoreError>(e),
        },
        log@.len() == 0 ==> res is Ok && res->Ok_0@.len() == 0,
{
    match read_rows(log) {
        Ok(rows) => {
            let res = search_rows(&rows, term);
            proof {
                if log@.len() == 0 {
                    reveal(Seq::filter);
                    assert(rows.deep_view() =~= Seq::<Seq<Seq<char>>>::empty());
                    assert(res is Ok);
                    assert(views(res->Ok_0@).len() == 0);
                }
            }
            res
        },
        Err(_) => Err(StoreError::Malformed),
    }
}

/// The line that stands for a patient in the log: the fields of its row in
/// UTF-8, separated by commas, quoted where they must be, and a line feed.
pub open spec fn record_line(p: PatientView) -> Seq<u8> {
    written_line(utf8_fields(row_fields(p)))
}

/// The line of a patient holds the five fields in their order, with a comma
/// between each two and a line feed at the end. The age stands in decimal and
/// never between quotes.
pub proof fn lemma_record_line_layout(p: PatientView)
    ensures
        record_line(p) == written_field(encode_utf8(p.name)) + seq![0x2Cu8] + encode_utf8(
            decimal(p.age),
        ) + seq![0x2Cu8] + written_field(encode_utf8(p.disease)) + seq![0x2Cu8] + written_field(
            encode_utf8(p.contact),
        ) + seq![0x2Cu8] + written_field(encode_utf8(p.admission_date)) + seq![0x0Au8],
{
    let fields = utf8_fields(row_fields(p));
    let name = encode_utf8(p.name);
    let age = encode_utf8(decimal(p.age));
    let disease = encode_utf8(p.disease);
    let contact = encode_utf8(p.contact);
    let admission_date = encode_utf8(p.admission_date);
    assert(fields =~= seq![name, age, disease, contact, admission_date]);
    lemma_joined_five(name, age, disease, contact, admission_date);
    lemma_decimal_written(p.age);
}

/// A patient whose text fields hold no comma, no double quote and no line
/// break is written as those fields in UTF-8, as they are, with commas
/// between them.
pub proof fn lemma_plain_record_line(p: PatientView)
    requires
        is_plain(p.name),
        is_plain(p.disease),
        is_plain(p.contact),
        is_plain(p.admission_date),
    ensures
        record_line(p) == encode_utf8(p.name) + seq![0x2Cu8] + encode_utf8(decimal(p.age)) + seq![
            0x2Cu8,
        ] + encode_utf8(p.disease) + seq![0x2Cu8] + encode_utf8(p.contact) + seq![0x2Cu8]
            + encode_utf8(p.admission_date) + seq![0x0Au8],
{
    lemma_record_line_layout(p);
    lemma_plain_field_written(p.name);
    lemma_plain_field_written(p.disease);
    lemma_plain_field_written(p.contact);
    lemma_plain_field_written(p.admission_date);
}

/// Appends the patient's row to the log as one CSV line, without a header.
/// What the log held before stays as it was. The writer does not fail on a
/// byte vector, so this succeeds on every patient.
pub fn write_to_csv(patient: &Patient, log: &mut Vec<u8>) -> (res: Result<(), StoreError>)
    ensures
        res is Ok,
        final(log)@ == old(log)@ + record_line(patient@),
{
    let fields = patient.to_fields();
    match write_row(&fields) {
        Ok(mut line) => {
            log.append(&mut line);
            Ok(())
        },
        Err(_) => Err(StoreError::Unwritable),
    }
}

} // verus!
