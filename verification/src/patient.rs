//! The patient record, its row of text fields, and its entry from typed lines.

use crate::decimal::{decimal, format_u32, lemma_parse_decimal, parse_decimal, parse_u32};
use crate::text::{trim, trimmed};
use vstd::prelude::*;

verus! {

/// One registration. Every field is always present; text fields may be empty.
#[derive(Debug, Clone, PartialEq, Eq)]
pub struct Patient {
    pub name: String,
    pub age: u32,
    pub disease: String,
    pub contact: String,
    pub admission_date: String,
}

/// A patient as plain values.
pub struct PatientView {
    pub name: Seq<char>,
    pub age: nat,
    pub disease: Seq<char>,
    pub contact: Seq<char>,
    pub admission_date: Seq<char>,
}

impl View for Patient {
    type V = PatientView;

    open spec fn view(&self) -> PatientView {
        PatientView {
            name: self.name@,
            age: self.age as nat,
            disease: self.disease@,
            contact: self.contact@,
            admission_date: self.admission_date@,
        }
    }
}

/// Why a row of fields is no patient.
#[derive(Debug, Clone, Copy, PartialEq, Eq)]
pub enum RowFault {
    /// The row has `found` fields where five are due.
    FieldCount { found: usize },
    /// The second field is no unsigned decimal number that fits the age.
    Age,
}

/// Why typed lines are no patient.
#[derive(Debug, Clone, Copy, PartialEq, Eq)]
pub enum InputError {
    /// The age line, once trimmed, is no unsigned decimal number that fits.
    InvalidAge,
}

/// The number of fields in a row.
pub const FIELD_COUNT: usize = 5;

/// The views of a sequence of patients.
pub open spec fn views(patients: Seq<Patient>) -> Seq<PatientView> {
    patients.map_values(|p: Patient| p@)
}

/// The row of a patient: name, age in decimal, disease, contact, admission date.
pub open spec fn row_fields(p: PatientView) -> Seq<Seq<char>> {
    seq![p.name, decimal(p.age), p.disease, p.contact, p.admission_date]
}

/// The patient that a row denotes, or why it denotes none.
pub open spec fn row_record(row: Seq<Seq<char>>) -> Result<PatientView, RowFault> {
    if row.len() != FIELD_COUNT {
        Err(RowFault::FieldCount { found: row.len() as usize })
    } else {
        match parse_u32(row[1]) {
            Some(age) => Ok(
                PatientView {
                    name: row[0],
                    age: age as nat,
                    disease: row[2],
                    contact: row[3],
                    admission_date: row[4],
                },
            ),
            None => Err(RowFault::Age),
        }
    }
}

/// The patient that five typed lines denote: each line trimmed, the age read
/// as an unsigned decimal number.
pub open spec fn input_record(
    name: Seq<char>,
    age: Seq<char>,
    disease: Seq<char>,
    contact: Seq<char>,
    admission_date: Seq<char>,
) -> Result<PatientView, InputError> {
    match parse_u32(trimmed(age)) {
        Some(age) => Ok(
            PatientView {
                name: trimmed(name),
                age: age as nat,
                disease: trimmed(disease),
                contact: trimmed(contact),
                admission_date: trimmed(admission_date),
            },
        ),
        None => Err(InputError::InvalidAge),
    }
}

/// A patient's row denotes that patient again, whatever its fields hold and
/// for every age from zero to the largest.
pub proof fn lemma_row_round_trip(p: PatientView)
    requires
        p.age <= u32::MAX,
    ensures
        row_record(row_fields(p)) == Ok::<PatientView, RowFault>(p),
{
    lemma_parse_decimal(p.age as u32);
}

impl Patient {
    /// Builds a patient from the five lines as typed, in the order name, age,
    /// disease, contact, admission date.
    pub fn from_input(
        name: &str,
        age: &str,
        disease: &str,
        contact: &str,
        admission_date: &str,
    ) -> (res: Result<Patient, InputError>)
        ensures
            match res {
                Ok(p) => input_record(name@, age@, disease@, contact@, admission_date@) == Ok::<
                    PatientView,
                    InputError,
                >(p@),
                Err(e) => input_record(name@, age@, disease@, contact@, admission_date@) == Err::<
                    PatientView,
                    InputError,
                >(e),
            },
    {
        match parse_decimal(trim(age)) {
            Some(age) => Ok(
                Patient {
                    name: trim(name).to_owned(),
                    age,
                    disease: trim(disease).to_owned(),
                    contact: trim(contact).to_owned(),
                    admission_date: trim(admission_date).to_owned(),
                },
            ),
            None => Err(InputError::InvalidAge),
        }
    }

    /// The row that stands for this patient.
    pub fn to_fields(&self) -> (row: Vec<String>)
        ensures
            row.deep_view() == row_fields(self@),
    {
        let mut row: Vec<String> = Vec::new();
        row.push(self.name.clone());
        row.push(format_u32(self.age));
        row.push(self.disease.clone());
        row.push(self.contact.clone());
        row.push(self.admission_date.clone());
        assert(row.deep_view() =~= row_fields(self@));
        row
    }

    /// Reads a patient back from a row.
    pub fn from_fields(row: &Vec<String>) -> (res: Result<Patient, RowFault>)
        ensures
            match res {
                Ok(p) => row_record(row.deep_view()) == Ok::<PatientView, RowFault>(p@),
                Err(fault) => row_record(row.deep_view()) == Err::<PatientView, RowFault>(fault),
            },
    {
        if row.len() != FIELD_COUNT {
            return Err(RowFault::FieldCount { found: row.len() });
        }
        assert(row.deep_view()[0] == row@[0]@);
        assert(row.deep_view()[1] == row@[1]@);
        assert(row.deep_view()[2] == row@[2]@);
        assert(row.deep_view()[3] == row@[3]@);
        assert(row.deep_view()[4] == row@[4]@);
        match parse_decimal(row[1].as_str()) {
            Some(age) => Ok(
                Patient {
                    name: row[0].clone(),
                    age,
                    disease: row[2].clone(),
                    contact: row[3].clone(),
                    admission_date: row[4].clone(),
                },
            ),
            None => Err(RowFault::Age),
        }
    }
}

} // verus!
