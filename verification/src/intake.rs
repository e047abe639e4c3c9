//! Taking a new patient's details line by line: the prompts in their fixed
//! order, and what each typed line does to the form.

use crate::decimal::{parse_decimal, parse_u32};
use crate::patient::{input_record, InputError, Patient, PatientView};
use crate::text::{trim, trimmed};
use vstd::prelude::*;

verus! {

/// The fields of a patient, in the order in which they are asked for and
/// stored.
#[derive(Debug, Clone, Copy, PartialEq, Eq, Structural)]
pub enum Field {
    Name,
    Age,
    Disease,
    Contact,
    AdmissionDate,
}

/// A registration under way: the field that is due next, and the fields
/// taken so far.
#[derive(Debug)]
pub struct Form {
    due: Field,
    name: String,
    age: u32,
    disease: String,
    contact: String,
}

/// A form as plain values.
pub struct FormView {
    pub due: Field,
    pub name: Seq<char>,
    pub age: nat,
    pub disease: Seq<char>,
    pub contact: Seq<char>,
}

/// What a typed line leads to.
#[derive(Debug)]
pub enum Step {
    /// The line was taken; the form asks for the next field.
    More(Form),
    /// The line was the last one; the patient is complete.
    Done(Patient),
    /// The line was refused and the registration is given up.
    Rejected(InputError),
}

/// A step as plain values.
pub enum StepView {
    More(FormView),
    Done(PatientView),
    Rejected(InputError),
}

impl View for Form {
    type V = FormView;

    closed spec fn view(&self) -> FormView {
        FormView {
            due: self.due,
            name: self.name@,
            age: self.age as nat,
            disease: self.disease@,
            contact: self.contact@,
        }
    }
}

impl View for Step {
    type V = StepView;

    open spec fn view(&self) -> StepView {
        match *self {
            Step::More(form) => StepView::More(form@),
            Step::Done(patient) => StepView::Done(patient@),
            Step::Rejected(e) => StepView::Rejected(e),
        }
    }
}

/// The form before any line was typed.
pub open spec fn blank() -> FormView {
    FormView {
        due: Field::Name,
        name: Seq::empty(),
        age: 0,
        disease: Seq::empty(),
        contact: Seq::empty(),
    }
}

/// The text shown before the line for `field` is read.
pub open spec fn prompt_text(field: Field) -> Seq<char> {
    match field {
        Field::Name => "Name: "@,
        Field::Age => "Age: "@,
        Field::Disease => "Disease: "@,
        Field::Contact => "Contact: "@,
        Field::AdmissionDate => "Admission Date (YYYY-MM-DD): "@,
    }
}

/// What typing `line` into `form` leads to. Every line is trimmed. The age
/// must be an unsigned decimal number, or the registration ends there; the
/// other fields take any text.
pub open spec fn entered(form: FormView, line: Seq<char>) -> StepView {
    let text = trimmed(line);
    match form.due {
        Field::Name => StepView::More(FormView { due: Field::Age, name: text, ..form }),
        Field::Age => match parse_u32(text) {
            Some(age) => StepView::More(
                FormView { due: Field::Disease, age: age as nat, ..form },
            ),
            None => StepView::Rejected(InputError::InvalidAge),
        },
        Field::Disease => StepView::More(FormView { due: Field::Contact, disease: text, ..form }),
        Field::Contact => StepView::More(
            FormView { due: Field::AdmissionDate, contact: text, ..form },
        ),
        Field::AdmissionDate => StepView::Done(
            PatientView {
                name: form.name,
                age: form.age,
                disease: form.disease,
                contact: form.contact,
                admission_date: text,
            },
        ),
    }
}

/// Five lines typed into a blank form, in the order name, age, disease,
/// contact and admission date, give the patient that the five lines denote;
/// a bad age ends the registration at the second line, before any later line
/// is looked at.
pub proof fn lemma_form_collects(
    name: Seq<char>,
    age: Seq<char>,
    disease: Seq<char>,
    contact: Seq<char>,
    admission_date: Seq<char>,
)
    ensures
        entered(blank(), name) matches StepView::More(after_name) && match entered(
            after_name,
            age,
        ) {
            StepView::More(after_age) => {
                &&& entered(after_age, disease) matches StepView::More(after_disease)
                &&& entered(after_disease, contact) matches StepView::More(after_contact)
                &&& entered(after_contact, admission_date) matches StepView::Done(p)
                &&& input_record(name, age, disease, contact, admission_date) == Ok::<
                    PatientView,
                    InputError,
                >(p)
            },
            StepView::Rejected(e) => input_record(name, age, disease, contact, admission_date)
                == Err::<PatientView, InputError>(e),
            StepView::Done(_) => false,
        },
{
}

impl Form {
    /// A blank form, which asks for the name first.
    pub fn new() -> (form: Form)
        ensures
            form@ == blank(),
    {
        Form {
            due: Field::Name,
            name: String::new(),
            age: 0,
            disease: String::new(),
            contact: String::new(),
        }
    }

    /// The field that the next line is for.
    pub fn due(&self) -> (field: Field)
        ensures
            field == self@.due,
    {
        self.due
    }

    /// The text to show before the next line is read.
    pub fn prompt(&self) -> (text: &'static str)
        ensures
            text@ == prompt_text(self@.due),
    {
        match self.due {
            Field::Name => "Name: ",
            Field::Age => "Age: ",
            Field::Disease => "Disease: ",
            Field::Contact => "Contact: ",
            Field::AdmissionDate => "Admission Date (YYYY-MM-DD): ",
        }
    }

    /// Takes the line typed for the field that is due.
    pub fn enter(self, line: &str) -> (step: Step)
        ensures
            step@ == entered(self@, line@),
    {
        let text = trim(line);
        match self.due {
            Field::Name => Step::More(
                Form {
                    due: Field::Age,
                    name: text.to_owned(),
                    age: self.age,
                    disease: self.disease,
                    contact: self.contact,
                },
            ),
            Field::Age => match parse_decimal(text) {
                Some(age) => Step::More(
                    Form {
                        due: Field::Disease,
                        name: self.name,
                        age,
                        disease: self.disease,
                        contact: self.contact,
                    },
                ),
                None => Step::Rejected(InputError::InvalidAge),
            },
            Field::Disease => Step::More(
                Form {
                    due: Field::Contact,
                    name: self.name,
                    age: self.age,
                    disease: text.to_owned(),
                    contact: self.contact,
                },
            ),
            Field::Contact => Step::More(
                Form {
                    due: Field::AdmissionDate,
                    name: self.name,
                    age: self.age,
                    disease: self.disease,
                    contact: text.to_owned(),
                },
            ),
            Field::AdmissionDate => Step::Done(
                Patient {
                    name: self.name,
                    age: self.age,
                    disease: self.disease,
                    contact: self.contact,
                    admission_date: text.to_owned(),
                },
            ),
        }
    }
}

} // verus!
