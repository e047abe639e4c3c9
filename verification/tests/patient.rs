use patient_registry::patient::{InputError, Patient, RowFault, FIELD_COUNT};

fn john() -> Patient {
    Patient {
        name: "John Doe".to_string(),
        age: 30,
        disease: "Flu".to_string(),
        contact: "555-1234".to_string(),
        admission_date: "2024-01-15".to_string(),
    }
}

fn row(fields: &[&str]) -> Vec<String> {
    fields.iter().map(|f| f.to_string()).collect()
}

#[test]
fn input_lines_are_trimmed_and_the_age_is_read() {
    let p = Patient::from_input("  John Doe\n", " 30 \n", "Flu\n", "\t555-1234\r\n", "2024-01-15\n");
    assert_eq!(p, Ok(john()));
}

#[test]
fn input_fields_may_be_empty() {
    let p = Patient::from_input("\n", "0\n", "  \n", "\n", "\n").unwrap();
    assert_eq!(p.name, "");
    assert_eq!(p.age, 0);
    assert_eq!(p.disease, "");
    assert_eq!(p.contact, "");
    assert_eq!(p.admission_date, "");
}

#[test]
fn input_keeps_inner_whitespace_and_punctuation() {
    let p = Patient::from_input(" Smith, Jr. \n", "41\n", "a \"rare\" one\n", "x  y\n", "soon\n").unwrap();
    assert_eq!(p.name, "Smith, Jr.");
    assert_eq!(p.disease, "a \"rare\" one");
    assert_eq!(p.contact, "x  y");
    assert_eq!(p.admission_date, "soon");
}

#[test]
fn input_does_not_check_the_date() {
    let p = Patient::from_input("A", "1", "B", "C", "2024-13-45").unwrap();
    assert_eq!(p.admission_date, "2024-13-45");
}

#[test]
fn input_takes_the_age_bounds() {
    assert_eq!(Patient::from_input("A", "0", "B", "C", "D").unwrap().age, 0);
    assert_eq!(Patient::from_input("A", "4294967295\n", "B", "C", "D").unwrap().age, u32::MAX);
}

#[test]
fn input_with_a_bad_age_is_rejected() {
    assert_eq!(Patient::from_input("A", "thirty", "B", "C", "D"), Err(InputError::InvalidAge));
    assert_eq!(Patient::from_input("A", "", "B", "C", "D"), Err(InputError::InvalidAge));
    assert_eq!(Patient::from_input("A", "\n", "B", "C", "D"), Err(InputError::InvalidAge));
    assert_eq!(Patient::from_input("A", "-1", "B", "C", "D"), Err(InputError::InvalidAge));
    assert_eq!(Patient::from_input("A", "3 0", "B", "C", "D"), Err(InputError::InvalidAge));
    assert_eq!(Patient::from_input("A", "30.5", "B", "C", "D"), Err(InputError::InvalidAge));
    assert_eq!(Patient::from_input("A", "4294967296", "B", "C", "D"), Err(InputError::InvalidAge));
}

#[test]
fn fields_come_in_declaration_order() {
    assert_eq!(john().to_fields(), row(&["John Doe", "30", "Flu", "555-1234", "2024-01-15"]));
    assert_eq!(john().to_fields().len(), FIELD_COUNT);
}

#[test]
fn fields_hold_the_age_in_decimal() {
    let mut p = john();
    p.age = 0;
    assert_eq!(p.to_fields()[1], "0");
    p.age = u32::MAX;
    assert_eq!(p.to_fields()[1], "4294967295");
}

#[test]
fn a_row_of_five_fields_is_a_patient() {
    let p = Patient::from_fields(&row(&["John Doe", "30", "Flu", "555-1234", "2024-01-15"]));
    assert_eq!(p, Ok(john()));
}

#[test]
fn a_row_is_not_trimmed() {
    let p = Patient::from_fields(&row(&[" John ", "30", "", " ", "x "])).unwrap();
    assert_eq!(p.name, " John ");
    assert_eq!(p.disease, "");
    assert_eq!(p.contact, " ");
    assert_eq!(p.admission_date, "x ");
    assert_eq!(Patient::from_fields(&row(&["John", " 30", "", "", ""])), Err(RowFault::Age));
}

#[test]
fn a_row_of_another_length_is_refused() {
    assert_eq!(Patient::from_fields(&row(&[])), Err(RowFault::FieldCount { found: 0 }));
    assert_eq!(
        Patient::from_fields(&row(&["John Doe", "30", "Flu", "555-1234"])),
        Err(RowFault::FieldCount { found: 4 })
    );
    assert_eq!(
        Patient::from_fields(&row(&["John Doe", "30", "Flu", "555-1234", "2024-01-15", "extra"])),
        Err(RowFault::FieldCount { found: 6 })
    );
}

#[test]
fn a_row_with_a_bad_age_is_refused() {
    assert_eq!(Patient::from_fields(&row(&["John", "abc", "Flu", "1", "d"])), Err(RowFault::Age));
    assert_eq!(Patient::from_fields(&row(&["John", "", "Flu", "1", "d"])), Err(RowFault::Age));
    assert_eq!(Patient::from_fields(&row(&["John", "-3", "Flu", "1", "d"])), Err(RowFault::Age));
    assert_eq!(
        Patient::from_fields(&row(&["John", "4294967296", "Flu", "1", "d"])),
        Err(RowFault::Age)
    );
}

#[test]
fn the_field_count_is_judged_before_the_age() {
    assert_eq!(
        Patient::from_fields(&row(&["John", "abc", "Flu"])),
        Err(RowFault::FieldCount { found: 3 })
    );
}

#[test]
fn a_patient_comes_back_from_its_own_row() {
    let samples = [
        john(),
        Patient {
            name: "Smith, Jr.".to_string(),
            age: 0,
            disease: "".to_string(),
            contact: "a\"b".to_string(),
            admission_date: "line\nbreak".to_string(),
        },
        Patient {
            name: "".to_string(),
            age: u32::MAX,
            disease: " ".to_string(),
            contact: "患者".to_string(),
            admission_date: "+1".to_string(),
        },
    ];
    for p in samples {
        assert_eq!(Patient::from_fields(&p.to_fields()), Ok(p));
    }
}
