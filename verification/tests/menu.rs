use patient_registry::intake::{Field, Form, Step};
use patient_registry::menu::MenuState;
use patient_registry::patient::{InputError, Patient};

#[test]
fn the_menu_starts_idle() {
    assert_eq!(MenuState::start(), MenuState::Idle);
    assert!(!MenuState::start().is_terminal());
}

#[test]
fn the_three_options_select_their_states() {
    assert_eq!(MenuState::Idle.select("1"), MenuState::Registering);
    assert_eq!(MenuState::Idle.select("2"), MenuState::Searching);
    assert_eq!(MenuState::Idle.select("3"), MenuState::Exiting);
}

#[test]
fn the_selection_is_trimmed() {
    assert_eq!(MenuState::Idle.select("1\n"), MenuState::Registering);
    assert_eq!(MenuState::Idle.select("  2\r\n"), MenuState::Searching);
    assert_eq!(MenuState::Idle.select("\t3 "), MenuState::Exiting);
}

#[test]
fn any_other_line_keeps_the_menu_idle() {
    for line in ["", "\n", "0", "4", "12", "1 2", "one", "exit", "+1", "01", "１"] {
        assert_eq!(MenuState::Idle.select(line), MenuState::Idle, "{:?}", line);
    }
}

#[test]
fn only_the_idle_menu_reads_a_selection() {
    assert_eq!(MenuState::Registering.select("3"), MenuState::Registering);
    assert_eq!(MenuState::Searching.select("1"), MenuState::Searching);
    assert_eq!(MenuState::Exiting.select("1"), MenuState::Exiting);
}

#[test]
fn an_operation_ends_in_the_idle_menu() {
    assert_eq!(MenuState::Registering.finish(), MenuState::Idle);
    assert_eq!(MenuState::Searching.finish(), MenuState::Idle);
    assert_eq!(MenuState::Idle.finish(), MenuState::Idle);
}

#[test]
fn leaving_is_final() {
    assert!(MenuState::Exiting.is_terminal());
    assert_eq!(MenuState::Exiting.finish(), MenuState::Exiting);
    assert!(!MenuState::Idle.is_terminal());
    assert!(!MenuState::Registering.is_terminal());
    assert!(!MenuState::Searching.is_terminal());
}

fn more(step: Step) -> Form {
    match step {
        Step::More(form) => form,
        other => panic!("the form should ask for more, not {:?}", other),
    }
}

#[test]
fn the_form_asks_for_the_fields_in_order() {
    let form = Form::new();
    assert_eq!(form.due(), Field::Name);
    assert_eq!(form.prompt(), "Name: ");
    let form = more(form.enter("John Doe\n"));
    assert_eq!(form.due(), Field::Age);
    assert_eq!(form.prompt(), "Age: ");
    let form = more(form.enter("30\n"));
    assert_eq!(form.due(), Field::Disease);
    assert_eq!(form.prompt(), "Disease: ");
    let form = more(form.enter("Flu\n"));
    assert_eq!(form.due(), Field::Contact);
    assert_eq!(form.prompt(), "Contact: ");
    let form = more(form.enter("555-1234\n"));
    assert_eq!(form.due(), Field::AdmissionDate);
    assert_eq!(form.prompt(), "Admission Date (YYYY-MM-DD): ");
}

#[test]
fn the_form_gives_the_patient_after_five_lines() {
    let form = more(Form::new().enter("  John Doe \n"));
    let form = more(form.enter(" 30\n"));
    let form = more(form.enter("Flu\n"));
    let form = more(form.enter("555-1234\n"));
    let expected = Patient {
        name: "John Doe".to_string(),
        age: 30,
        disease: "Flu".to_string(),
        contact: "555-1234".to_string(),
        admission_date: "2024-01-15".to_string(),
    };
    match form.enter("2024-01-15\n") {
        Step::Done(p) => assert_eq!(p, expected),
        other => panic!("the form should be done, not {:?}", other),
    }
}

#[test]
fn the_form_agrees_with_the_five_lines_taken_at_once() {
    let lines = [" Ann\n", "+7\n", "\n", " a@b \n", "tomorrow\n"];
    let mut form = Form::new();
    for line in &lines[..4] {
        form = more(form.enter(line));
    }
    let at_once = Patient::from_input(lines[0], lines[1], lines[2], lines[3], lines[4]).unwrap();
    match form.enter(lines[4]) {
        Step::Done(p) => assert_eq!(p, at_once),
        other => panic!("the form should be done, not {:?}", other),
    }
}

#[test]
fn the_form_gives_up_on_a_bad_age() {
    for age in ["thirty\n", "\n", "-1\n", "4294967296\n", "3 0\n"] {
        let form = more(Form::new().enter("John Doe\n"));
        match form.enter(age) {
            Step::Rejected(e) => assert_eq!(e, InputError::InvalidAge),
            other => panic!("the form should reject {:?}, not give {:?}", age, other),
        }
    }
}

#[test]
fn the_form_takes_the_age_bounds() {
    for (line, age) in [("0\n", 0), ("4294967295\n", u32::MAX)] {
        let form = more(Form::new().enter("A\n"));
        let form = more(form.enter(line));
        let form = more(form.enter("\n"));
        let form = more(form.enter("\n"));
        match form.enter("\n") {
            Step::Done(p) => assert_eq!(p.age, age),
            other => panic!("the form should be done, not {:?}", other),
        }
    }
}
