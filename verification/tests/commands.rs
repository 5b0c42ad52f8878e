use enrollment_bot::commands::enrollment::{
    is_complete, register, run, unwrap_data_option, Command, OptionKind, OptionValue,
};
use enrollment_bot::confirmation::parse;
use enrollment_bot::router::interaction_create;

fn text(s: &str) -> Option<OptionValue> {
    Some(OptionValue::Text(s.to_string()))
}

fn submission(opt_in: bool) -> Vec<Option<OptionValue>> {
    vec![
        text("Alice B"),
        text("a@x.edu"),
        text("robotics"),
        text("Acme University"),
        Some(OptionValue::Flag(opt_in)),
    ]
}

fn option_names(command: &Command) -> Vec<String> {
    command.options.iter().map(|o| o.name.clone()).collect()
}

#[test]
fn unwrap_data_option_renders_each_kind() {
    assert_eq!(unwrap_data_option(&OptionValue::Text("abc".to_string())), Some("abc".to_string()));
    assert_eq!(unwrap_data_option(&OptionValue::Text(String::new())), Some(String::new()));
    assert_eq!(unwrap_data_option(&OptionValue::Flag(true)), Some("Yes".to_string()));
    assert_eq!(unwrap_data_option(&OptionValue::Flag(false)), Some("No".to_string()));
    assert_eq!(unwrap_data_option(&OptionValue::Other), None);
}

#[test]
fn run_answers_with_the_confirmation_message() {
    assert_eq!(
        run(&submission(true)),
        "Enrolling new student:\nName: \"Alice B\"\nEmail: \"a@x.edu\"\nInterests: \"robotics\"\nUniversity: \"Acme University\"\nAdd to email distro: \"Yes\""
    );
}

#[test]
fn run_renders_the_opt_in_as_yes_or_no() {
    let yes = run(&submission(true));
    let no = run(&submission(false));
    assert_eq!(yes.lines().count(), 6);
    assert_eq!(no.lines().count(), 6);
    assert_eq!(yes.lines().nth(5), Some("Add to email distro: \"Yes\""));
    assert_eq!(no.lines().nth(5), Some("Add to email distro: \"No\""));
}

#[test]
fn run_looks_at_the_first_five_fields_only() {
    let mut options = submission(false);
    options.push(None);
    options.push(Some(OptionValue::Other));
    assert!(is_complete(&options));
    assert_eq!(run(&options), run(&submission(false)));
}

#[test]
fn run_then_parse_gives_the_submission_back() {
    let r = parse(&run(&submission(false)));
    assert_eq!(r.name, "Alice B");
    assert_eq!(r.email, "a@x.edu");
    assert_eq!(r.interests, "robotics");
    assert_eq!(r.university, "Acme University");
    assert_eq!(r.email_distro, "No");
}

#[test]
fn is_complete_asks_for_five_texts() {
    assert!(is_complete(&submission(true)));
    assert!(!is_complete(&Vec::new()));
    let mut four = submission(true);
    four.pop();
    assert!(!is_complete(&four));
    let mut unresolved = submission(true);
    unresolved[2] = None;
    assert!(!is_complete(&unresolved));
    let mut other = submission(true);
    other[0] = Some(OptionValue::Other);
    assert!(!is_complete(&other));
    let flags: Vec<Option<OptionValue>> = (0..5).map(|_| Some(OptionValue::Flag(true))).collect();
    assert!(is_complete(&flags));
}

#[test]
fn register_declares_the_five_fields() {
    let command = register(&vec!["Acme University".to_string(), "Beta College".to_string()]);
    assert_eq!(command.name, "enrollment");
    assert_eq!(command.description, "Enrollment commands");
    assert_eq!(
        option_names(&command),
        vec!["name", "email", "interests", "university", "add_to_email_distro"]
    );
    let descriptions: Vec<&str> = command.options.iter().map(|o| o.description.as_str()).collect();
    assert_eq!(
        descriptions,
        vec![
            "First name and last initial",
            "School email address",
            "Areas of interest.",
            "Which college are you with?",
            "Add to email distro?",
        ]
    );
    let kinds: Vec<OptionKind> = command.options.iter().map(|o| o.kind).collect();
    assert_eq!(
        kinds,
        vec![
            OptionKind::Text,
            OptionKind::Text,
            OptionKind::Text,
            OptionKind::Text,
            OptionKind::Boolean
        ]
    );
    assert!(command.options.iter().all(|o| o.required));
}

#[test]
fn register_offers_each_university_and_other() {
    let command = register(&vec!["Acme University".to_string(), "Beta College".to_string()]);
    let choices: Vec<(&str, &str)> = command.options[3]
        .choices
        .iter()
        .map(|c| (c.name.as_str(), c.value.as_str()))
        .collect();
    assert_eq!(
        choices,
        vec![
            ("Acme University", "Acme University"),
            ("Beta College", "Beta College"),
            ("Other or N/A", "Other / N/A"),
        ]
    );
    for i in [0, 1, 2, 4] {
        assert!(command.options[i].choices.is_empty());
    }
}

#[test]
fn register_without_universities_offers_other_alone() {
    let command = register(&Vec::new());
    assert_eq!(command.options.len(), 5);
    assert_eq!(command.options[3].choices.len(), 1);
    assert_eq!(command.options[3].choices[0].name, "Other or N/A");
    assert_eq!(command.options[3].choices[0].value, "Other / N/A");
}

#[test]
fn interaction_create_answers_the_enrollment_command() {
    assert_eq!(interaction_create("enrollment", &submission(true)), run(&submission(true)));
}

#[test]
fn interaction_create_knows_no_other_command() {
    assert_eq!(interaction_create("enroll", &submission(true)), "not implemented :(");
    assert_eq!(interaction_create("", &Vec::new()), "not implemented :(");
    assert_eq!(interaction_create("Enrollment", &Vec::new()), "not implemented :(");
}
