//! The enrollment command: its schema, and the message that answers a
//! submission.

use crate::confirmation::{
    compose, field_line, lemma_message_has_six_lines, message, message_lines, single_lines,
    ResponseData,
};
use crate::text::{lines, texts_of};
use vstd::prelude::*;

verus! {

/// What a member submitted for one field of a command.
#[derive(Debug)]
pub enum OptionValue {
    /// A text.
    Text(String),
    /// A yes-or-no choice.
    Flag(bool),
    /// A value of any other kind.
    Other,
}

/// The text that stands for a submitted value in the message: a text as it
/// is, a choice as `Yes` or `No`, and nothing for a value of another kind.
pub open spec fn rendered(value: OptionValue) -> Option<Seq<char>> {
    match value {
        OptionValue::Text(text) => Some(text@),
        OptionValue::Flag(flag) => Some(
            if flag {
                "Yes"@
            } else {
                "No"@
            },
        ),
        OptionValue::Other => None,
    }
}

/// The text of a submitted value, where it has one.
pub fn unwrap_data_option(option_value: &OptionValue) -> (out: Option<String>)
    ensures
        match out {
            Some(text) => rendered(*option_value) == Some(text@),
            None => rendered(*option_value) is None,
        },
{
    match option_value {
        OptionValue::Text(value) => Some(value.clone()),
        OptionValue::Flag(value) => Some(
            if *value {
                String::from_str("Yes")
            } else {
                String::from_str("No")
            },
        ),
        OptionValue::Other => None,
    }
}

/// The text of field `i` of a submission: none where the submission has no
/// such field, where the field came unresolved, or where its value has no
/// text.
pub open spec fn field_text(options: Seq<Option<OptionValue>>, i: int) -> Option<Seq<char>> {
    if 0 <= i < options.len() {
        match options[i] {
            Some(value) => rendered(value),
            None => None,
        }
    } else {
        None
    }
}

/// Whether a submission holds a text for each of the five fields of the
/// command.
pub open spec fn complete(options: Seq<Option<OptionValue>>) -> bool {
    forall|i: int| 0 <= i < 5 ==> (#[trigger] field_text(options, i)) is Some
}

/// The five responses of a complete submission, by position: name, email,
/// interests, university, and the opt-in.
pub open spec fn submitted(options: Seq<Option<OptionValue>>) -> ResponseData {
    ResponseData {
        name: field_text(options, 0)->0,
        email: field_text(options, 1)->0,
        interests: field_text(options, 2)->0,
        university: field_text(options, 3)->0,
        email_distro: field_text(options, 4)->0,
    }
}

/// The text of field `i`, where the submission holds one.
fn field(options: &Vec<Option<OptionValue>>, i: usize) -> (out: Option<String>)
    ensures
        match out {
            Some(text) => field_text(options@, i as int) == Some(text@),
            None => field_text(options@, i as int) is None,
        },
{
    if i < options.len() {
        match &options[i] {
            Some(value) => unwrap_data_option(value),
            None => None,
        }
    } else {
        None
    }
}

/// Whether the submission holds a text for each of the five fields.
pub fn is_complete(options: &Vec<Option<OptionValue>>) -> (out: bool)
    ensures
        out == complete(options@),
{
    let mut i: usize = 0;
    while i < 5
        invariant
            i <= 5,
            forall|j: int| 0 <= j < i ==> (#[trigger] field_text(options@, j)) is Some,
        decreases 5 - i,
    {
        if field(options, i).is_none() {
            return false;
        }
        i = i + 1;
    }
    true
}

/// The message that answers a submission of the enrollment command.
pub fn run(options: &Vec<Option<OptionValue>>) -> (out: String)
    requires
        complete(options@),
    ensures
        out@ == message(submitted(options@)),
{
    assert(field_text(options@, 0) is Some);
    assert(field_text(options@, 1) is Some);
    assert(field_text(options@, 2) is Some);
    assert(field_text(options@, 3) is Some);
    assert(field_text(options@, 4) is Some);
    let name_option = field(options, 0).unwrap();
    let email_option = field(options, 1).unwrap();
    let interests_option = field(options, 2).unwrap();
    let uni_option = field(options, 3).unwrap();
    let add_to_email_option = field(options, 4).unwrap();
    compose(
        name_option.as_str(),
        email_option.as_str(),
        interests_option.as_str(),
        uni_option.as_str(),
        add_to_email_option.as_str(),
    )
}

/// The answer to a complete submission whose responses hold no line feed
/// has exactly six lines, in the fixed order, and the last of them carries
/// a yes-or-no choice as `Yes` or `No`.
pub proof fn lemma_answer_has_six_lines(options: Seq<Option<OptionValue>>)
    requires
        complete(options),
        single_lines(submitted(options)),
    ensures
        lines(message(submitted(options))).len() == 6,
        lines(message(submitted(options))) == message_lines(submitted(options)),
        options[4] == Some(OptionValue::Flag(true)) ==> lines(message(submitted(options)))[5]
            == field_line("Add to email distro"@, "Yes"@),
        options[4] == Some(OptionValue::Flag(false)) ==> lines(message(submitted(options)))[5]
            == field_line("Add to email distro"@, "No"@),
{
    lemma_message_has_six_lines(submitted(options));
    assert(field_text(options, 4) is Some);
}

/// The kind of value that a field of a command takes.
#[derive(Clone, Copy, Debug, PartialEq, Eq, Structural)]
pub enum OptionKind {
    Text,
    Boolean,
}

/// One of the values that a member can pick for a field, as plain values.
pub struct ChoiceData {
    pub name: Seq<char>,
    pub value: Seq<char>,
}

/// A field of a command, as plain values.
pub struct OptionData {
    pub name: Seq<char>,
    pub description: Seq<char>,
    pub kind: OptionKind,
    pub required: bool,
    pub choices: Seq<ChoiceData>,
}

/// A command, as plain values.
pub struct CommandData {
    pub name: Seq<char>,
    pub description: Seq<char>,
    pub options: Seq<OptionData>,
}

/// One of the values that a member can pick for a field: the name shown,
/// and the value submitted.
#[derive(Debug)]
pub struct Choice {
    pub name: String,
    pub value: String,
}

/// A field of a command. A field without choices takes any value of its
/// kind.
#[derive(Debug)]
pub struct CommandOption {
    pub name: String,
    pub description: String,
    pub kind: OptionKind,
    pub required: bool,
    pub choices: Vec<Choice>,
}

/// A command as it is registered with the guild.
#[derive(Debug)]
pub struct Command {
    pub name: String,
    pub description: String,
    pub options: Vec<CommandOption>,
}

impl View for Choice {
    type V = ChoiceData;

    open spec fn view(&self) -> ChoiceData {
        ChoiceData { name: self.name@, value: self.value@ }
    }
}

impl View for CommandOption {
    type V = OptionData;

    open spec fn view(&self) -> OptionData {
        OptionData {
            name: self.name@,
            description: self.description@,
            kind: self.kind,
            required: self.required,
            choices: Seq::new(self.choices@.len(), |i: int| self.choices@[i]@),
        }
    }
}

impl View for Command {
    type V = CommandData;

    open spec fn view(&self) -> CommandData {
        CommandData {
            name: self.name@,
            description: self.description@,
            options: Seq::new(self.options@.len(), |i: int| self.options@[i]@),
        }
    }
}

/// A required field without choices.
pub open spec fn plain_option(name: Seq<char>, description: Seq<char>, kind: OptionKind) -> OptionData {
    OptionData { name, description, kind, required: true, choices: Seq::empty() }
}

/// The choices of the university field: each university under its own name,
/// in the order given, and last the choice for members of none of them.
pub open spec fn university_choices(universities: Seq<Seq<char>>) -> Seq<ChoiceData> {
    Seq::new(
        universities.len(),
        |i: int| ChoiceData { name: universities[i], value: universities[i] },
    ).push(ChoiceData { name: "Other or N/A"@, value: "Other / N/A"@ })
}

/// The enrollment command for the given universities: five required fields,
/// of which the fourth is a choice among the universities.
pub open spec fn enrollment_command(universities: Seq<Seq<char>>) -> CommandData {
    CommandData {
        name: "enrollment"@,
        description: "Enrollment commands"@,
        options: seq![
            plain_option("name"@, "First name and last initial"@, OptionKind::Text),
            plain_option("email"@, "School email address"@, OptionKind::Text),
            plain_option("interests"@, "Areas of interest."@, OptionKind::Text),
            OptionData {
                name: "university"@,
                description: "Which college are you with?"@,
                kind: OptionKind::Text,
                required: true,
                choices: university_choices(universities),
            },
            plain_option("add_to_email_distro"@, "Add to email distro?"@, OptionKind::Boolean),
        ],
    }
}

/// A required field without choices.
fn create_option(name: &str, description: &str, kind: OptionKind) -> (out: CommandOption)
    ensures
        out@ == plain_option(name@, description@, kind),
{
    let out = CommandOption {
        name: String::from_str(name),
        description: String::from_str(description),
        kind,
        required: true,
        choices: Vec::new(),
    };
    assert(out@.choices =~= Seq::empty());
    out
}

/// The enrollment command, with the given universities to choose from.
pub fn register(universities: &Vec<String>) -> (out: Command)
    ensures
        out@ == enrollment_command(texts_of(universities@)),
{
    let ghost names = texts_of(universities@);
    let mut choices: Vec<Choice> = Vec::new();
    let mut i: usize = 0;
    while i < universities.len()
        invariant
            i <= universities.len(),
            names == texts_of(universities@),
            choices@.len() == i,
            forall|j: int|
                0 <= j < i ==> (#[trigger] choices@[j])@ == (ChoiceData {
                    name: names[j],
                    value: names[j],
                }),
        decreases universities.len() - i,
    {
        choices.push(Choice { name: universities[i].clone(), value: universities[i].clone() });
        i = i + 1;
    }
    choices.push(
        Choice { name: String::from_str("Other or N/A"), value: String::from_str("Other / N/A") },
    );
    let student_uni = CommandOption {
        name: String::from_str("university"),
        description: String::from_str("Which college are you with?"),
        kind: OptionKind::Text,
        required: true,
        choices,
    };
    assert(student_uni@.choices =~= university_choices(names));
    let mut options: Vec<CommandOption> = Vec::new();
    options.push(create_option("name", "First name and last initial", OptionKind::Text));
    options.push(create_option("email", "School email address", OptionKind::Text));
    options.push(create_option("interests", "Areas of interest.", OptionKind::Text));
    options.push(student_uni);
    options.push(create_option("add_to_email_distro", "Add to email distro?", OptionKind::Boolean));
    let out = Command {
        name: String::from_str("enrollment"),
        description: String::from_str("Enrollment commands"),
        options,
    };
    assert(out@.options =~= enrollment_command(names).options);
    out
}

} // verus!
