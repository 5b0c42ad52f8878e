//! What to do about a message: the reply to the greeting, the relay of
//! links, and the completion of an enrollment.

use crate::backend::database_storage::{Enrollment, EnrollmentData};
use crate::config::{
    lemma_value_of, resolved, value_of, Config, ConfigData, ConfigError, Data, TablesData,
};
use crate::confirmation::{
    parse, parsed, validate, well_formed, ParseError, ResponseData, Responses,
};
use crate::pattern::{is_announcement, is_link, is_match};
use crate::commands::enrollment::{complete, run, submitted, OptionValue};
use crate::confirmation::message as confirmation_message;
use crate::text::same_text;
use vstd::pervasive::unreached;
use vstd::prelude::*;

verus! {

/// The member who invoked a command, as plain values.
pub struct SubmitterData {
    pub id: u64,
    pub name: Seq<char>,
}

/// The member who invoked the command that a message answers.
#[derive(Debug)]
pub struct Submitter {
    pub id: u64,
    pub name: String,
}

impl View for Submitter {
    type V = SubmitterData;

    open spec fn view(&self) -> SubmitterData {
        SubmitterData { id: self.id, name: self.name@ }
    }
}

/// A message, as plain values.
pub struct MessageData {
    pub content: Seq<char>,
    pub channel_id: u64,
    pub guild_id: Option<u64>,
    pub author_name: Seq<char>,
    pub author_bot: bool,
    pub submitter: Option<SubmitterData>,
}

/// A message as it arrives: its text, where it was posted, who wrote it,
/// and, where it answers a command, who invoked that command.
#[derive(Debug)]
pub struct IncomingMessage {
    pub content: String,
    pub channel_id: u64,
    pub guild_id: Option<u64>,
    pub author_name: String,
    pub author_bot: bool,
    pub submitter: Option<Submitter>,
}

impl View for IncomingMessage {
    type V = MessageData;

    open spec fn view(&self) -> MessageData {
        MessageData {
            content: self.content@,
            channel_id: self.channel_id,
            guild_id: self.guild_id,
            author_name: self.author_name@,
            author_bot: self.author_bot,
            submitter: match self.submitter {
                Some(s) => Some(s@),
                None => None,
            },
        }
    }
}

/// One thing to do, as plain values.
pub enum ActionData {
    Say { channel_id: u64, content: Seq<char> },
    RemoveRole { guild_id: u64, user_id: u64, role_id: u64 },
    AddRole { guild_id: u64, user_id: u64, role_id: u64 },
    SetNickname { guild_id: u64, user_id: u64, nickname: Seq<char> },
    Save { record: EnrollmentData },
}

/// One thing to do about a message.
#[derive(Debug)]
pub enum Action {
    /// Post `content` in a channel.
    Say { channel_id: u64, content: String },
    /// Take a role from a member.
    RemoveRole { guild_id: u64, user_id: u64, role_id: u64 },
    /// Give a role to a member.
    AddRole { guild_id: u64, user_id: u64, role_id: u64 },
    /// Set a member's nickname in the guild.
    SetNickname { guild_id: u64, user_id: u64, nickname: String },
    /// Save an enrollment record.
    Save { record: Enrollment },
}

impl View for Action {
    type V = ActionData;

    open spec fn view(&self) -> ActionData {
        match *self {
            Action::Say { channel_id, content } => ActionData::Say {
                channel_id,
                content: content@,
            },
            Action::RemoveRole { guild_id, user_id, role_id } => ActionData::RemoveRole {
                guild_id,
                user_id,
                role_id,
            },
            Action::AddRole { guild_id, user_id, role_id } => ActionData::AddRole {
                guild_id,
                user_id,
                role_id,
            },
            Action::SetNickname { guild_id, user_id, nickname } => ActionData::SetNickname {
                guild_id,
                user_id,
                nickname: nickname@,
            },
            Action::Save { record } => ActionData::Save { record: record@ },
        }
    }
}

/// The things to do, as plain values.
pub open spec fn actions_of(actions: Seq<Action>) -> Seq<ActionData> {
    Seq::new(actions.len(), |i: int| actions[i]@)
}

/// Why nothing is decided about a message.
#[derive(Clone, Copy, Debug, PartialEq, Eq, Structural)]
pub enum RouteError {
    /// There is no configuration to decide by.
    NoConfig,
    /// The configuration lacks a key.
    Config(ConfigError),
}

/// What is wrong with a message that announces an enrollment and cannot
/// complete one.
#[derive(Clone, Copy, Debug, PartialEq, Eq, Structural)]
pub enum Defect {
    /// The message answers no command, so nobody submitted it.
    MissingSubmitter,
    /// The message was posted in no guild.
    MissingGuild,
    /// The text of the message is no confirmation message.
    Parse(ParseError),
}

/// The role changes for a member who named `university`: where the
/// configuration holds a role for it, the role to remove is taken and that
/// role given; else nothing.
pub open spec fn role_changes(c: ConfigData, guild_id: u64, user_id: u64, university: Seq<char>) -> Seq<
    ActionData,
> {
    match value_of(c.universities, university) {
        Some(role_id) => seq![
            ActionData::RemoveRole { guild_id, user_id, role_id: c.remove_role },
            ActionData::AddRole { guild_id, user_id, role_id },
        ],
        None => Seq::empty(),
    }
}

/// The record of a submitter's responses.
pub open spec fn record_of(submitter: SubmitterData, r: ResponseData) -> EnrollmentData {
    EnrollmentData {
        user_id: submitter.id,
        user_name: submitter.name,
        name: r.name,
        university: r.university,
        email: r.email,
        interests: r.interests,
        email_distro: r.email_distro,
    }
}

/// What completes the enrollment of `submitter` with the responses `r`: the
/// role changes, then the nickname, then the record.
pub open spec fn completion(c: ConfigData, guild_id: u64, submitter: SubmitterData, r: ResponseData) -> Seq<
    ActionData,
> {
    role_changes(c, guild_id, submitter.id, r.university) + seq![
        ActionData::SetNickname { guild_id, user_id: submitter.id, nickname: r.name },
        ActionData::Save { record: record_of(submitter, r) },
    ]
}

/// What completes the enrollment that the confirmation message `content`
/// announces.
pub open spec fn finalized(c: ConfigData, guild_id: u64, submitter: SubmitterData, content: Seq<char>) -> Seq<
    ActionData,
>
    recommends
        well_formed(content),
{
    completion(c, guild_id, submitter, parsed(content)->Ok_0)
}

/// Completes an enrollment: reads the responses out of the confirmation
/// message `content`, and says which roles of the submitter to change,
/// which nickname to give, and which record to save.
pub fn finalize(config: &Config, guild_id: u64, submitter: &Submitter, content: &str) -> (out: Vec<
    Action,
>)
    requires
        well_formed(content@),
    ensures
        actions_of(out@) == finalized(config@, guild_id, submitter@, content@),
{
    let responses = parse(content);
    let ghost r = responses@;
    let Responses { name, email, interests, university, email_distro } = responses;
    let mut actions: Vec<Action> = Vec::new();
    match config.universities.get(university.as_str()) {
        Some(role_id) => {
            actions.push(Action::RemoveRole { guild_id, user_id: submitter.id, role_id: config.remove_role });
            actions.push(Action::AddRole { guild_id, user_id: submitter.id, role_id });
        },
        None => {},
    }
    assert(actions_of(actions@) =~= role_changes(config@, guild_id, submitter.id, r.university));
    actions.push(Action::SetNickname { guild_id, user_id: submitter.id, nickname: name.clone() });
    let record = Enrollment::new(
        submitter.id,
        submitter.name.clone(),
        name,
        university,
        email,
        interests,
        email_distro,
    );
    actions.push(Action::Save { record });
    assert(actions_of(actions@) =~= completion(config@, guild_id, submitter@, r));
    actions
}

/// The text that relays `content` with the name of the member who posted
/// it.
pub open spec fn relay_text(author_name: Seq<char>, content: Seq<char>) -> Seq<char> {
    ".\n*This was originally posted by `"@ + author_name + "`:*\n"@ + content
}

/// Whether a message is relayed: it stands in the channel that links are
/// read from, its text is a link, and no bot wrote it.
pub open spec fn relays(c: ConfigData, m: MessageData, link: bool) -> bool {
    m.channel_id == c.reading_channel && link && !m.author_bot
}

/// Whether a message completes an enrollment: it stands in the channel that
/// enrollments are announced in, its text is an announcement, and a bot
/// wrote it.
pub open spec fn completes(c: ConfigData, m: MessageData, enroll: bool) -> bool {
    m.channel_id == c.enroll_channel && enroll && m.author_bot
}

/// The relay of a message, where it is relayed.
pub open spec fn relay_of(c: ConfigData, m: MessageData, link: bool) -> Seq<ActionData> {
    if relays(c, m, link) {
        seq![
            ActionData::Say {
                channel_id: c.destin_channel,
                content: relay_text(m.author_name, m.content),
            },
        ]
    } else {
        Seq::empty()
    }
}

/// What keeps a message from completing an enrollment, if anything: that
/// nobody submitted it, that it stands in no guild, or that its text is no
/// confirmation message, looked for in this order.
pub open spec fn defect_of(m: MessageData) -> Option<Defect> {
    if m.submitter is None {
        Some(Defect::MissingSubmitter)
    } else if m.guild_id is None {
        Some(Defect::MissingGuild)
    } else {
        match parsed(m.content) {
            Ok(_) => None,
            Err(e) => Some(Defect::Parse(e)),
        }
    }
}

/// What to do about a message, given whether its text is a link and whether
/// it is an announcement: its relay, and then what completes the enrollment
/// it announces.
pub open spec fn routed(c: ConfigData, m: MessageData, link: bool, enroll: bool) -> Seq<ActionData>
    recommends
        completes(c, m, enroll) ==> defect_of(m) is None,
{
    if completes(c, m, enroll) {
        relay_of(c, m, link) + finalized(c, m.guild_id->0, m.submitter->0, m.content)
    } else {
        relay_of(c, m, link)
    }
}

/// Tells what keeps `msg` from completing an enrollment, if anything.
pub fn message_defect(msg: &IncomingMessage) -> (out: Option<Defect>)
    ensures
        out == defect_of(msg@),
{
    if msg.submitter.is_none() {
        return Some(Defect::MissingSubmitter);
    }
    if msg.guild_id.is_none() {
        return Some(Defect::MissingGuild);
    }
    match validate(msg.content.as_str()) {
        Ok(_) => None,
        Err(e) => Some(Defect::Parse(e)),
    }
}

/// Decides what to do about a message that is not the greeting. `link` and
/// `enroll` say whether its text is a link and whether it is an
/// announcement. A message that completes an enrollment must be without
/// defect.
pub fn decide(config: &Config, msg: &IncomingMessage, link: bool, enroll: bool) -> (out: Vec<Action>)
    requires
        completes(config@, msg@, enroll) ==> defect_of(msg@) is None,
    ensures
        actions_of(out@) == routed(config@, msg@, link, enroll),
{
    let mut actions: Vec<Action> = Vec::new();
    if msg.channel_id == config.reading_channel && link && !msg.author_bot {
        let mut content = String::from_str(".\n*This was originally posted by `");
        content.append(msg.author_name.as_str());
        content.append("`:*\n");
        content.append(msg.content.as_str());
        actions.push(Action::Say { channel_id: config.destin_channel, content });
    }
    assert(actions_of(actions@) =~= relay_of(config@, msg@, link));
    if msg.channel_id == config.enroll_channel && enroll && msg.author_bot {
        let submitter = match &msg.submitter {
            Some(submitter) => submitter,
            None => unreached(),
        };
        let guild_id = msg.guild_id.unwrap();
        let mut steps = finalize(config, guild_id, submitter, msg.content.as_str());
        let ghost relay = actions_of(actions@);
        let ghost tail = actions_of(steps@);
        actions.append(&mut steps);
        assert(actions_of(actions@) =~= relay + tail);
    }
    actions
}

/// The tables to decide by, as plain values.
pub open spec fn tables_of(data: Option<&Data>) -> Option<TablesData> {
    match data {
        Some(data) => Some(data@),
        None => None,
    }
}

/// What to do about a message. The greeting is answered in its channel
/// whatever the configuration; every other message is decided by the
/// configuration, by whether its text is a link, and by whether it is an
/// announcement.
pub open spec fn handled(t: Option<TablesData>, m: MessageData) -> Result<Seq<ActionData>, RouteError> {
    if m.content == "!hello"@ {
        Ok(seq![ActionData::Say { channel_id: m.channel_id, content: "world!"@ }])
    } else {
        match t {
            None => Err(RouteError::NoConfig),
            Some(t) => match resolved(t) {
                Err(e) => Err(RouteError::Config(e)),
                Ok(c) => Ok(routed(c, m, is_link(m.content), is_announcement(m.content))),
            },
        }
    }
}

/// What keeps a message from being handled, if anything: the defect of a
/// message that completes an enrollment under the configuration. The
/// greeting has none, nor has a message that the configuration fails on.
pub open spec fn defect(t: Option<TablesData>, m: MessageData) -> Option<Defect> {
    if m.content == "!hello"@ {
        None
    } else {
        match t {
            None => None,
            Some(t) => match resolved(t) {
                Err(_) => None,
                Ok(c) => if completes(c, m, is_announcement(m.content)) {
                    defect_of(m)
                } else {
                    None
                },
            },
        }
    }
}

/// Tells what keeps a message from being handled, if anything.
pub fn inspect(data: Option<&Data>, msg: &IncomingMessage) -> (out: Option<Defect>)
    ensures
        out == defect(tables_of(data), msg@),
{
    if same_text(msg.content.as_str(), "!hello") {
        return None;
    }
    let data = match data {
        Some(data) => data,
        None => { return None; },
    };
    let config = match Config::from_data(data) {
        Ok(config) => config,
        Err(_) => { return None; },
    };
    let enroll = is_match("^Enrolling new student:", msg.content.as_str()).unwrap();
    if msg.channel_id == config.enroll_channel && enroll && msg.author_bot {
        message_defect(msg)
    } else {
        None
    }
}

/// Decides what to do about a message without defect.
pub fn message(data: Option<&Data>, msg: &IncomingMessage) -> (out: Result<Vec<Action>, RouteError>)
    requires
        defect(tables_of(data), msg@) is None,
    ensures
        match out {
            Ok(actions) => handled(tables_of(data), msg@) == Ok::<Seq<ActionData>, RouteError>(
                actions_of(actions@),
            ),
            Err(e) => handled(tables_of(data), msg@) == Err::<Seq<ActionData>, RouteError>(e),
        },
{
    if same_text(msg.content.as_str(), "!hello") {
        let mut actions: Vec<Action> = Vec::new();
        actions.push(Action::Say { channel_id: msg.channel_id, content: String::from_str("world!") });
        assert(actions_of(actions@) =~= seq![
            ActionData::Say { channel_id: msg.channel_id, content: "world!"@ },
        ]);
        return Ok(actions);
    }
    let data = match data {
        Some(data) => data,
        None => { return Err(RouteError::NoConfig); },
    };
    let config = match Config::from_data(data) {
        Ok(config) => config,
        Err(e) => { return Err(RouteError::Config(e)); },
    };
    let link = is_match("^(https|http|\\^\\^).*", msg.content.as_str()).unwrap();
    let enroll = is_match("^Enrolling new student:", msg.content.as_str()).unwrap();
    Ok(decide(&config, msg, link, enroll))
}

/// The answer to a command: the confirmation message for the enrollment
/// command, and a fixed text for every other.
pub open spec fn answer(name: Seq<char>, options: Seq<Option<OptionValue>>) -> Seq<char> {
    if name == "enrollment"@ {
        confirmation_message(submitted(options))
    } else {
        "not implemented :("@
    }
}

/// Answers the command `name` that a member invoked with `options`.
pub fn interaction_create(name: &str, options: &Vec<Option<OptionValue>>) -> (out: String)
    requires
        name@ == "enrollment"@ ==> complete(options@),
    ensures
        out@ == answer(name@, options@),
{
    if same_text(name, "enrollment") {
        run(options)
    } else {
        String::from_str("not implemented :(")
    }
}

/// A member who names a university that the configuration holds no role
/// for keeps all roles: the enrollment is completed by the nickname and the
/// record alone, with no role taken and none given.
pub proof fn lemma_unknown_university_changes_no_role(
    c: ConfigData,
    guild_id: u64,
    submitter: SubmitterData,
    r: ResponseData,
)
    requires
        forall|i: int| 0 <= i < c.universities.len() ==> (#[trigger] c.universities[i]).key
            != r.university,
    ensures
        role_changes(c, guild_id, submitter.id, r.university) == Seq::<ActionData>::empty(),
        completion(c, guild_id, submitter, r) == seq![
            ActionData::SetNickname { guild_id, user_id: submitter.id, nickname: r.name },
            ActionData::Save { record: record_of(submitter, r) },
        ],
        forall|i: int|
            0 <= i < completion(c, guild_id, submitter, r).len() ==> !(#[trigger] completion(
                c,
                guild_id,
                submitter,
                r,
            )[i] is RemoveRole) && !(completion(c, guild_id, submitter, r)[i] is AddRole),
{
    lemma_value_of(c.universities, r.university);
    assert(completion(c, guild_id, submitter, r) =~= seq![
        ActionData::SetNickname { guild_id, user_id: submitter.id, nickname: r.name },
        ActionData::Save { record: record_of(submitter, r) },
    ]);
}

/// A message that a bot wrote is never relayed, whatever its text and its
/// channel: nothing is posted about it.
pub proof fn lemma_bot_is_never_relayed(c: ConfigData, m: MessageData, link: bool, enroll: bool)
    requires
        m.author_bot,
    ensures
        relay_of(c, m, link) == Seq::<ActionData>::empty(),
        forall|i: int|
            0 <= i < routed(c, m, link, enroll).len() ==> !(#[trigger] routed(c, m, link, enroll)[i]
                is Say),
{
    if completes(c, m, enroll) {
        let done = finalized(c, m.guild_id->0, m.submitter->0, m.content);
        assert(relay_of(c, m, link) + done =~= done);
    }
}

/// A message that no bot wrote is relayed exactly where it stands in the
/// channel that links are read from and its text is a link, and then by one
/// post, in the channel that links are relayed to, that names its author;
/// nothing else is done about it.
pub proof fn lemma_member_message(c: ConfigData, m: MessageData, link: bool, enroll: bool)
    requires
        !m.author_bot,
    ensures
        routed(c, m, link, enroll) == (if m.channel_id == c.reading_channel && link {
            seq![
                ActionData::Say {
                    channel_id: c.destin_channel,
                    content: relay_text(m.author_name, m.content),
                },
            ]
        } else {
            Seq::empty()
        }),
{
}

/// The relay filter: under a configuration that resolves, a message other
/// than the greeting is relayed exactly where no bot wrote it, it stands in
/// the channel that links are read from, and it begins with `https`, `http`
/// or two carets. A message that a member wrote has no defect, and nothing
/// but its relay is decided about it.
pub proof fn lemma_relay_filter(t: TablesData, m: MessageData)
    requires
        m.content != "!hello"@,
        resolved(t) is Ok,
        !m.author_bot,
    ensures
        defect(Some(t), m) is None,
        handled(Some(t), m) == Ok::<Seq<ActionData>, RouteError>(
            if m.channel_id == resolved(t)->Ok_0.reading_channel && is_link(m.content) {
                seq![
                    ActionData::Say {
                        channel_id: resolved(t)->Ok_0.destin_channel,
                        content: relay_text(m.author_name, m.content),
                    },
                ]
            } else {
                Seq::empty()
            },
        ),
{
    lemma_member_message(
        resolved(t)->Ok_0,
        m,
        is_link(m.content),
        is_announcement(m.content),
    );
}

} // verus!
