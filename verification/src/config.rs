//! The configuration: the guild, its channels, and the roles that stand for
//! universities.

use crate::text::{same_text, texts_of};
use vstd::prelude::*;

verus! {

/// One line of a configuration table, as plain values.
pub struct EntryData {
    pub key: Seq<char>,
    pub value: u64,
}

/// One line of a configuration table: a key and the identifier under it.
#[derive(Debug)]
pub struct Entry {
    pub key: String,
    pub value: u64,
}

impl View for Entry {
    type V = EntryData;

    open spec fn view(&self) -> EntryData {
        EntryData { key: self.key@, value: self.value }
    }
}

impl Clone for Entry {
    fn clone(&self) -> (out: Self)
        ensures
            out@ == self@,
    {
        Entry { key: self.key.clone(), value: self.value }
    }
}

/// The lines of a table, as plain values.
pub open spec fn table(entries: Seq<Entry>) -> Seq<EntryData> {
    Seq::new(entries.len(), |i: int| entries[i]@)
}

/// The identifier under `key` in `table`: that of the first line with this
/// key.
pub open spec fn value_of(table: Seq<EntryData>, key: Seq<char>) -> Option<u64>
    decreases table.len(),
{
    if table.len() == 0 {
        None
    } else if table[0].key == key {
        Some(table[0].value)
    } else {
        value_of(table.drop_first(), key)
    }
}

/// The key under which the roles table holds the role that new members have
/// until they enroll.
pub open spec fn remove_role_key() -> Seq<char> {
    "REMOVE_ROLE_ID"@
}

/// The lines of the roles table that stand for universities: all but the
/// line of the role to remove, in the table's order.
pub open spec fn universities_of(roles: Seq<EntryData>) -> Seq<EntryData>
    decreases roles.len(),
{
    if roles.len() == 0 {
        Seq::empty()
    } else if roles.last().key == remove_role_key() {
        universities_of(roles.drop_last())
    } else {
        universities_of(roles.drop_last()).push(roles.last())
    }
}

/// The keys of `table`, in its order.
pub open spec fn keys_of(table: Seq<EntryData>) -> Seq<Seq<char>> {
    Seq::new(table.len(), |i: int| table[i].key)
}

/// A table holds an identifier under a key exactly where one of its lines
/// has that key.
pub proof fn lemma_value_of(table: Seq<EntryData>, key: Seq<char>)
    ensures
        value_of(table, key) is Some <==> exists|i: int|
            0 <= i < table.len() && (#[trigger] table[i]).key == key,
    decreases table.len(),
{
    if table.len() > 0 {
        let rest = table.drop_first();
        lemma_value_of(rest, key);
        if table[0].key != key {
            if value_of(table, key) is Some {
                let i = choose|i: int| 0 <= i < rest.len() && (#[trigger] rest[i]).key == key;
                assert(table[i + 1].key == key);
            }
            if exists|i: int| 0 <= i < table.len() && (#[trigger] table[i]).key == key {
                let i = choose|i: int| 0 <= i < table.len() && (#[trigger] table[i]).key == key;
                assert(rest[i - 1].key == key);
            }
        }
    }
}

/// No two lines of `table` have one key.
pub open spec fn distinct_keys(table: Seq<EntryData>) -> bool {
    forall|i: int, j: int|
        0 <= i < j < table.len() ==> (#[trigger] table[i]).key != (#[trigger] table[j]).key
}

/// Position of the first line of `table` with `key`, or the number of lines
/// where none has it.
pub open spec fn key_position(table: Seq<EntryData>, key: Seq<char>) -> int
    decreases table.len(),
{
    if table.len() == 0 {
        0
    } else if table[0].key == key {
        0
    } else {
        1 + key_position(table.drop_first(), key)
    }
}

/// The table after `entry` is put into `table`: it takes the place of the
/// line that has its key, or is added after the others.
pub open spec fn inserted(table: Seq<EntryData>, entry: EntryData) -> Seq<EntryData> {
    let p = key_position(table, entry.key);
    if p < table.len() {
        table.update(p, entry)
    } else {
        table.push(entry)
    }
}

/// `key_position` is the least position whose line has the key.
pub proof fn lemma_key_position(table: Seq<EntryData>, key: Seq<char>)
    ensures
        0 <= key_position(table, key) <= table.len(),
        forall|j: int| 0 <= j < key_position(table, key) ==> (#[trigger] table[j]).key != key,
        key_position(table, key) < table.len() ==> table[key_position(table, key)].key == key,
    decreases table.len(),
{
    if table.len() > 0 && table[0].key != key {
        let rest = table.drop_first();
        lemma_key_position(rest, key);
        assert forall|j: int| 0 <= j < key_position(table, key) implies (#[trigger] table[j]).key
            != key by {
            if j > 0 {
                assert(table[j] == rest[j - 1]);
            }
        }
        if key_position(table, key) < table.len() {
            assert(table[key_position(table, key)] == rest[key_position(rest, key)]);
        }
    }
}

/// Putting an entry into a table without double keys leaves it without
/// double keys.
pub proof fn lemma_inserted_distinct(table: Seq<EntryData>, entry: EntryData)
    requires
        distinct_keys(table),
    ensures
        distinct_keys(inserted(table, entry)),
{
    lemma_key_position(table, entry.key);
    let new = inserted(table, entry);
    let p = key_position(table, entry.key);
    assert forall|i: int, j: int| 0 <= i < j < new.len() implies (#[trigger] new[i]).key != (
    #[trigger] new[j]).key by {
        if p < table.len() {
            assert(new[i].key == table[i].key);
            assert(new[j].key == table[j].key);
        } else {
            assert(new[i] == table[i]);
            if j < table.len() {
                assert(new[j] == table[j]);
            }
        }
    }
}

/// After an entry is put into a table, the table holds the entry's
/// identifier under its key, and under every other key what it held before.
pub proof fn lemma_inserted_value(table: Seq<EntryData>, entry: EntryData, key: Seq<char>)
    ensures
        value_of(inserted(table, entry), key) == (if key == entry.key {
            Some(entry.value)
        } else {
            value_of(table, key)
        }),
    decreases table.len(),
{
    lemma_key_position(table, entry.key);
    if table.len() == 0 {
        assert(inserted(table, entry).drop_first() =~= table);
    } else if table[0].key == entry.key {
        assert(inserted(table, entry).drop_first() =~= table.drop_first());
    } else {
        let rest = table.drop_first();
        lemma_key_position(rest, entry.key);
        lemma_inserted_value(rest, entry, key);
        assert(inserted(table, entry).drop_first() =~= inserted(rest, entry));
        assert(inserted(table, entry)[0] == table[0]);
    }
}

/// The university lines of a table without double keys have no double keys,
/// and each of them is a line of the table.
pub proof fn lemma_universities_of(roles: Seq<EntryData>)
    requires
        distinct_keys(roles),
    ensures
        distinct_keys(universities_of(roles)),
        forall|i: int|
            0 <= i < universities_of(roles).len() ==> roles.contains(
                #[trigger] universities_of(roles)[i],
            ),
    decreases roles.len(),
{
    if roles.len() > 0 {
        let front = roles.drop_last();
        assert(distinct_keys(front)) by {
            assert forall|i: int, j: int| 0 <= i < j < front.len() implies (#[trigger] front[i]).key
                != (#[trigger] front[j]).key by {
                assert(front[i] == roles[i]);
                assert(front[j] == roles[j]);
            }
        }
        lemma_universities_of(front);
        let u = universities_of(roles);
        let uf = universities_of(front);
        assert forall|i: int| 0 <= i < u.len() implies roles.contains(#[trigger] u[i]) by {
            if i < uf.len() {
                assert(u[i] == uf[i]);
                assert(front.contains(uf[i]));
                let k = choose|k: int| 0 <= k < front.len() && front[k] == uf[i];
                assert(roles[k] == uf[i]);
            } else {
                assert(u[i] == roles[roles.len() - 1]);
            }
        }
        assert forall|i: int, j: int| 0 <= i < j < u.len() implies (#[trigger] u[i]).key != (
        #[trigger] u[j]).key by {
            if j < uf.len() {
                assert(u[i] == uf[i] && u[j] == uf[j]);
            } else {
                assert(u[i] == uf[i]);
                assert(front.contains(uf[i]));
                let k = choose|k: int| 0 <= k < front.len() && front[k] == uf[i];
                assert(roles[k] == uf[i]);
                assert(u[j] == roles[roles.len() - 1]);
            }
        }
    }
}

/// The identifier under `key`, where the lines hold one.
fn lookup(entries: &Vec<Entry>, key: &str) -> (out: Option<u64>)
    ensures
        out == value_of(table(entries@), key@),
{
    let ghost t = table(entries@);
    let mut i: usize = 0;
    assert(t.skip(0) =~= t);
    while i < entries.len()
        invariant
            i <= entries.len(),
            t == table(entries@),
            value_of(t, key@) == value_of(t.skip(i as int), key@),
        decreases entries.len() - i,
    {
        proof {
            assert(t.skip(i as int).drop_first() =~= t.skip(i + 1));
            assert(t.skip(i as int)[0] == entries@[i as int]@);
        }
        if same_text(entries[i].key.as_str(), key) {
            return Some(entries[i].value);
        }
        i = i + 1;
    }
    proof {
        assert(t.skip(i as int).len() == 0);
    }
    None
}

/// Position of the first line with `key`, or the number of lines.
fn find_key(entries: &Vec<Entry>, key: &str) -> (at: usize)
    ensures
        at == key_position(table(entries@), key@),
        at <= entries@.len(),
{
    let ghost t = table(entries@);
    let mut at: usize = 0;
    while at < entries.len() && !same_text(entries[at].key.as_str(), key)
        invariant
            at <= entries.len(),
            t == table(entries@),
            forall|j: int| 0 <= j < at ==> (#[trigger] t[j]).key != key@,
        decreases entries.len() - at,
    {
        at = at + 1;
    }
    proof {
        lemma_key_position(t, key@);
        let p = key_position(t, key@);
        if p < at {
            assert(t[p].key == key@);
        } else if at < p {
            assert(t[at as int].key == key@);
        }
    }
    at
}

/// A table of the configuration file: identifiers under keys, no two lines
/// under one key, in the order in which the keys were first put.
#[derive(Debug)]
pub struct Table {
    entries: Vec<Entry>,
}

impl Table {
    /// The lines of the table, in its order.
    pub closed spec fn rows(&self) -> Seq<EntryData> {
        table(self.entries@)
    }

    #[verifier::type_invariant]
    closed spec fn one_line_per_key(&self) -> bool {
        distinct_keys(self.rows())
    }

    /// A table without lines.
    pub fn new() -> (out: Self)
        ensures
            out.rows() == Seq::<EntryData>::empty(),
    {
        let out = Table { entries: Vec::new() };
        assert(out.rows() =~= Seq::<EntryData>::empty());
        out
    }

    /// The number of lines, no two of which have one key.
    pub fn len(&self) -> (out: usize)
        ensures
            out == self.rows().len(),
            distinct_keys(self.rows()),
    {
        proof {
            use_type_invariant(self);
        }
        self.entries.len()
    }

    /// Puts `value` under `key`, in place of what stood there.
    pub fn insert(&mut self, key: String, value: u64)
        ensures
            final(self).rows() == inserted(old(self).rows(), EntryData { key: key@, value }),
    {
        proof {
            use_type_invariant(&*self);
        }
        let ghost before = self.rows();
        let ghost entry = EntryData { key: key@, value };
        let at = find_key(&self.entries, key.as_str());
        let mut entries: Vec<Entry> = Vec::new();
        core::mem::swap(&mut self.entries, &mut entries);
        assert(table(entries@) =~= before);
        if at < entries.len() {
            entries[at] = Entry { key, value };
        } else {
            entries.push(Entry { key, value });
        }
        proof {
            lemma_inserted_distinct(before, entry);
            assert(table(entries@) =~= inserted(before, entry));
        }
        core::mem::swap(&mut self.entries, &mut entries);
    }

    /// The identifier under `key`, where the table holds one.
    pub fn get(&self, key: &str) -> (out: Option<u64>)
        ensures
            out == value_of(self.rows(), key@),
    {
        lookup(&self.entries, key)
    }

    /// The lines of the table, in its order.
    pub fn to_vec(&self) -> (out: Vec<Entry>)
        ensures
            table(out@) == self.rows(),
            distinct_keys(self.rows()),
    {
        proof {
            use_type_invariant(self);
        }
        let mut out: Vec<Entry> = Vec::new();
        let mut i: usize = 0;
        while i < self.entries.len()
            invariant
                i <= self.entries.len(),
                out@.len() == i,
                forall|j: int| 0 <= j < i ==> (#[trigger] out@[j])@ == self.entries@[j]@,
            decreases self.entries.len() - i,
        {
            out.push(self.entries[i].clone());
            i = i + 1;
        }
        assert(table(out@) =~= self.rows());
        out
    }

    /// The lines that stand for universities: all but the line of the role
    /// to remove.
    pub fn universities(&self) -> (out: Table)
        ensures
            out.rows() == universities_of(self.rows()),
    {
        proof {
            use_type_invariant(self);
        }
        let ghost t = self.rows();
        let mut entries: Vec<Entry> = Vec::new();
        let mut i: usize = 0;
        assert(t.take(0) =~= Seq::empty());
        assert(table(entries@) =~= Seq::empty());
        while i < self.entries.len()
            invariant
                i <= self.entries.len(),
                t == table(self.entries@),
                table(entries@) == universities_of(t.take(i as int)),
            decreases self.entries.len() - i,
        {
            let ghost before = table(entries@);
            proof {
                assert(t.take(i + 1).drop_last() =~= t.take(i as int));
                assert(t.take(i + 1).last() == self.entries@[i as int]@);
            }
            if !same_text(self.entries[i].key.as_str(), "REMOVE_ROLE_ID") {
                entries.push(self.entries[i].clone());
                assert(table(entries@) =~= before.push(self.entries@[i as int]@));
            }
            i = i + 1;
        }
        proof {
            assert(t.take(i as int) =~= t);
            lemma_universities_of(t);
        }
        Table { entries }
    }
}

/// The tables of the configuration file, as plain values.
pub struct TablesData {
    pub guild: Seq<EntryData>,
    pub roles: Seq<EntryData>,
    pub channels: Seq<EntryData>,
}

/// The tables of the configuration file that the bot's decisions rest on.
#[derive(Debug)]
pub struct Data {
    pub guild: Table,
    pub roles: Table,
    pub channels: Table,
}

impl View for Data {
    type V = TablesData;

    open spec fn view(&self) -> TablesData {
        TablesData {
            guild: self.guild.rows(),
            roles: self.roles.rows(),
            channels: self.channels.rows(),
        }
    }
}

/// The names of the universities that the configuration holds a role for.
pub fn get_roles(config: &Data) -> (out: Vec<String>)
    ensures
        texts_of(out@) == keys_of(universities_of(config@.roles)),
{
    let entries = config.roles.universities().to_vec();
    let mut out: Vec<String> = Vec::new();
    let mut i: usize = 0;
    while i < entries.len()
        invariant
            i <= entries.len(),
            out@.len() == i,
            forall|j: int| 0 <= j < i ==> (#[trigger] out@[j])@ == entries@[j]@.key,
        decreases entries.len() - i,
    {
        out.push(entries[i].key.clone());
        i = i + 1;
    }
    assert(texts_of(out@) =~= keys_of(table(entries@)));
    out
}

/// A key that the configuration must hold and does not.
#[derive(Clone, Copy, Debug, PartialEq, Eq, Structural)]
pub enum ConfigError {
    /// The channels table has no `DESTIN_CHANNEL_ID`.
    MissingDestinChannel,
    /// The channels table has no `READING_CHANNEL_ID`.
    MissingReadingChannel,
    /// The channels table has no `ENROLL_CHANNEL_ID`.
    MissingEnrollChannel,
    /// The guild table has no `GUILD_ID`.
    MissingGuild,
    /// The roles table has no `REMOVE_ROLE_ID`.
    MissingRemoveRole,
}

/// The configuration, as plain values.
pub struct ConfigData {
    pub guild_id: u64,
    pub destin_channel: u64,
    pub reading_channel: u64,
    pub enroll_channel: u64,
    pub remove_role: u64,
    pub universities: Seq<EntryData>,
}

/// What the bot decides by: the guild, the channel that links are relayed
/// to, the channel they are read from, the channel that enrollments are
/// announced in, the role that a member loses on enrolling, and the role of
/// each university.
#[derive(Debug)]
pub struct Config {
    pub guild_id: u64,
    pub destin_channel: u64,
    pub reading_channel: u64,
    pub enroll_channel: u64,
    pub remove_role: u64,
    pub universities: Table,
}

impl View for Config {
    type V = ConfigData;

    open spec fn view(&self) -> ConfigData {
        ConfigData {
            guild_id: self.guild_id,
            destin_channel: self.destin_channel,
            reading_channel: self.reading_channel,
            enroll_channel: self.enroll_channel,
            remove_role: self.remove_role,
            universities: self.universities.rows(),
        }
    }
}

/// The configuration that the tables `t` hold, or the first key that is
/// missing: the three channels are looked for first, then the guild, then
/// the role to remove.
pub open spec fn resolved(t: TablesData) -> Result<ConfigData, ConfigError> {
    if value_of(t.channels, "DESTIN_CHANNEL_ID"@) is None {
        Err(ConfigError::MissingDestinChannel)
    } else if value_of(t.channels, "READING_CHANNEL_ID"@) is None {
        Err(ConfigError::MissingReadingChannel)
    } else if value_of(t.channels, "ENROLL_CHANNEL_ID"@) is None {
        Err(ConfigError::MissingEnrollChannel)
    } else if value_of(t.guild, "GUILD_ID"@) is None {
        Err(ConfigError::MissingGuild)
    } else if value_of(t.roles, remove_role_key()) is None {
        Err(ConfigError::MissingRemoveRole)
    } else {
        Ok(
            ConfigData {
                guild_id: value_of(t.guild, "GUILD_ID"@)->0,
                destin_channel: value_of(t.channels, "DESTIN_CHANNEL_ID"@)->0,
                reading_channel: value_of(t.channels, "READING_CHANNEL_ID"@)->0,
                enroll_channel: value_of(t.channels, "ENROLL_CHANNEL_ID"@)->0,
                remove_role: value_of(t.roles, remove_role_key())->0,
                universities: universities_of(t.roles),
            },
        )
    }
}

impl Config {
    /// Resolves the tables of the configuration file.
    pub fn from_data(data: &Data) -> (out: Result<Config, ConfigError>)
        ensures
            match out {
                Ok(config) => resolved(data@) == Ok::<ConfigData, ConfigError>(config@),
                Err(e) => resolved(data@) == Err::<ConfigData, ConfigError>(e),
            },
    {
        let destin_channel = match data.channels.get("DESTIN_CHANNEL_ID") {
            Some(id) => id,
            None => { return Err(ConfigError::MissingDestinChannel); },
        };
        let reading_channel = match data.channels.get("READING_CHANNEL_ID") {
            Some(id) => id,
            None => { return Err(ConfigError::MissingReadingChannel); },
        };
        let enroll_channel = match data.channels.get("ENROLL_CHANNEL_ID") {
            Some(id) => id,
            None => { return Err(ConfigError::MissingEnrollChannel); },
        };
        let guild_id = match data.guild.get("GUILD_ID") {
            Some(id) => id,
            None => { return Err(ConfigError::MissingGuild); },
        };
        let remove_role = match data.roles.get("REMOVE_ROLE_ID") {
            Some(id) => id,
            None => { return Err(ConfigError::MissingRemoveRole); },
        };
        Ok(
            Config {
                guild_id,
                destin_channel,
                reading_channel,
                enroll_channel,
                remove_role,
                universities: data.roles.universities(),
            },
        )
    }
}

} // verus!
