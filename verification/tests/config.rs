use enrollment_bot::config::{get_roles, Config, ConfigError, Data, Table};

fn table(lines: &[(&str, u64)]) -> Table {
    let mut out = Table::new();
    for (key, value) in lines {
        out.insert(key.to_string(), *value);
    }
    out
}

fn rows(table: &Table) -> Vec<(String, u64)> {
    table.to_vec().into_iter().map(|e| (e.key, e.value)).collect()
}

fn full() -> Data {
    Data {
        guild: table(&[("GUILD_ID", 1)]),
        roles: table(&[("Acme University", 10), ("REMOVE_ROLE_ID", 11), ("Beta College", 12)]),
        channels: table(&[
            ("ENROLL_CHANNEL_ID", 20),
            ("READING_CHANNEL_ID", 21),
            ("DESTIN_CHANNEL_ID", 22),
        ]),
    }
}

fn without(table: &Table, key: &str) -> Table {
    let mut out = Table::new();
    for e in table.to_vec() {
        if e.key != key {
            out.insert(e.key, e.value);
        }
    }
    out
}

#[test]
fn new_table_is_empty() {
    let t = Table::new();
    assert_eq!(t.len(), 0);
    assert_eq!(t.get("a"), None);
    assert!(t.to_vec().is_empty());
}

#[test]
fn get_gives_the_value_under_the_key() {
    let t = table(&[("a", 1), ("b", 2)]);
    assert_eq!(t.get("a"), Some(1));
    assert_eq!(t.get("b"), Some(2));
    assert_eq!(t.get("c"), None);
    assert_eq!(t.get("A"), None);
    assert_eq!(t.get(""), None);
}

#[test]
fn insert_keeps_one_line_for_each_key() {
    let mut t = table(&[("a", 1), ("b", 2)]);
    t.insert("a".to_string(), 3);
    assert_eq!(t.len(), 2);
    assert_eq!(t.get("a"), Some(3));
    assert_eq!(t.get("b"), Some(2));
    assert_eq!(rows(&t), vec![("a".to_string(), 3), ("b".to_string(), 2)]);
    t.insert("c".to_string(), u64::MAX);
    assert_eq!(
        rows(&t),
        vec![("a".to_string(), 3), ("b".to_string(), 2), ("c".to_string(), u64::MAX)]
    );
}

#[test]
fn get_roles_leaves_out_the_role_to_remove() {
    assert_eq!(get_roles(&full()), vec!["Acme University", "Beta College"]);
    let mut only = full();
    only.roles = table(&[("REMOVE_ROLE_ID", 11)]);
    assert!(get_roles(&only).is_empty());
    only.roles = Table::new();
    assert!(get_roles(&only).is_empty());
}

#[test]
fn universities_keeps_the_order_and_the_ids() {
    assert_eq!(
        rows(&full().roles.universities()),
        vec![("Acme University".to_string(), 10), ("Beta College".to_string(), 12)]
    );
    assert_eq!(full().roles.universities().get("REMOVE_ROLE_ID"), None);
    assert_eq!(full().roles.universities().get("Beta College"), Some(12));
}

#[test]
fn from_data_resolves_every_identifier() {
    let config = Config::from_data(&full()).unwrap();
    assert_eq!(config.guild_id, 1);
    assert_eq!(config.remove_role, 11);
    assert_eq!(config.enroll_channel, 20);
    assert_eq!(config.reading_channel, 21);
    assert_eq!(config.destin_channel, 22);
    assert_eq!(
        rows(&config.universities),
        vec![("Acme University".to_string(), 10), ("Beta College".to_string(), 12)]
    );
}

#[test]
fn from_data_names_the_missing_key() {
    let mut data = full();
    data.channels = without(&data.channels, "DESTIN_CHANNEL_ID");
    assert_eq!(Config::from_data(&data).unwrap_err(), ConfigError::MissingDestinChannel);
    let mut data = full();
    data.channels = without(&data.channels, "READING_CHANNEL_ID");
    assert_eq!(Config::from_data(&data).unwrap_err(), ConfigError::MissingReadingChannel);
    let mut data = full();
    data.channels = without(&data.channels, "ENROLL_CHANNEL_ID");
    assert_eq!(Config::from_data(&data).unwrap_err(), ConfigError::MissingEnrollChannel);
    let mut data = full();
    data.guild = Table::new();
    assert_eq!(Config::from_data(&data).unwrap_err(), ConfigError::MissingGuild);
    let mut data = full();
    data.roles = without(&data.roles, "REMOVE_ROLE_ID");
    assert_eq!(Config::from_data(&data).unwrap_err(), ConfigError::MissingRemoveRole);
}

#[test]
fn from_data_names_the_first_missing_key() {
    let empty = Data { guild: Table::new(), roles: Table::new(), channels: Table::new() };
    assert_eq!(Config::from_data(&empty).unwrap_err(), ConfigError::MissingDestinChannel);
    let mut data = full();
    data.guild = Table::new();
    data.roles = Table::new();
    assert_eq!(Config::from_data(&data).unwrap_err(), ConfigError::MissingGuild);
}
