use discord_resources::resource::{BuildError, Embed, Message, Resource, LINK_TYPE};
use discord_resources::store::{
    escape_like, like_pattern, resources_from_rows, RowText, StoreError, resource_from_columns, schema_statements, search_sql, INSERT_SQL, SAMPLE_SQL,
    SEARCH_SQL,
};
use discord_resources::text::{normalize, strip_quotes};

fn embed(title: &str, description: &str, url: &str) -> Embed {
    Embed {
        title: Some(title.to_string()),
        description: Some(description.to_string()),
        url: Some(url.to_string()),
    }
}

fn message(embeds: Vec<Embed>) -> Message {
    Message { author_id: 1234, channel_id: 987654321, embeds }
}

#[test]
fn new_without_embeds_is_empty() {
    let r = Resource::new(&message(vec![])).unwrap();
    assert_eq!(r.url, "");
    assert_eq!(r.description, "");
    assert_eq!(r.user_id, "1234");
    assert_eq!(r.channel_id, "987654321");
    assert_eq!(r.type_id, 10);
    assert_eq!(LINK_TYPE, 10);
    assert_eq!(r.shash, Resource::_calculate_hash(&String::new()).to_string());
}

#[test]
fn new_joins_fragments_in_order() {
    let r = Resource::new(&message(vec![
        embed("\"Rust Book\"", "\"Learn Rust\"", "  \"HTTPS://Doc.Rust-Lang.org\"  "),
        embed("\"Verus\"", "\"Proofs\"", "\"https://Verus.dev\" "),
    ]))
    .unwrap();
    assert_eq!(
        r.description,
        "|url: \"https://doc.rust-lang.org\" + \"rust book\" + \"learn rust\"\
         |url: \"https://verus.dev\" + \"verus\" + \"proofs\""
    );
}

#[test]
fn new_keeps_only_last_url() {
    let r = Resource::new(&message(vec![
        embed("a", "b", "HTTP://First.example"),
        embed("c", "d", "  HTTP://Second.Example  "),
    ]))
    .unwrap();
    assert_eq!(r.url, "http://second.example");
}

#[test]
fn new_trims_the_whole_description() {
    let r = Resource::new(&message(vec![embed("T", "  Tail  ", "u")])).unwrap();
    assert_eq!(r.description, "|url: u + t +   tail");
    assert_eq!(r.url, "u");
}

#[test]
fn reordering_embeds_changes_description() {
    let a = Resource::new(&message(vec![embed("one", "x", "u1"), embed("two", "y", "u2")])).unwrap();
    let b = Resource::new(&message(vec![embed("two", "y", "u2"), embed("one", "x", "u1")])).unwrap();
    assert_ne!(a.description, b.description);
    assert_ne!(a.url, b.url);
}

#[test]
fn new_reports_first_incomplete_embed() {
    let mut broken = embed("t", "d", "u");
    broken.url = None;
    let mut also_broken = embed("t", "d", "u");
    also_broken.title = None;
    let r = Resource::new(&message(vec![embed("t", "d", "u"), broken, also_broken]));
    assert_eq!(r.unwrap_err(), BuildError::MissingEmbedField(1));
}

#[test]
fn missing_description_is_reported() {
    let mut broken = embed("t", "d", "u");
    broken.description = None;
    let r = Resource::new(&message(vec![broken]));
    assert_eq!(r.unwrap_err(), BuildError::MissingEmbedField(0));
}

#[test]
fn shash_is_deterministic() {
    let m = || message(vec![embed("Same", "Text", "https://same.example")]);
    let a = Resource::new(&m()).unwrap();
    let b = Resource::new(&m()).unwrap();
    assert_eq!(a.shash, b.shash);
    assert_eq!(a.shash, Resource::_calculate_hash(&a.description).to_string());
    assert!(a.shash.chars().all(|c| c.is_ascii_digit()));
}

#[test]
fn calculate_hash_depends_on_text() {
    let a = Resource::_calculate_hash(&"alpha".to_string());
    let b = Resource::_calculate_hash(&"alpha".to_string());
    let c = Resource::_calculate_hash(&"beta".to_string());
    assert_eq!(a, b);
    assert_ne!(a, c);
}

#[test]
fn insertable_needs_url_and_description() {
    let mut r = Resource::default();
    assert!(!r.is_insertable());
    r.url = "https://a.example".to_string();
    assert!(!r.is_insertable());
    r.url = String::new();
    r.description = "text".to_string();
    assert!(!r.is_insertable());
    r.url = "https://a.example".to_string();
    assert!(r.is_insertable());
}

#[test]
fn normalize_lowercases_and_trims() {
    assert_eq!(normalize("  HeLLo World \n"), "hello world");
    assert_eq!(normalize(""), "");
}

#[test]
fn strip_quotes_removes_every_quote() {
    assert_eq!(strip_quotes("\"https://a.example\""), "https://a.example");
    assert_eq!(strip_quotes("a\"b\"\"c"), "abc");
    assert_eq!(strip_quotes("\"\""), "");
    assert_eq!(strip_quotes("plain"), "plain");
}

#[test]
fn like_pattern_wraps_term() {
    assert_eq!(like_pattern("rust"), "%rust%");
    assert_eq!(like_pattern(""), "%%");
}

#[test]
fn search_sql_pages() {
    assert_eq!(search_sql(10, 0), format!("{} OFFSET 0 LIMIT 10", SEARCH_SQL));
    assert_eq!(search_sql(5, 1), format!("{} OFFSET 5 LIMIT 5", SEARCH_SQL));
    assert_eq!(search_sql(0, 3), format!("{} OFFSET 0 LIMIT 0", SEARCH_SQL));
    assert_eq!(
        search_sql(65535, 65535),
        format!("{} OFFSET 4294836225 LIMIT 65535", SEARCH_SQL)
    );
}

#[test]
fn row_columns_become_resource() {
    let r = resource_from_columns(
        "42".to_string(),
        "7".to_string(),
        "\"https://one.example\"".to_string(),
        "|url: x + y + z".to_string(),
    );
    assert_eq!(r.user_id, "42");
    assert_eq!(r.channel_id, "7");
    assert_eq!(r.url, "https://one.example");
    assert_eq!(r.description, "|url: x + y + z");
    assert_eq!(r.shash, "");
    assert_eq!(r.type_id, 0);
}

#[test]
fn normalize_trims_unicode_white_space() {
    assert_eq!(normalize("\u{3000}\u{a0}Wide Space\u{2029}\t"), "wide space");
    assert_eq!(normalize("x\u{200b}"), "x\u{200b}");
}

#[test]
fn schema_statements_in_order() {
    let s = schema_statements();
    assert_eq!(s.len(), 10);
    assert!(s[0].starts_with("CREATE TABLE channels"));
    assert!(s[1].starts_with("ALTER TABLE channels"));
    assert!(s[2].starts_with("CREATE TABLE resources"));
    assert_eq!(s[9], "CREATE INDEX ix_resources_user ON resources (user_id);");
}

#[test]
fn statements_name_the_resources_table() {
    assert!(INSERT_SQL.contains("user_id, channel_id, url, description, type_id, shash"));
    assert!(INSERT_SQL.contains("($1, $2, $3, $4, $5, $6)"));
    assert!(SEARCH_SQL.ends_with("ORDER BY id DESC"));
    assert!(SAMPLE_SQL.ends_with("limit 1"));
}

fn row(user: &str, channel: &str, url: &str, description: &str) -> RowText {
    RowText {
        user_id: Some(user.to_string()),
        channel_id: Some(channel.to_string()),
        url: Some(url.to_string()),
        description: Some(description.to_string()),
    }
}

#[test]
fn like_pattern_escapes_wildcards() {
    assert_eq!(escape_like("50%_a\\b"), "50\\%\\_a\\\\b");
    assert_eq!(like_pattern("100%"), "%100\\%%");
    assert_eq!(escape_like("plain"), "plain");
}

#[test]
fn rows_are_read_back_in_order() {
    let rows = vec![
        row("1", "10", "\"https://new.example\"", "newest"),
        row("2", "20", "https://old.example", "older"),
    ];
    let v = resources_from_rows(&rows, 10).unwrap();
    assert_eq!(v.len(), 2);
    assert_eq!(v[0].user_id, "1");
    assert_eq!(v[0].channel_id, "10");
    assert_eq!(v[0].url, "https://new.example");
    assert_eq!(v[0].description, "newest");
    assert_eq!(v[1].user_id, "2");
    assert_eq!(v[1].description, "older");
}

#[test]
fn rows_are_capped() {
    let rows = vec![row("1", "1", "a", "a"), row("2", "2", "b", "b"), row("3", "3", "c", "c")];
    let v = resources_from_rows(&rows, 2).unwrap();
    assert_eq!(v.len(), 2);
    assert_eq!(v[1].user_id, "2");
    assert!(resources_from_rows(&rows, 0).unwrap().is_empty());
    assert!(resources_from_rows(&Vec::new(), 5).unwrap().is_empty());
}

#[test]
fn incomplete_row_is_an_error_only_when_read() {
    let mut broken = row("9", "9", "u", "d");
    broken.url = None;
    let rows = vec![row("1", "1", "a", "a"), broken];
    assert_eq!(resources_from_rows(&rows, 1).unwrap().len(), 1);
    assert_eq!(resources_from_rows(&rows, 2).unwrap_err(), StoreError::Row);
    assert!(resources_from_rows(&rows, 0).unwrap().is_empty());
}
