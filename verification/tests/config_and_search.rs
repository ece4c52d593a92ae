//! Configuration lookups, directory placement, and search-result mapping.

use shunbin::config::{
    Config, ConfigError, DefaultOptsConfig, DefaultSearchOpts, FieldConfig, FieldsConfig,
    IndexConfig, SchemaConfig,
};
use shunbin::env::{config_dir, data_dir, get_default_config_path};
use shunbin::search::{Doc, SearchError};
use shunbin::table::Table;

fn index_config(root: &str) -> IndexConfig {
    let mut sources: Table<String> = Table::new();
    sources.insert("notes".to_string(), root.to_string());
    IndexConfig { path: None, schema: "default".to_string(), sources }
}

fn config_with(default_index: Option<&str>, index_names: &[&str]) -> Config {
    let mut indexes: Table<IndexConfig> = Table::new();
    for name in index_names {
        indexes.insert(name.to_string(), index_config("/data/notes"));
    }
    Config {
        default_opts: default_index.map(|i| DefaultOptsConfig {
            search: Some(DefaultSearchOpts { index: Some(i.to_string()), limit: None }),
        }),
        indexes,
        schema: Table::new(),
        tokenizers: Table::new(),
    }
}

#[test]
fn default_index_prefers_configured_default() {
    let c = config_with(Some("docs"), &["docs", "wiki"]);
    assert_eq!(c.get_default_search_index_name().unwrap(), "docs");
}

#[test]
fn default_index_falls_back_to_sole_index() {
    let c = config_with(None, &["docs"]);
    assert_eq!(c.get_default_search_index_name().unwrap(), "docs");
}

#[test]
fn default_index_fails_among_several_indexes() {
    let c = config_with(None, &["docs", "wiki"]);
    assert!(matches!(
        c.get_default_search_index_name(),
        Err(ConfigError::NoDefaultIndexName)
    ));
}

#[test]
fn default_limit_falls_back_to_ten() {
    let c = config_with(None, &["docs"]);
    assert_eq!(c.get_default_search_limit(), 10);
    let mut with_limit = config_with(None, &["docs"]);
    with_limit.default_opts = Some(DefaultOptsConfig {
        search: Some(DefaultSearchOpts { index: None, limit: Some(25) }),
    });
    assert_eq!(with_limit.get_default_search_limit(), 25);
}

#[test]
fn schema_lookup_names_the_missing_schema() {
    let mut c = config_with(None, &["docs"]);
    c.schema.insert(
        "default".to_string(),
        SchemaConfig {
            fields: FieldsConfig {
                body: Some(FieldConfig { tokenizer: "lang".to_string() }),
                title: None,
            },
        },
    );
    let found = c.get_schema("default").unwrap();
    assert_eq!(found.fields.body.unwrap().tokenizer, "lang");
    match c.get_schema("absent") {
        Err(ConfigError::NotFoundSchema { schema_name }) => assert_eq!(schema_name, "absent"),
        other => panic!("expected a missing-schema failure, got {:?}", other),
    }
}

#[test]
fn index_path_prefers_configured_path() {
    let mut with_path = index_config("/data/notes");
    with_path.path = Some("/custom/location".to_string());
    assert_eq!(with_path.get_path("docs", "/home/u/.local/share/shunbin"), "/custom/location");
    let without = index_config("/data/notes");
    assert_eq!(
        without.get_path("docs", "/home/u/.local/share/shunbin"),
        "/home/u/.local/share/shunbin/indexes/docs"
    );
}

#[test]
fn app_directories_sit_below_the_xdg_homes() {
    assert_eq!(data_dir("/home/u/.local/share"), "/home/u/.local/share/shunbin");
    assert_eq!(config_dir("/home/u/.config"), "/home/u/.config/shunbin");
    assert_eq!(
        get_default_config_path(config_dir("/home/u/.config").as_str()),
        "/home/u/.config/shunbin/config.toml"
    );
}

#[test]
fn absolute_path_joins_root_and_relative_path() {
    let mut sources: Table<String> = Table::new();
    sources.insert("notes".to_string(), "/data/notes".to_string());
    let doc = Doc {
        title: "A".to_string(),
        updated_at: 0,
        source: "notes".to_string(),
        path: "sub/a.md".to_string(),
    };
    assert_eq!(doc.absolute_path(&sources).unwrap(), "/data/notes/sub/a.md");
}

#[test]
fn absolute_path_fails_exactly_on_unknown_source() {
    let sources: Table<String> = Table::new();
    let doc = Doc {
        title: "A".to_string(),
        updated_at: 0,
        source: "gone".to_string(),
        path: "a.md".to_string(),
    };
    match doc.absolute_path(&sources) {
        Err(SearchError::SourceNotFound { source, path }) => {
            assert_eq!(source, "gone");
            assert_eq!(path, "a.md");
        },
        Ok(p) => panic!("expected an unknown-source failure, got {}", p),
    }
}

#[test]
fn doc_fields_default_when_missing() {
    let d = Doc::from_fields(None, None, None, None);
    assert_eq!(d.title, "");
    assert_eq!(d.path, "");
    assert_eq!(d.updated_at, 0);
    assert_eq!(d.source, "");
    let full = Doc::from_fields(
        Some("T".to_string()),
        Some("p.md".to_string()),
        Some(9),
        Some("s".to_string()),
    );
    assert_eq!(full.title, "T");
    assert_eq!(full.path, "p.md");
    assert_eq!(full.updated_at, 9);
    assert_eq!(full.source, "s");
}

#[test]
fn table_insert_replaces_and_preserves_order() {
    let mut t: Table<i64> = Table::new();
    t.insert("a".to_string(), 1);
    t.insert("b".to_string(), 2);
    t.insert("a".to_string(), 3);
    assert_eq!(t.len(), 2);
    assert_eq!(t.key_at(0), "a");
    assert_eq!(*t.value_at(0), 3);
    assert_eq!(t.get("b").copied(), Some(2));
    assert_eq!(t.get("c"), None);
}
