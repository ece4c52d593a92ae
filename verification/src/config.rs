//! Configuration data and its lookups: named indexes with their sources,
//! named schemas, named tokenizers, and the defaults a search falls back to.
//! Loading the configuration file is the caller's job; the types here hold
//! what it read, as plain values.

use vstd::prelude::*;

use crate::table::Table;
use crate::text::{joined, join_path};

verus! {

/// One text field of a schema: which tokenizer analyses it (the engine's
/// default when the name is empty).
#[derive(Debug)]
pub struct FieldConfig {
    /// The tokenizer name.
    pub tokenizer: String,
}

impl Clone for FieldConfig {
    fn clone(&self) -> (r: Self)
        ensures
            r == *self,
    {
        FieldConfig { tokenizer: self.tokenizer.clone() }
    }
}

impl Default for FieldConfig {
    /// The default field configuration: the engine's default tokenizer.
    fn default() -> (r: Self)
        ensures
            r.tokenizer@ == Seq::<char>::empty(),
    {
        FieldConfig { tokenizer: String::new() }
    }
}

/// The configurable fields of a schema.
#[derive(Debug)]
pub struct FieldsConfig {
    /// Configuration of the `body` field, when given.
    pub body: Option<FieldConfig>,
    /// Configuration of the `title` field, when given.
    pub title: Option<FieldConfig>,
}

impl Clone for FieldsConfig {
    fn clone(&self) -> (r: Self)
        ensures
            r == *self,
    {
        FieldsConfig {
            body: match &self.body {
                Some(f) => Some(f.clone()),
                None => None,
            },
            title: match &self.title {
                Some(f) => Some(f.clone()),
                None => None,
            },
        }
    }
}

/// One named schema.
#[derive(Debug)]
pub struct SchemaConfig {
    /// Its configurable fields.
    pub fields: FieldsConfig,
}

impl Clone for SchemaConfig {
    fn clone(&self) -> (r: Self)
        ensures
            r == *self,
    {
        SchemaConfig { fields: self.fields.clone() }
    }
}

/// Split granularity of the morphological tokenizer.
#[derive(Clone, Copy, Debug, PartialEq, Eq, Structural)]
pub enum SudachiSplitMode {
    A,
    B,
    C,
}

/// One named tokenizer: the pass-through tokenizer, or the morphological
/// one with its dictionary and split granularity.
#[derive(Debug)]
pub enum TokenizerConfig {
    Sudachi { dict: String, user_dict: Option<String>, mode: SudachiSplitMode },
    Raw,
}

/// Defaults for the search command.
#[derive(Debug)]
pub struct DefaultSearchOpts {
    /// The index searched when none is named.
    pub index: Option<String>,
    /// The result limit applied when none is given.
    pub limit: Option<usize>,
}

/// The configuration's optional defaults.
#[derive(Debug)]
pub struct DefaultOptsConfig {
    /// Defaults for the search command.
    pub search: Option<DefaultSearchOpts>,
}

/// One named index: where it is stored, which schema types it, and the
/// sources that feed it.
#[derive(Debug)]
pub struct IndexConfig {
    /// Where the index is stored; a default location below the data
    /// directory when absent.
    pub path: Option<String>,
    /// The name of the schema that types the index.
    pub schema: String,
    /// The sources feeding the index: source name to root directory.
    pub sources: Table<String>,
}

impl IndexConfig {
    /// Where the index named `index_name` is stored: the configured path,
    /// or `<data_dir>/indexes/<index_name>`. The caller resolves the data
    /// directory from the environment.
    pub fn get_path(&self, index_name: &str, data_dir: &str) -> (r: String)
        ensures
            r@ == match self.path {
                Some(p) => p@,
                None => joined(joined(data_dir@, "indexes"@), index_name@),
            },
    {
        match &self.path {
            Some(p) => p.clone(),
            None => {
                let below = join_path(data_dir, "indexes");
                join_path(below.as_str(), index_name)
            },
        }
    }
}

/// Why a configuration lookup failed.
#[derive(Debug)]
pub enum ConfigError {
    /// The configuration file could not be read.
    IOError { message: String },
    /// No schema of the requested name is configured.
    NotFoundSchema { schema_name: String },
    /// The configuration file could not be parsed.
    ParseError { message: String },
    /// No index to search could be determined.
    NoDefaultIndexName,
}

/// The whole configuration.
#[derive(Debug)]
pub struct Config {
    /// Optional defaults.
    pub default_opts: Option<DefaultOptsConfig>,
    /// The named indexes.
    pub indexes: Table<IndexConfig>,
    /// The named schemas.
    pub schema: Table<SchemaConfig>,
    /// The named tokenizers.
    pub tokenizers: Table<TokenizerConfig>,
}

impl Config {
    /// The search index the defaults name, if any.
    pub open spec fn spec_default_index(self) -> Option<Seq<char>> {
        match self.default_opts {
            Some(o) => match o.search {
                Some(s) => match s.index {
                    Some(i) => Some(i@),
                    None => None,
                },
                None => None,
            },
            None => None,
        }
    }

    /// The search limit the defaults name, or 10.
    pub open spec fn spec_default_limit(self) -> usize {
        match self.default_opts {
            Some(o) => match o.search {
                Some(s) => match s.limit {
                    Some(l) => l,
                    None => 10,
                },
                None => 10,
            },
            None => 10,
        }
    }

    /// The index a search falls back to when none is named: the configured
    /// default; failing that, the sole configured index; with several
    /// indexes and no default, an error.
    pub fn get_default_search_index_name(&self) -> (r: Result<String, ConfigError>)
        ensures
            match r {
                Ok(name) => match self.spec_default_index() {
                    Some(n) => name@ == n,
                    None => self.indexes.entries_view().len() == 1 && name@
                        == self.indexes.entries_view()[0].0,
                },
                Err(e) => {
                    &&& e is NoDefaultIndexName
                    &&& self.spec_default_index() is None
                    &&& self.indexes.entries_view().len() != 1
                },
            },
    {
        if let Some(o) = &self.default_opts {
            if let Some(s) = &o.search {
                if let Some(i) = &s.index {
                    return Ok(i.clone());
                }
            }
        }
        if self.indexes.len() == 1 {
            Ok(self.indexes.key_at(0).clone())
        } else {
            Err(ConfigError::NoDefaultIndexName)
        }
    }

    /// The result limit a search falls back to when none is given.
    pub fn get_default_search_limit(&self) -> (r: usize)
        ensures
            r == self.spec_default_limit(),
    {
        if let Some(o) = &self.default_opts {
            if let Some(s) = &o.search {
                if let Some(l) = s.limit {
                    return l;
                }
            }
        }
        10
    }

    /// The schema configured under `name`; an error naming the schema when
    /// none is.
    pub fn get_schema(&self, name: &str) -> (r: Result<SchemaConfig, ConfigError>)
        ensures
            match r {
                Ok(sc) => self.schema.spec_get(name@) == Some(sc),
                Err(e) => {
                    &&& self.schema.spec_get(name@) is None
                    &&& e matches ConfigError::NotFoundSchema { schema_name } && schema_name@
                        == name@
                },
            },
    {
        match self.schema.get(name) {
            Some(sc) => Ok(sc.clone()),
            None => Err(ConfigError::NotFoundSchema { schema_name: String::from_str(name) }),
        }
    }
}

} // verus!
