//! Reading a configuration from a TOML document.
//!
//! The document has up to three tables at its top: `files`, `languages` and
//! `projects`, each from a key to a command template. A table that is absent
//! counts as empty. Anything else under one of these names, and any value in
//! them that is no string, is an error, as is text that is no TOML.
//! The TOML itself is read by the `toml` crate.

use vstd::prelude::*;
use crate::config::{ConfigView, RunnerConfig};
use crate::mapping::Mapping;
use crate::text::{owned, texts};

verus! {

/// `toml::map::Map`, the table type of the `toml` crate; a document and each
/// of its tables is a `Map<String, Value>`.
#[verifier::external_type_specification]
#[verifier::external_body]
#[verifier::reject_recursive_types(K)]
#[verifier::reject_recursive_types(V)]
pub struct ExTomlMap<K, V>(toml::map::Map<K, V>);

/// `toml::Value`, one value of a document: a string, a table, or something
/// else.
#[verifier::external_type_specification]
#[verifier::external_body]
pub struct ExTomlValue(toml::Value);

/// `toml::de::Error`, what the parser reports for text that is no TOML.
#[verifier::external_type_specification]
#[verifier::external_body]
pub struct ExTomlError(toml::de::Error);

/// What the `toml` crate makes of a text: the table at the top of the
/// document, or the error it reports.
pub uninterp spec fn parsed(text: Seq<char>) -> Result<
    toml::map::Map<String, toml::Value>,
    toml::de::Error,
>;

/// The entries of a TOML table, by key.
pub uninterp spec fn table_entries(t: toml::map::Map<String, toml::Value>) -> Map<
    Seq<char>,
    toml::Value,
>;

/// The string that a TOML value is, if it is a string.
pub uninterp spec fn value_text(v: toml::Value) -> Option<Seq<char>>;

/// The table that a TOML value is, if it is a table.
pub uninterp spec fn value_table(v: toml::Value) -> Option<toml::map::Map<String, toml::Value>>;

/// The message of a TOML error.
pub uninterp spec fn error_text(e: toml::de::Error) -> Seq<char>;

/// The `FromStr` impl of `toml::Table`: reads a whole document. The result
/// is a function of the text alone.
#[verifier::external_body]
fn parse_table(text: &str) -> (r: Result<toml::map::Map<String, toml::Value>, toml::de::Error>)
    ensures
        r == parsed(text@),
{
    text.parse::<toml::Table>()
}

/// `toml::map::Map::get`: the value under `key`, if the table has that key.
#[verifier::external_body]
fn table_get<'a>(t: &'a toml::map::Map<String, toml::Value>, key: &str) -> (r: Option<
    &'a toml::Value,
>)
    ensures
        match r {
            Some(v) => table_entries(*t).contains_key(key@) && table_entries(*t)[key@] == *v,
            None => !table_entries(*t).contains_key(key@),
        },
{
    t.get(key)
}

/// `toml::map::Map::keys`: every key of the table, each once.
#[verifier::external_body]
fn table_keys(t: &toml::map::Map<String, toml::Value>) -> (r: Vec<String>)
    ensures
        texts(r@).no_duplicates(),
        texts(r@).to_set() == table_entries(*t).dom(),
{
    t.keys().cloned().collect()
}

/// `toml::Value::as_str`: the string, if the value is a string.
#[verifier::external_body]
fn as_text<'a>(v: &'a toml::Value) -> (r: Option<&'a str>)
    ensures
        match r {
            Some(s) => value_text(*v) == Some(s@),
            None => value_text(*v) is None,
        },
{
    v.as_str()
}

/// `toml::Value::as_table`: the table, if the value is a table.
#[verifier::external_body]
fn as_table<'a>(v: &'a toml::Value) -> (r: Option<&'a toml::map::Map<String, toml::Value>>)
    ensures
        match r {
            Some(t) => value_table(*v) == Some(*t),
            None => value_table(*v) is None,
        },
{
    v.as_table()
}

/// `toml::de::Error::message`: what went wrong, without the place.
#[verifier::external_body]
fn message(e: &toml::de::Error) -> (r: String)
    ensures
        r@ == error_text(*e),
{
    e.message().to_string()
}

/// Why a text is no configuration.
#[derive(Debug, PartialEq, Eq)]
pub enum ConfigError {
    /// The text is no TOML document; holds the parser's message.
    Syntax(String),
    /// What stands under the name of a mapping is no table; holds the name.
    NotATable(String),
    /// A value in a mapping is no string; holds the mapping's name and the
    /// key.
    NotAString(String, String),
}

/// The table under `name` at the top of a document, if a table stands there.
pub open spec fn section_table(
    doc: toml::map::Map<String, toml::Value>,
    name: Seq<char>,
) -> Option<toml::map::Map<String, toml::Value>> {
    if table_entries(doc).contains_key(name) {
        value_table(table_entries(doc)[name])
    } else {
        None
    }
}

/// `key` stands in the table with a value that is no string.
pub open spec fn bad_value(t: toml::map::Map<String, toml::Value>, key: Seq<char>) -> bool {
    table_entries(t).contains_key(key) && value_text(table_entries(t)[key]) is None
}

/// The mapping that a table of strings stands for.
pub open spec fn table_mapping(t: toml::map::Map<String, toml::Value>) -> Map<
    Seq<char>,
    Seq<char>,
> {
    Map::new(
        |k: Seq<char>| table_entries(t).contains_key(k),
        |k: Seq<char>| value_text(table_entries(t)[k])->0,
    )
}

/// What the section `name` of a document holds is a mapping: it is absent,
/// or a table of strings.
pub open spec fn section_sound(doc: toml::map::Map<String, toml::Value>, name: Seq<char>) -> bool {
    !table_entries(doc).contains_key(name) || (section_table(doc, name) is Some && forall|
        k: Seq<char>,
    |
        !bad_value(section_table(doc, name)->0, k))
}

/// The mapping in the section `name` of a document; empty where the section
/// is absent.
pub open spec fn section_mapping(
    doc: toml::map::Map<String, toml::Value>,
    name: Seq<char>,
) -> Map<Seq<char>, Seq<char>> {
    if table_entries(doc).contains_key(name) {
        table_mapping(section_table(doc, name)->0)
    } else {
        Map::empty()
    }
}

/// `e` says what is wrong with the section `name` of a document.
pub open spec fn section_fault(
    doc: toml::map::Map<String, toml::Value>,
    name: Seq<char>,
    e: ConfigError,
) -> bool {
    table_entries(doc).contains_key(name) && match e {
        ConfigError::Syntax(_) => false,
        ConfigError::NotATable(n) => n@ == name && section_table(doc, name) is None,
        ConfigError::NotAString(n, k) => n@ == name && section_table(doc, name) is Some
            && bad_value(section_table(doc, name)->0, k@),
    }
}

/// The configuration that a document stands for.
pub open spec fn document_config(doc: toml::map::Map<String, toml::Value>) -> ConfigView {
    ConfigView {
        files: section_mapping(doc, "files"@),
        languages: section_mapping(doc, "languages"@),
        projects: section_mapping(doc, "projects"@),
    }
}

/// Reads one mapping out of a document. Succeeds exactly when the section is
/// sound; the error names the section and, for a value that is no string,
/// one key with such a value.
pub fn read_section(doc: &toml::map::Map<String, toml::Value>, name: &str) -> (r: Result<
    Mapping,
    ConfigError,
>)
    ensures
        match r {
            Ok(m) => section_sound(*doc, name@) && m.wf() && m@ == section_mapping(*doc, name@),
            Err(e) => !section_sound(*doc, name@) && section_fault(*doc, name@, e),
        },
{
    let value = match table_get(doc, name) {
        Some(v) => v,
        None => {
            return Ok(Mapping::new());
        },
    };
    let table = match as_table(value) {
        Some(t) => t,
        None => {
            return Err(ConfigError::NotATable(owned(name)));
        },
    };
    let keys = table_keys(table);
    let mut m = Mapping::new();
    let mut i: usize = 0;
    while i < keys.len()
        invariant
            i <= keys.len(),
            m.wf(),
            table_entries(*doc).contains_key(name@),
            value_table(table_entries(*doc)[name@]) == Some(*table),
            texts(keys@).to_set() == table_entries(*table).dom(),
            forall|k: Seq<char>|
                m@.contains_key(k) <==> texts(keys@).take(i as int).contains(k),
            forall|k: Seq<char>| #[trigger]
                m@.contains_key(k) ==> !bad_value(*table, k) && m@[k] == value_text(
                    table_entries(*table)[k],
                )->0,
        decreases keys.len() - i,
    {
        let key = keys[i].clone();
        assert(texts(keys@)[i as int] == key@);
        assert(texts(keys@).to_set().contains(key@));
        let ghost before = m@;
        let ghost key_text = key@;
        match table_get(table, key.as_str()) {
            Some(v) => match as_text(v) {
                Some(s) => {
                    m.insert(key, owned(s));
                },
                None => {
                    assert(bad_value(section_table(*doc, name@)->0, key@));
                    return Err(ConfigError::NotAString(owned(name), key));
                },
            },
            None => {
                assert(false);
            },
        }
        proof {
            assert(m@ == before.insert(key_text, value_text(table_entries(*table)[key_text])->0));
            assert forall|k: Seq<char>| #[trigger] m@.contains_key(k) implies !bad_value(*table, k)
                && m@[k] == value_text(table_entries(*table)[k])->0 by {
                if k != key_text {
                    assert(before.contains_key(k));
                    assert(before[k] == value_text(table_entries(*table)[k])->0);
                }
            }
            let done = texts(keys@).take(i as int);
            let next = texts(keys@).take(i + 1);
            assert(next =~= done.push(texts(keys@)[i as int]));
            assert forall|k: Seq<char>| m@.contains_key(k) <==> next.contains(k) by {
                if next.contains(k) {
                    let j = choose|j: int| 0 <= j < next.len() && next[j] == k;
                    if j < i {
                        assert(done[j] == k);
                    }
                }
                if before.contains_key(k) {
                    let j = choose|j: int| 0 <= j < done.len() && done[j] == k;
                    assert(next[j] == k);
                }
                assert(next[i as int] == texts(keys@)[i as int]);
            }
        }
        i += 1;
    }
    proof {
        assert(texts(keys@).take(keys.len() as int) =~= texts(keys@));
        assert forall|k: Seq<char>| m@.contains_key(k) <==> table_entries(*table).contains_key(
            k,
        ) by {
            assert(texts(keys@).to_set().contains(k) <==> texts(keys@).contains(k));
        }
        assert(m@ =~= table_mapping(*table));
        assert forall|k: Seq<char>| !bad_value(*table, k) by {
            if table_entries(*table).contains_key(k) {
                assert(m@.contains_key(k));
            }
        }
    }
    Ok(m)
}

/// Reads the three mappings out of a document, in the order files,
/// languages, projects. Succeeds exactly when all three sections are sound;
/// the error is that of the first section that is not.
pub fn config_from_table(doc: &toml::map::Map<String, toml::Value>) -> (r: Result<
    RunnerConfig,
    ConfigError,
>)
    ensures
        match r {
            Ok(c) => c.wf() && c@ == document_config(*doc) && section_sound(*doc, "files"@)
                && section_sound(*doc, "languages"@) && section_sound(*doc, "projects"@),
            Err(e) => {
                ||| section_fault(*doc, "files"@, e)
                ||| section_sound(*doc, "files"@) && section_fault(*doc, "languages"@, e)
                ||| section_sound(*doc, "files"@) && section_sound(*doc, "languages"@)
                    && section_fault(*doc, "projects"@, e)
            },
        },
{
    let files = match read_section(doc, "files") {
        Ok(m) => m,
        Err(e) => {
            return Err(e);
        },
    };
    let languages = match read_section(doc, "languages") {
        Ok(m) => m,
        Err(e) => {
            return Err(e);
        },
    };
    let projects = match read_section(doc, "projects") {
        Ok(m) => m,
        Err(e) => {
            return Err(e);
        },
    };
    Ok(RunnerConfig::new(files, languages, projects))
}

/// What reading a configuration from a text gives, for a given outcome of
/// the TOML parser.
pub open spec fn config_outcome(
    outcome: Result<toml::map::Map<String, toml::Value>, toml::de::Error>,
    r: Result<RunnerConfig, ConfigError>,
) -> bool {
    match outcome {
        Ok(doc) => match r {
            Ok(c) => c.wf() && c@ == document_config(doc) && section_sound(doc, "files"@)
                && section_sound(doc, "languages"@) && section_sound(doc, "projects"@),
            Err(e) => {
                ||| section_fault(doc, "files"@, e)
                ||| section_sound(doc, "files"@) && section_fault(doc, "languages"@, e)
                ||| section_sound(doc, "files"@) && section_sound(doc, "languages"@)
                    && section_fault(doc, "projects"@, e)
            },
        },
        Err(fault) => r matches Err(ConfigError::Syntax(text)) && text@ == error_text(fault),
    }
}

/// Reads a configuration from the text of a TOML document. Text that is no
/// TOML gives `Syntax` with the parser's message; a document is then read as
/// `config_from_table` reads it.
pub fn parse_config(text: &str) -> (r: Result<RunnerConfig, ConfigError>)
    ensures
        config_outcome(parsed(text@), r),
{
    match parse_table(text) {
        Ok(doc) => config_from_table(&doc),
        Err(fault) => Err(ConfigError::Syntax(message(&fault))),
    }
}

} // verus!
