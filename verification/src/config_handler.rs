//! The configuration file `7thDeck.toml`: a TOML table of string settings.
use vstd::prelude::*;

verus! {

#[verifier::external_type_specification]
#[verifier::external_body]
pub struct ExTomlDeError(toml::de::Error);

#[verifier::external_type_specification]
#[verifier::external_body]
pub struct ExTomlSerError(toml::ser::Error);

/// A top-level entry of a TOML document: its key and, when its value is a string, the
/// string.
#[derive(Debug)]
pub struct TomlEntry {
    pub key: String,
    pub text: Option<String>,
}

/// The entries as plain values.
pub open spec fn entry_views(es: Seq<TomlEntry>) -> Seq<(Seq<char>, Option<Seq<char>>)> {
    Seq::new(es.len(), |k: int| (es[k].key@, match es[k].text { Some(t) => Some(t@), None => None }))
}

/// What `toml::from_str::<toml::Value>` yields for `text`, as the top-level entries
/// (key, and the string when the value is a string), sorted by key as toml's table
/// keeps them; `None` when the text is not a TOML document.
pub uninterp spec fn toml_entries(text: Seq<char>) -> Option<Seq<(Seq<char>, Option<Seq<char>>)>>;

/// `toml::from_str::<toml::Value>`: succeeds exactly when [`toml_entries`] is some, and
/// then gives those entries. (A document that is not a table has no entries, as
/// `toml::Value::get` finds no key in it.)
#[verifier::external_body]
fn parse_entries(text: &str) -> (r: Result<Vec<TomlEntry>, toml::de::Error>)
    ensures
        r is Ok <==> toml_entries(text@) is Some,
        r matches Ok(es) ==> entry_views(es@) == toml_entries(text@)->0,
{
    match toml::from_str::<toml::Value>(text) {
        Ok(toml::Value::Table(t)) => Ok(t.into_iter().map(|(key, v)| TomlEntry {
            key,
            text: match v {
                toml::Value::String(s) => Some(s),
                _ => None,
            },
        }).collect()),
        Ok(_) => Ok(Vec::new()),
        Err(e) => Err(e),
    }
}

/// Why a setting could not be read or the settings not written.
#[derive(Debug, PartialEq, Eq)]
pub enum ConfigError {
    /// The text is not a TOML document.
    Deserialize,
    /// No setting has the key (the key).
    KeyMissing(String),
    /// The setting is not a string (the key).
    NotString(String),
    /// The settings could not be written as TOML.
    Serialize,
}

/// The position of the first entry with key `key` (or the count of entries).
pub open spec fn key_position(es: Seq<(Seq<char>, Option<Seq<char>>)>, key: Seq<char>, from: int) -> int
    decreases es.len() - from,
{
    if from < 0 || from >= es.len() {
        es.len() as int
    } else if es[from].0 == key {
        from
    } else {
        key_position(es, key, from + 1)
    }
}

/// The string setting `key` among the entries: its string, or `KeyMissing` when no
/// entry has the key, or `NotString` when the first entry with the key is not a string.
pub fn lookup_string(entries: &Vec<TomlEntry>, key: &str) -> (r: Result<String, ConfigError>)
    ensures
        ({
            let es = entry_views(entries@);
            let k = key_position(es, key@, 0);
            &&& k == es.len() ==> (r matches Err(ConfigError::KeyMissing(s)) && s@ == key@)
            &&& k < es.len() && es[k].1 is None ==> (r matches Err(ConfigError::NotString(s)) && s@ == key@)
            &&& k < es.len() && es[k].1 is Some ==> (r matches Ok(v) && v@ == es[k].1->0)
        }),
{
    let ghost es = entry_views(entries@);
    let mut i: usize = 0;
    while i < entries.len()
        invariant
            es == entry_views(entries@),
            i <= entries@.len(),
            key_position(es, key@, i as int) == key_position(es, key@, 0),
        decreases entries.len() - i,
    {
        let k = entries[i].key.as_str();
        let kc = crate::text::chars_of(k);
        let keyc = crate::text::chars_of(key);
        if crate::text::same_chars(kc.as_slice(), keyc.as_slice()) {
            return match &entries[i].text {
                Some(t) => Ok(t.clone()),
                None => Err(ConfigError::NotString(key.to_string())),
            };
        }
        i = i + 1;
    }
    Err(ConfigError::KeyMissing(key.to_string()))
}

/// The string setting `key` of the TOML document `text` (see [`lookup_string`]);
/// `Deserialize` when the text is not TOML.
pub fn read_value(text: &str, key: &str) -> (r: Result<String, ConfigError>)
    ensures
        toml_entries(text@) is None ==> r == Err::<String, ConfigError>(ConfigError::Deserialize),
        toml_entries(text@) matches Some(es) ==> {
            let k = key_position(es, key@, 0);
            &&& k == es.len() ==> (r matches Err(ConfigError::KeyMissing(s)) && s@ == key@)
            &&& k < es.len() && es[k].1 is None ==> (r matches Err(ConfigError::NotString(s)) && s@ == key@)
            &&& k < es.len() && es[k].1 is Some ==> (r matches Ok(v) && v@ == es[k].1->0)
        },
{
    match parse_entries(text) {
        Ok(es) => lookup_string(&es, key),
        Err(_) => Err(ConfigError::Deserialize),
    }
}

/// The keys of the settings are pairwise distinct.
pub open spec fn distinct_keys(settings: Seq<(String, String)>) -> bool {
    forall|i: int, j: int| 0 <= i < j < settings.len() ==> settings[i].0@ != settings[j].0@
}

/// The settings as plain values.
pub open spec fn setting_views(settings: Seq<(String, String)>) -> Seq<(Seq<char>, Seq<char>)> {
    Seq::new(settings.len(), |k: int| (settings[k].0@, settings[k].1@))
}

/// What `toml::to_string` yields for a `toml::Table` of the string settings; `None`
/// when it fails.
pub uninterp spec fn toml_text(settings: Seq<(Seq<char>, Seq<char>)>) -> Option<Seq<char>>;

/// `toml::to_string` of the settings gathered in a `toml::Table` (one entry per
/// setting, the keys being distinct): the result is [`toml_text`] of the settings.
#[verifier::external_body]
fn serialize_settings(settings: &Vec<(String, String)>) -> (r: Result<String, toml::ser::Error>)
    requires
        distinct_keys(settings@),
    ensures
        r is Ok <==> toml_text(setting_views(settings@)) is Some,
        r matches Ok(s) ==> s@ == toml_text(setting_views(settings@))->0,
{
    let table: toml::Table = settings.iter().map(|(k, v)| (k.clone(), toml::Value::String(v.clone()))).collect();
    toml::to_string(&table)
}

/// The settings written as a TOML document (see [`toml_text`]); `Serialize` when that
/// fails.
pub fn write(settings: &Vec<(String, String)>) -> (r: Result<String, ConfigError>)
    requires
        distinct_keys(settings@),
    ensures
        toml_text(setting_views(settings@)) matches Some(t) ==> (r matches Ok(s) && s@ == t),
        toml_text(setting_views(settings@)) is None ==> r == Err::<String, ConfigError>(ConfigError::Serialize),
{
    match serialize_settings(settings) {
        Ok(s) => Ok(s),
        Err(_) => Err(ConfigError::Serialize),
    }
}

} // verus!
