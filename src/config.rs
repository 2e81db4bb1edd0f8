//! The persisted settings: source directory, destination directory and the
//! backup interval in hours.
use vstd::prelude::*;

verus! {

/// The interval used where none is stored.
pub const DEFAULT_INTERVAL_HOURS: u32 = 24;

pub const SOURCE_KEY: &'static str = "minecraft_directory";

pub const BACKUP_KEY: &'static str = "backup_directory";

pub const INTERVAL_KEY: &'static str = "backup_frequency";

/// The member `key` of the JSON object in `text`, where `text` is a JSON object
/// and that member is a string.
pub uninterp spec fn json_str_member(text: Seq<char>, key: Seq<char>) -> Option<Seq<char>>;

/// The member `key` of the JSON object in `text`, where `text` is a JSON object
/// and that member is an integer that fits in an `i64`.
pub uninterp spec fn json_i64_member(text: Seq<char>, key: Seq<char>) -> Option<i64>;

/// Relies on serde_json's `from_str` into a `Value`, `Value::get`,
/// `Value::as_str` and `Value::as_i64`: the string members `text_key_a` and
/// `text_key_b` and the integer member `int_key` of the object in `text`; each
/// is none where the text does not parse or the member is missing or of
/// another type.
#[verifier::external_body]
fn json_members(text: &str, text_key_a: &str, text_key_b: &str, int_key: &str) -> (r: (
    Option<String>,
    Option<String>,
    Option<i64>,
))
    ensures
        opt_view(r.0) == json_str_member(text@, text_key_a@),
        opt_view(r.1) == json_str_member(text@, text_key_b@),
        r.2 == json_i64_member(text@, int_key@),
{
    let v: serde_json::Value = match serde_json::from_str(text) {
        Ok(v) => v,
        Err(_) => return (None, None, None),
    };
    let a = v.get(text_key_a).and_then(serde_json::Value::as_str).map(String::from);
    let b = v.get(text_key_b).and_then(serde_json::Value::as_str).map(String::from);
    (a, b, v.get(int_key).and_then(serde_json::Value::as_i64))
}

/// Relies on serde_json's `Map::insert`, `Value::from` and `to_string_pretty`:
/// a JSON object whose members `text_key_a` and `text_key_b` hold the strings
/// given (null where absent) and whose member `int_key` holds `n`. serde_json's
/// own parsing (see `json_members`) reads each back unchanged; serialising a
/// `Value` into memory does not fail.
#[verifier::external_body]
fn json_object_text(
    text_key_a: &str,
    a: &Option<String>,
    text_key_b: &str,
    b: &Option<String>,
    int_key: &str,
    n: u32,
) -> (r: String)
    requires
        text_key_a@ != text_key_b@,
        text_key_a@ != int_key@,
        text_key_b@ != int_key@,
    ensures
        json_str_member(r@, text_key_a@) == opt_view(*a),
        json_str_member(r@, text_key_b@) == opt_view(*b),
        json_i64_member(r@, int_key@) == Some(n as i64),
{
    let mut m = serde_json::Map::new();
    m.insert(text_key_a.to_string(), serde_json::Value::from(a.clone()));
    m.insert(text_key_b.to_string(), serde_json::Value::from(b.clone()));
    m.insert(int_key.to_string(), serde_json::Value::from(n));
    serde_json::to_string_pretty(&serde_json::Value::Object(m)).unwrap_or_default()
}

pub open spec fn opt_view(o: Option<String>) -> Option<Seq<char>> {
    match o {
        Some(s) => Some(s@),
        None => None,
    }
}

/// The settings. An unset directory stays absent, never an empty string.
pub struct Config {
    pub source_dir: Option<String>,
    pub backup_dir: Option<String>,
    pub interval_hours: u32,
}

pub struct ConfigView {
    pub source_dir: Option<Seq<char>>,
    pub backup_dir: Option<Seq<char>>,
    pub interval_hours: u32,
}

impl View for Config {
    type V = ConfigView;

    open spec fn view(&self) -> ConfigView {
        ConfigView {
            source_dir: opt_view(self.source_dir),
            backup_dir: opt_view(self.backup_dir),
            interval_hours: self.interval_hours,
        }
    }
}

/// The interval that a stored number gives: the number where it is a valid
/// count of hours, the default otherwise.
pub open spec fn interval_from(stored: Option<i64>) -> u32 {
    match stored {
        Some(h) if 0 <= h <= u32::MAX => h as u32,
        _ => DEFAULT_INTERVAL_HOURS,
    }
}

/// The settings where nothing is stored yet.
pub fn default_config() -> (r: Config)
    ensures
        r@ == (ConfigView {
            source_dir: None,
            backup_dir: None,
            interval_hours: DEFAULT_INTERVAL_HOURS,
        }),
{
    Config { source_dir: None, backup_dir: None, interval_hours: DEFAULT_INTERVAL_HOURS }
}

/// The settings from the stored members.
pub fn config_from_fields(
    source_dir: Option<String>,
    backup_dir: Option<String>,
    stored_interval: Option<i64>,
) -> (r: Config)
    ensures
        r@ == (ConfigView {
            source_dir: opt_view(source_dir),
            backup_dir: opt_view(backup_dir),
            interval_hours: interval_from(stored_interval),
        }),
{
    let interval_hours: u32 = match stored_interval {
        Some(h) => {
            if 0 <= h && h <= u32::MAX as i64 {
                h as u32
            } else {
                DEFAULT_INTERVAL_HOURS
            }
        },
        None => DEFAULT_INTERVAL_HOURS,
    };
    Config { source_dir, backup_dir, interval_hours }
}

/// The settings stored in the JSON text `text`. Text that does not parse
/// gives the default settings.
pub fn parse_configuration(text: &str) -> (r: Config)
    ensures
        r@ == (ConfigView {
            source_dir: json_str_member(text@, SOURCE_KEY@),
            backup_dir: json_str_member(text@, BACKUP_KEY@),
            interval_hours: interval_from(json_i64_member(text@, INTERVAL_KEY@)),
        }),
{
    let (source_dir, backup_dir, stored) = json_members(text, SOURCE_KEY, BACKUP_KEY, INTERVAL_KEY);
    config_from_fields(source_dir, backup_dir, stored)
}

/// The JSON text that stores `c`: `parse_configuration` reads `c` back from
/// it.
pub fn configuration_text(c: &Config) -> (r: String)
    ensures
        json_str_member(r@, SOURCE_KEY@) == c@.source_dir,
        json_str_member(r@, BACKUP_KEY@) == c@.backup_dir,
        json_i64_member(r@, INTERVAL_KEY@) == Some(c.interval_hours as i64),
{
    proof {
        reveal_strlit("minecraft_directory");
        reveal_strlit("backup_directory");
        reveal_strlit("backup_frequency");
        assert(SOURCE_KEY@[0] != BACKUP_KEY@[0]);
        assert(SOURCE_KEY@[0] != INTERVAL_KEY@[0]);
        assert(BACKUP_KEY@[7] != INTERVAL_KEY@[7]);
    }
    json_object_text(
        SOURCE_KEY,
        &c.source_dir,
        BACKUP_KEY,
        &c.backup_dir,
        INTERVAL_KEY,
        c.interval_hours,
    )
}

/// Stored settings load back unchanged: the text that `configuration_text`
/// gives for `c` is read by `parse_configuration` as `c`.
pub proof fn lemma_saved_settings_load_back(c: ConfigView, text: Seq<char>)
    requires
        json_str_member(text, SOURCE_KEY@) == c.source_dir,
        json_str_member(text, BACKUP_KEY@) == c.backup_dir,
        json_i64_member(text, INTERVAL_KEY@) == Some(c.interval_hours as i64),
    ensures
        (ConfigView {
            source_dir: json_str_member(text, SOURCE_KEY@),
            backup_dir: json_str_member(text, BACKUP_KEY@),
            interval_hours: interval_from(json_i64_member(text, INTERVAL_KEY@)),
        }) == c,
{
}

} // verus!
