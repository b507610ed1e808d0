//! The settings that the rest of the program hands to the fetch layer, and
//! how they are read from what the environment holds.

use crate::text::{
    lemma_read_is_bounded, lowercase, lowercased, parse_unsigned, same_text, split, split_on, trim,
    trim_end_matches, trimmed, unsigned_read, without_trailing, NumberError,
};
use vstd::prelude::*;

verus! {

/// The settings of the application. The fetch layer reads `max_retry`,
/// `default_sleep`, `cloudflare_proxy` and `use_cf_bypass`, and changes nothing.
#[derive(Debug, Clone, PartialEq, Eq)]
pub struct Config {
    // Directory settings
    pub base_dir: String,
    pub log_dir: String,
    pub tmp_dir: String,
    pub ingest_dir: String,
    pub status_timeout: u64,
    // Network settings
    /// How many attempts a fetch may make, the first one included.
    pub max_retry: u32,
    /// The seconds to wait between two attempts.
    pub default_sleep: u64,
    /// The base URL of the helper that fetches pages past anti-bot protection.
    pub cloudflare_proxy: String,
    /// Whether pages are fetched directly, without the helper.
    pub use_cf_bypass: bool,
    // Anna's Archive settings
    pub aa_donator_key: String,
    pub aa_base_url: String,
    // File format settings
    pub supported_formats: Vec<String>,
    pub book_language: Vec<String>,
    // API settings
    pub flask_host: String,
    pub flask_port: u16,
    pub flask_debug: bool,
    // Logging settings
    pub log_file: String,
    pub main_loop_sleep_time: u64,
}

/// What the process found around it: its working directory, and the value of
/// each variable that is set. `None` stands for a variable that is not set, or
/// whose value is no text.
#[derive(Debug, Clone, PartialEq, Eq)]
pub struct Environment {
    pub current_dir: String,
    /// `TMP_DIR`
    pub tmp_dir: Option<String>,
    /// `INGEST_DIR`
    pub ingest_dir: Option<String>,
    /// `STATUS_TIMEOUT`
    pub status_timeout: Option<String>,
    /// `MAX_RETRY`
    pub max_retry: Option<String>,
    /// `DEFAULT_SLEEP`
    pub default_sleep: Option<String>,
    /// `CLOUDFLARE_PROXY_URL`
    pub cloudflare_proxy_url: Option<String>,
    /// `USE_CF_BYPASS`
    pub use_cf_bypass: Option<String>,
    /// `AA_DONATOR_KEY`
    pub aa_donator_key: Option<String>,
    /// `AA_BASE_URL`
    pub aa_base_url: Option<String>,
    /// `SUPPORTED_FORMATS`
    pub supported_formats: Option<String>,
    /// `BOOK_LANGUAGE`
    pub book_language: Option<String>,
    /// `FLASK_HOST`
    pub flask_host: Option<String>,
    /// `FLASK_PORT`
    pub flask_port: Option<String>,
    /// `FLASK_DEBUG`
    pub flask_debug: Option<String>,
    /// `MAIN_LOOP_SLEEP_TIME`
    pub main_loop_sleep_time: Option<String>,
}

/// The variables that must hold a number.
#[derive(Debug, Clone, Copy, PartialEq, Eq, Structural)]
pub enum Setting {
    StatusTimeout,
    MaxRetry,
    DefaultSleep,
    FlaskPort,
    MainLoopSleepTime,
}

/// A variable that must hold a number and does not, and why not.
#[derive(Debug, Clone, Copy, PartialEq, Eq, Structural)]
pub struct ConfigError {
    pub setting: Setting,
    pub kind: NumberError,
}

impl Setting {
    /// The name of the variable.
    pub open spec fn name_text(self) -> Seq<char> {
        match self {
            Setting::StatusTimeout => "STATUS_TIMEOUT"@,
            Setting::MaxRetry => "MAX_RETRY"@,
            Setting::DefaultSleep => "DEFAULT_SLEEP"@,
            Setting::FlaskPort => "FLASK_PORT"@,
            Setting::MainLoopSleepTime => "MAIN_LOOP_SLEEP_TIME"@,
        }
    }

    /// The name of the variable.
    pub fn name(&self) -> (name: &'static str)
        ensures
            name@ == self.name_text(),
    {
        match self {
            Setting::StatusTimeout => "STATUS_TIMEOUT",
            Setting::MaxRetry => "MAX_RETRY",
            Setting::DefaultSleep => "DEFAULT_SLEEP",
            Setting::FlaskPort => "FLASK_PORT",
            Setting::MainLoopSleepTime => "MAIN_LOOP_SLEEP_TIME",
        }
    }
}

/// The word for each way in which a text is no numeral.
pub open spec fn kind_text(kind: NumberError) -> Seq<char> {
    match kind {
        NumberError::Empty => "Empty"@,
        NumberError::InvalidDigit => "InvalidDigit"@,
        NumberError::PosOverflow => "PosOverflow"@,
    }
}

impl ConfigError {
    /// The sentence that reports this failure: which variable, and what is
    /// wrong with its value.
    pub open spec fn message_text(self) -> Seq<char> {
        self.setting.name_text() + " must be a valid integer: ParseIntError { kind: "@ + kind_text(
            self.kind,
        ) + " }"@
    }

    /// The sentence that reports this failure.
    pub fn message(&self) -> (text: String)
        ensures
            text@ == self.message_text(),
    {
        let mut text = self.setting.name().to_string();
        text.append(" must be a valid integer: ParseIntError { kind: ");
        match self.kind {
            NumberError::Empty => {
                text.append("Empty");
            },
            NumberError::InvalidDigit => {
                text.append("InvalidDigit");
            },
            NumberError::PosOverflow => {
                text.append("PosOverflow");
            },
        }
        text.append(" }");
        text
    }
}

/// The languages that books can be asked for in, by their codes.
pub open spec fn is_supported_language(code: Seq<char>) -> bool {
    ||| code == "en"@
    ||| code == "zh"@
    ||| code == "ru"@
    ||| code == "es"@
    ||| code == "fr"@
    ||| code == "de"@
    ||| code == "it"@
    ||| code == "pt"@
    ||| code == "pl"@
    ||| code == "bg"@
    ||| code == "nl"@
    ||| code == "ja"@
    ||| code == "ar"@
    ||| code == "he"@
    ||| code == "hu"@
    ||| code == "la"@
    ||| code == "cs"@
    ||| code == "ko"@
    ||| code == "tr"@
    ||| code == "uk"@
    ||| code == "id"@
    ||| code == "ro"@
    ||| code == "el"@
    ||| code == "lt"@
    ||| code == "bn"@
    ||| code == "zh\u{2011}Hant"@
    ||| code == "af"@
    ||| code == "ca"@
    ||| code == "sv"@
    ||| code == "th"@
    ||| code == "hi"@
    ||| code == "ga"@
    ||| code == "lv"@
    ||| code == "kn"@
    ||| code == "sr"@
    ||| code == "bo"@
    ||| code == "da"@
    ||| code == "fa"@
    ||| code == "hr"@
    ||| code == "sk"@
    ||| code == "jv"@
    ||| code == "vi"@
    ||| code == "ur"@
    ||| code == "fi"@
    ||| code == "no"@
    ||| code == "rw"@
    ||| code == "ta"@
    ||| code == "be"@
    ||| code == "kk"@
    ||| code == "mn"@
    ||| code == "ka"@
    ||| code == "sl"@
    ||| code == "eo"@
    ||| code == "gl"@
    ||| code == "mr"@
    ||| code == "fil"@
    ||| code == "gu"@
    ||| code == "ml"@
    ||| code == "ky"@
    ||| code == "qu"@
    ||| code == "az"@
    ||| code == "sw"@
    ||| code == "ba"@
    ||| code == "pa"@
    ||| code == "ms"@
    ||| code == "te"@
    ||| code == "sq"@
    ||| code == "ug"@
    ||| code == "hy"@
    ||| code == "shn"@
}

/// Tells whether books can be asked for in the language `code`.
pub fn supported_language(code: &str) -> (supported: bool)
    ensures
        supported == is_supported_language(code@),
{
    same_text(code, "en") || same_text(code, "zh") || same_text(code, "ru")
        || same_text(code, "es") || same_text(code, "fr") || same_text(code, "de")
        || same_text(code, "it") || same_text(code, "pt") || same_text(code, "pl")
        || same_text(code, "bg") || same_text(code, "nl") || same_text(code, "ja")
        || same_text(code, "ar") || same_text(code, "he") || same_text(code, "hu")
        || same_text(code, "la") || same_text(code, "cs") || same_text(code, "ko")
        || same_text(code, "tr") || same_text(code, "uk") || same_text(code, "id")
        || same_text(code, "ro") || same_text(code, "el") || same_text(code, "lt")
        || same_text(code, "bn") || same_text(code, "zh\u{2011}Hant") || same_text(code, "af")
        || same_text(code, "ca") || same_text(code, "sv") || same_text(code, "th")
        || same_text(code, "hi") || same_text(code, "ga") || same_text(code, "lv")
        || same_text(code, "kn") || same_text(code, "sr") || same_text(code, "bo")
        || same_text(code, "da") || same_text(code, "fa") || same_text(code, "hr")
        || same_text(code, "sk") || same_text(code, "jv") || same_text(code, "vi")
        || same_text(code, "ur") || same_text(code, "fi") || same_text(code, "no")
        || same_text(code, "rw") || same_text(code, "ta") || same_text(code, "be")
        || same_text(code, "kk") || same_text(code, "mn") || same_text(code, "ka")
        || same_text(code, "sl") || same_text(code, "eo") || same_text(code, "gl")
        || same_text(code, "mr") || same_text(code, "fil") || same_text(code, "gu")
        || same_text(code, "ml") || same_text(code, "ky") || same_text(code, "qu")
        || same_text(code, "az") || same_text(code, "sw") || same_text(code, "ba")
        || same_text(code, "pa") || same_text(code, "ms") || same_text(code, "te")
        || same_text(code, "sq") || same_text(code, "ug") || same_text(code, "hy")
        || same_text(code, "shn")
}

/// The value of a variable, or `default` where it is not set.
pub open spec fn text_or(value: Option<String>, default: Seq<char>) -> Seq<char> {
    match value {
        Some(text) => text@,
        None => default,
    }
}

/// The number that a variable holds, or `default` where it is not set; what is
/// wrong with its value where that is no numeral or stands for more than `max`.
pub open spec fn number_or(value: Option<String>, default: nat, max: nat) -> Result<
    nat,
    NumberError,
> {
    match value {
        Some(text) => unsigned_read(text@, max),
        None => Ok(default),
    }
}

/// The truth value that a word in lower case stands for: that of `true` or
/// `false`, and `default` for any other word.
pub open spec fn flag_in(lower: Seq<char>, default: bool) -> bool {
    if lower == "true"@ {
        true
    } else if lower == "false"@ {
        false
    } else {
        default
    }
}

/// The truth value that a variable holds, in any mix of upper and lower case,
/// or `default` where it is not set or holds neither `true` nor `false`.
pub open spec fn flag_or(value: Option<String>, default: bool) -> bool {
    match value {
        Some(text) => flag_in(lowercased(text@), default),
        None => default,
    }
}

/// The file formats that a list names: each piece trimmed and in lower case,
/// the empty ones left out.
pub open spec fn formats_among(pieces: Seq<Seq<char>>) -> Seq<Seq<char>>
    decreases pieces.len(),
{
    if pieces.len() == 0 {
        Seq::empty()
    } else {
        let format = lowercased(trimmed(pieces.last()));
        if format.len() > 0 {
            formats_among(pieces.drop_last()).push(format)
        } else {
            formats_among(pieces.drop_last())
        }
    }
}

/// The file formats that a comma-separated list names.
pub open spec fn formats_of(list: Seq<char>) -> Seq<Seq<char>> {
    formats_among(split_on(list, ','))
}

/// The supported languages among the pieces of a list, each piece trimmed.
pub open spec fn languages_among(pieces: Seq<Seq<char>>) -> Seq<Seq<char>>
    decreases pieces.len(),
{
    if pieces.len() == 0 {
        Seq::empty()
    } else {
        let code = trimmed(pieces.last());
        if is_supported_language(code) {
            languages_among(pieces.drop_last()).push(code)
        } else {
            languages_among(pieces.drop_last())
        }
    }
}

/// The languages that a comma-separated list in lower case asks for: its
/// supported codes, or English where it names none.
pub open spec fn languages_in(lower: Seq<char>) -> Seq<Seq<char>> {
    let found = languages_among(split_on(lower, ','));
    if found.len() == 0 {
        seq!["en"@]
    } else {
        found
    }
}

/// The languages that a comma-separated list asks for, read in lower case.
pub open spec fn languages_of(list: Seq<char>) -> Seq<Seq<char>> {
    languages_in(lowercased(list))
}

fn text_or_default(value: &Option<String>, default: &str) -> (text: String)
    ensures
        text@ == text_or(*value, default@),
{
    match value {
        Some(text) => text.clone(),
        None => default.to_string(),
    }
}

fn number_or_default(value: &Option<String>, default: u64, max: u64) -> (number: Result<
    u64,
    NumberError,
>)
    requires
        default <= max,
    ensures
        match number {
            Ok(n) => number_or(*value, default as nat, max as nat) == Ok::<nat, NumberError>(
                n as nat,
            ) && n <= max,
            Err(kind) => number_or(*value, default as nat, max as nat) == Err::<nat, NumberError>(
                kind,
            ),
        },
{
    match value {
        Some(text) => {
            let number = parse_unsigned(text.as_str(), max);
            proof {
                if number is Ok {
                    lemma_read_is_bounded(text@, max as nat);
                }
            }
            number
        },
        None => Ok(default),
    }
}

/// Reads a truth value from a word in lower case.
pub fn flag_from(lower: &str, default: bool) -> (flag: bool)
    ensures
        flag == flag_in(lower@, default),
{
    if same_text(lower, "true") {
        true
    } else if same_text(lower, "false") {
        false
    } else {
        default
    }
}

fn flag_or_default(value: &Option<String>, default: bool) -> (flag: bool)
    ensures
        flag == flag_or(*value, default),
{
    match value {
        Some(text) => flag_from(lowercase(text.as_str()).as_str(), default),
        None => default,
    }
}

/// Reads the file formats that a comma-separated list names.
pub fn formats(list: &str) -> (found: Vec<String>)
    ensures
        found.deep_view() == formats_of(list@),
{
    let pieces = split(list, ',');
    let mut found: Vec<String> = Vec::new();
    proof {
        assert(pieces.deep_view().take(0) =~= Seq::<Seq<char>>::empty());
        assert(found.deep_view() =~= Seq::<Seq<char>>::empty());
    }
    let mut i: usize = 0;
    while i < pieces.len()
        invariant
            i <= pieces@.len(),
            pieces.deep_view() == split_on(list@, ','),
            found.deep_view() == formats_among(pieces.deep_view().take(i as int)),
        decreases pieces@.len() - i,
    {
        let format = lowercase(trim(pieces[i].as_str()).as_str());
        let ghost before = found.deep_view();
        proof {
            let upto = pieces.deep_view().take(i + 1);
            assert(upto.drop_last() =~= pieces.deep_view().take(i as int));
            assert(upto.last() == pieces@[i as int]@);
        }
        if !format.as_str().is_empty() {
            found.push(format);
            proof {
                assert(found.deep_view() =~= before.push(format@));
            }
        }
        i += 1;
    }
    proof {
        assert(pieces.deep_view().take(pieces@.len() as int) =~= pieces.deep_view());
    }
    found
}

/// Reads the languages that a comma-separated list in lower case asks for.
pub fn languages_from(lower: &str) -> (found: Vec<String>)
    ensures
        found.deep_view() == languages_in(lower@),
{
    let pieces = split(lower, ',');
    let mut found: Vec<String> = Vec::new();
    proof {
        assert(pieces.deep_view().take(0) =~= Seq::<Seq<char>>::empty());
        assert(found.deep_view() =~= Seq::<Seq<char>>::empty());
    }
    let mut i: usize = 0;
    while i < pieces.len()
        invariant
            i <= pieces@.len(),
            pieces.deep_view() == split_on(lower@, ','),
            found.deep_view() == languages_among(pieces.deep_view().take(i as int)),
        decreases pieces@.len() - i,
    {
        let code = trim(pieces[i].as_str());
        let ghost before = found.deep_view();
        proof {
            let upto = pieces.deep_view().take(i + 1);
            assert(upto.drop_last() =~= pieces.deep_view().take(i as int));
            assert(upto.last() == pieces@[i as int]@);
        }
        if supported_language(code.as_str()) {
            found.push(code);
            proof {
                assert(found.deep_view() =~= before.push(code@));
            }
        }
        i += 1;
    }
    proof {
        assert(pieces.deep_view().take(pieces@.len() as int) =~= pieces.deep_view());
    }
    if found.len() == 0 {
        found.push("en".to_string());
        proof {
            assert(found.deep_view() =~= seq!["en"@]);
        }
    }
    found
}

/// Reads the languages that a comma-separated list asks for.
pub fn languages(list: &str) -> (found: Vec<String>)
    ensures
        found.deep_view() == languages_of(list@),
{
    languages_from(lowercase(list).as_str())
}

/// The directories that the application works in.
#[derive(Debug, Clone, PartialEq, Eq)]
pub struct Directories {
    pub tmp_dir: String,
    pub log_dir: String,
    pub ingest_dir: String,
}

/// What starting up comes to: the directories that are to exist before
/// anything else is said, if any are, and then the configuration or the
/// failure.
#[derive(Debug, PartialEq, Eq)]
pub struct Startup {
    pub directories: Option<Directories>,
    pub config: Result<Config, ConfigError>,
}

/// What is wrong with one variable, if anything.
pub open spec fn fault_in(
    setting: Setting,
    value: Option<String>,
    default: nat,
    max: nat,
) -> Option<ConfigError> {
    match number_or(value, default, max) {
        Ok(_) => None,
        Err(kind) => Some(ConfigError { setting, kind }),
    }
}

impl Config {
    /// A configuration allows at least one attempt.
    pub open spec fn valid(&self) -> bool {
        self.max_retry >= 1
    }

    /// The first variable, in the order in which they are read, that must hold
    /// a number and does not.
    pub open spec fn invalid_setting(raw: &Environment) -> Option<ConfigError> {
        if fault_in(Setting::StatusTimeout, raw.status_timeout, 3600, u64::MAX as nat) is Some {
            fault_in(Setting::StatusTimeout, raw.status_timeout, 3600, u64::MAX as nat)
        } else if fault_in(Setting::MaxRetry, raw.max_retry, 3, u32::MAX as nat) is Some {
            fault_in(Setting::MaxRetry, raw.max_retry, 3, u32::MAX as nat)
        } else if fault_in(Setting::DefaultSleep, raw.default_sleep, 5, u64::MAX as nat) is Some {
            fault_in(Setting::DefaultSleep, raw.default_sleep, 5, u64::MAX as nat)
        } else if fault_in(Setting::FlaskPort, raw.flask_port, 5003, u16::MAX as nat) is Some {
            fault_in(Setting::FlaskPort, raw.flask_port, 5003, u16::MAX as nat)
        } else {
            fault_in(Setting::MainLoopSleepTime, raw.main_loop_sleep_time, 5, u64::MAX as nat)
        }
    }

    /// Every setting is what `raw` holds for it or, where `raw` holds nothing,
    /// its default.
    pub open spec fn reflects(&self, raw: &Environment) -> bool {
        &&& self.base_dir@ == raw.current_dir@
        &&& self.log_dir@ == "/var/logs"@
        &&& self.tmp_dir@ == text_or(raw.tmp_dir, "/tmp/cwa-book-downloader"@)
        &&& self.ingest_dir@ == text_or(raw.ingest_dir, "/tmp/cwa-book-ingest"@)
        &&& number_or(raw.status_timeout, 3600, u64::MAX as nat) == Ok::<nat, NumberError>(
            self.status_timeout as nat,
        )
        &&& number_or(raw.max_retry, 3, u32::MAX as nat) == Ok::<nat, NumberError>(
            self.max_retry as nat,
        )
        &&& number_or(raw.default_sleep, 5, u64::MAX as nat) == Ok::<nat, NumberError>(
            self.default_sleep as nat,
        )
        &&& self.cloudflare_proxy@ == text_or(raw.cloudflare_proxy_url, "http://localhost:8000"@)
        &&& self.use_cf_bypass == flag_or(raw.use_cf_bypass, true)
        &&& self.aa_donator_key@ == trimmed(text_or(raw.aa_donator_key, ""@))
        &&& self.aa_base_url@ == without_trailing(
            text_or(raw.aa_base_url, "https://annas-archive.org"@),
            '/',
        )
        &&& self.supported_formats.deep_view() == formats_of(
            text_or(raw.supported_formats, "epub,mobi,azw3,fb2,djvu,cbz,cbr"@),
        )
        &&& self.book_language.deep_view() == languages_of(text_or(raw.book_language, "en"@))
        &&& self.flask_host@ == text_or(raw.flask_host, "0.0.0.0"@)
        &&& number_or(raw.flask_port, 5003, u16::MAX as nat) == Ok::<nat, NumberError>(
            self.flask_port as nat,
        )
        &&& self.flask_debug == flag_or(raw.flask_debug, false)
        &&& self.log_file@ == "/var/logs/cwa-bookdownloader.log"@
        &&& number_or(raw.main_loop_sleep_time, 5, u64::MAX as nat) == Ok::<nat, NumberError>(
            self.main_loop_sleep_time as nat,
        )
    }

    /// Makes the configuration out of what the environment holds: each setting
    /// from its variable or, where that is not set, its default. A variable
    /// that must hold a number and does not is an error; of several, the first
    /// in the order in which they are read.
    pub fn new(raw: &Environment) -> (result: Result<Config, ConfigError>)
        ensures
            match result {
                Ok(config) => Config::invalid_setting(raw) is None && config.reflects(raw),
                Err(error) => Config::invalid_setting(raw) == Some(error),
            },
    {
        let status_timeout = match number_or_default(&raw.status_timeout, 3600, u64::MAX) {
            Ok(n) => n,
            Err(kind) => {
                return Err(ConfigError { setting: Setting::StatusTimeout, kind });
            },
        };
        let max_retry = match number_or_default(&raw.max_retry, 3, 0xFFFF_FFFF) {
            Ok(n) => n as u32,
            Err(kind) => {
                return Err(ConfigError { setting: Setting::MaxRetry, kind });
            },
        };
        let default_sleep = match number_or_default(&raw.default_sleep, 5, u64::MAX) {
            Ok(n) => n,
            Err(kind) => {
                return Err(ConfigError { setting: Setting::DefaultSleep, kind });
            },
        };
        let flask_port = match number_or_default(&raw.flask_port, 5003, 0xFFFF) {
            Ok(n) => n as u16,
            Err(kind) => {
                return Err(ConfigError { setting: Setting::FlaskPort, kind });
            },
        };
        let main_loop_sleep_time = match number_or_default(&raw.main_loop_sleep_time, 5, u64::MAX) {
            Ok(n) => n,
            Err(kind) => {
                return Err(ConfigError { setting: Setting::MainLoopSleepTime, kind });
            },
        };
        let aa_donator_key = text_or_default(&raw.aa_donator_key, "");
        let aa_base_url = text_or_default(&raw.aa_base_url, "https://annas-archive.org");
        let supported_formats = text_or_default(
            &raw.supported_formats,
            "epub,mobi,azw3,fb2,djvu,cbz,cbr",
        );
        let book_language = text_or_default(&raw.book_language, "en");
        Ok(
            Config {
                base_dir: raw.current_dir.clone(),
                log_dir: "/var/logs".to_string(),
                tmp_dir: text_or_default(&raw.tmp_dir, "/tmp/cwa-book-downloader"),
                ingest_dir: text_or_default(&raw.ingest_dir, "/tmp/cwa-book-ingest"),
                status_timeout,
                max_retry,
                default_sleep,
                cloudflare_proxy: text_or_default(
                    &raw.cloudflare_proxy_url,
                    "http://localhost:8000",
                ),
                use_cf_bypass: flag_or_default(&raw.use_cf_bypass, true),
                aa_donator_key: trim(aa_donator_key.as_str()),
                aa_base_url: trim_end_matches(aa_base_url.as_str(), '/'),
                supported_formats: formats(supported_formats.as_str()),
                book_language: languages(book_language.as_str()),
                flask_host: text_or_default(&raw.flask_host, "0.0.0.0"),
                flask_port,
                flask_debug: flag_or_default(&raw.flask_debug, false),
                log_file: "/var/logs/cwa-bookdownloader.log".to_string(),
                main_loop_sleep_time,
            },
        )
    }

    /// The directories that the application works in, as `raw` names them.
    pub fn directories(raw: &Environment) -> (found: Directories)
        ensures
            found.tmp_dir@ == text_or(raw.tmp_dir, "/tmp/cwa-book-downloader"@),
            found.log_dir@ == "/var/logs"@,
            found.ingest_dir@ == text_or(raw.ingest_dir, "/tmp/cwa-book-ingest"@),
    {
        Directories {
            tmp_dir: text_or_default(&raw.tmp_dir, "/tmp/cwa-book-downloader"),
            log_dir: "/var/logs".to_string(),
            ingest_dir: text_or_default(&raw.ingest_dir, "/tmp/cwa-book-ingest"),
        }
    }

    /// Starts up: the configuration as `new` makes it, and before it the
    /// directories that are to exist by then. The timeout of the status is read
    /// before any directory is made, every other number after: so the
    /// directories are named unless `STATUS_TIMEOUT` is at fault.
    pub fn startup(raw: &Environment) -> (startup: Startup)
        ensures
            match startup.config {
                Ok(config) => Config::invalid_setting(raw) is None && config.reflects(raw),
                Err(error) => Config::invalid_setting(raw) == Some(error),
            },
            startup.directories is None <==> (startup.config matches Err(error) && error.setting
                == Setting::StatusTimeout),
            startup.directories matches Some(found) ==> {
                &&& found.tmp_dir@ == text_or(raw.tmp_dir, "/tmp/cwa-book-downloader"@)
                &&& found.log_dir@ == "/var/logs"@
                &&& found.ingest_dir@ == text_or(raw.ingest_dir, "/tmp/cwa-book-ingest"@)
            },
    {
        let config = Config::new(raw);
        let early = match &config {
            Ok(_) => false,
            Err(error) => match error.setting {
                Setting::StatusTimeout => true,
                _ => false,
            },
        };
        let directories = if early {
            None
        } else {
            Some(Config::directories(raw))
        };
        Startup { directories, config }
    }
}

} // verus!
