//! Settings: general options and per-converter output options, each set from
//! `key = value` pairs.

use vstd::prelude::*;

use vstd::string::StrSliceExecFns;

use crate::errors::{SettingsErrorType, SettingsFault};
use crate::text::{
    bool_named, count_char, last_index_of, lines_of, parse_bool, parse_u8, single_occurrence,
    split_lines, str_equals, texts, trim, trimmed, u8_named,
};

verus! {

/// How much the program logs, from nothing to everything.
#[derive(Debug, Clone, Copy, PartialEq, Eq, Structural)]
pub enum LogLevel {
    Off,
    Error,
    Warn,
    Info,
    Debug,
    Trace,
}

/// The code of `c` with ASCII lower-case letters folded to upper case.
pub open spec fn ascii_upper_code(c: char) -> u32 {
    if 'a' <= c <= 'z' {
        (c as u32 - 32) as u32
    } else {
        c as u32
    }
}

/// Whether `a` and `b` are equal once ASCII letters are folded to one case.
pub open spec fn eq_ignore_ascii_case(a: Seq<char>, b: Seq<char>) -> bool {
    a.len() == b.len() && forall|i: int|
        0 <= i < a.len() ==> #[trigger] ascii_upper_code(a[i]) == ascii_upper_code(b[i])
}

/// The log level that the text `s` names, in any ASCII case.
pub open spec fn level_named(s: Seq<char>) -> Option<LogLevel> {
    if eq_ignore_ascii_case(s, "OFF"@) {
        Some(LogLevel::Off)
    } else if eq_ignore_ascii_case(s, "ERROR"@) {
        Some(LogLevel::Error)
    } else if eq_ignore_ascii_case(s, "WARN"@) {
        Some(LogLevel::Warn)
    } else if eq_ignore_ascii_case(s, "INFO"@) {
        Some(LogLevel::Info)
    } else if eq_ignore_ascii_case(s, "DEBUG"@) {
        Some(LogLevel::Debug)
    } else if eq_ignore_ascii_case(s, "TRACE"@) {
        Some(LogLevel::Trace)
    } else {
        None
    }
}

/// Relies on `FromStr for log::LevelFilter`: it accepts the six level names
/// OFF, ERROR, WARN, INFO, DEBUG and TRACE in any ASCII case, and nothing else.
#[verifier::external_body]
fn parse_level(s: &str) -> (r: Option<LogLevel>)
    ensures
        r == level_named(s@),
{
    match s.parse::<log::LevelFilter>() {
        Ok(log::LevelFilter::Off) => Some(LogLevel::Off),
        Ok(log::LevelFilter::Error) => Some(LogLevel::Error),
        Ok(log::LevelFilter::Warn) => Some(LogLevel::Warn),
        Ok(log::LevelFilter::Info) => Some(LogLevel::Info),
        Ok(log::LevelFilter::Debug) => Some(LogLevel::Debug),
        Ok(log::LevelFilter::Trace) => Some(LogLevel::Trace),
        Err(_) => None,
    }
}

const DEFAULT_LOG_LEVEL: LogLevel = LogLevel::Info;

/// General options of the program.
#[derive(Debug, Clone, Copy, PartialEq, Eq, Structural)]
pub struct GeneralSettings {
    pub log_level: LogLevel,
    pub default_overwrite: bool,
}

/// The general options `s` after the pair `key = value`: `log_level` takes a
/// level name (an unknown one gives the default level), `default_overwrite`
/// takes `true` or `false` (other text leaves it unchanged), and any other
/// key is ignored.
pub open spec fn general_after(s: GeneralSettings, key: Seq<char>, value: Seq<char>) -> GeneralSettings {
    if key == "log_level"@ {
        GeneralSettings {
            log_level: match level_named(value) {
                Some(l) => l,
                None => LogLevel::Info,
            },
            ..s
        }
    } else if key == "default_overwrite"@ {
        GeneralSettings {
            default_overwrite: match bool_named(value) {
                Some(b) => b,
                None => s.default_overwrite,
            },
            ..s
        }
    } else {
        s
    }
}

/// The byte option `indent` after the pair `key = value`: `indent` takes a
/// decimal byte (other text leaves it unchanged), and any other key is ignored.
pub open spec fn indent_after(indent: u8, key: Seq<char>, value: Seq<char>) -> u8 {
    if key == "indent"@ {
        match u8_named(value) {
            Some(n) => n,
            None => indent,
        }
    } else {
        indent
    }
}

impl GeneralSettings {
    /// The default options.
    pub fn new() -> (r: Self)
        ensures
            r.log_level == LogLevel::Info,
            !r.default_overwrite,
    {
        Self { log_level: DEFAULT_LOG_LEVEL, default_overwrite: false }
    }

    /// Reads the pair `key = value`.
    pub fn set(&mut self, key: String, value: String)
        ensures
            *final(self) == general_after(*old(self), key@, value@),
    {
        if str_equals(key.as_str(), "log_level") {
            self.log_level = match parse_level(value.as_str()) {
                Some(l) => l,
                None => DEFAULT_LOG_LEVEL,
            };
        } else if str_equals(key.as_str(), "default_overwrite") {
            if let Some(b) = parse_bool(value.as_str()) {
                self.default_overwrite = b;
            }
        }
    }
}

/// Output options of the JSON converter.
#[derive(Debug, Clone, Copy, PartialEq, Eq, Structural)]
pub struct JsonConverterSettings {
    pub indent: u8,
}

impl JsonConverterSettings {
    /// The default options.
    pub fn new() -> (r: Self)
        ensures
            r.indent == 4,
    {
        Self { indent: 4 }
    }

    /// Reads the pair `key = value`.
    pub fn set(&mut self, key: String, value: String)
        ensures
            final(self).indent == indent_after(old(self).indent, key@, value@),
    {
        if str_equals(key.as_str(), "indent") {
            if let Some(n) = parse_u8(value.as_str()) {
                self.indent = n;
            }
        }
    }
}

/// Output options of the YAML converter.
#[derive(Debug, Clone, Copy, PartialEq, Eq, Structural)]
pub struct YamlConverterSettings {
    pub indent: u8,
}

impl YamlConverterSettings {
    /// The default options.
    pub fn new() -> (r: Self)
        ensures
            r.indent == 2,
    {
        Self { indent: 2 }
    }

    /// Reads the pair `key = value`.
    pub fn set(&mut self, key: String, value: String)
        ensures
            final(self).indent == indent_after(old(self).indent, key@, value@),
    {
        if str_equals(key.as_str(), "indent") {
            if let Some(n) = parse_u8(value.as_str()) {
                self.indent = n;
            }
        }
    }
}

/// All settings of the program.
#[derive(Debug, Clone, Copy, PartialEq, Eq, Structural)]
pub struct Settings {
    pub general: GeneralSettings,
    pub json: JsonConverterSettings,
    pub yaml: YamlConverterSettings,
}

/// The settings before any `key = value` pair is read.
pub open spec fn default_settings() -> Settings {
    Settings {
        general: GeneralSettings { log_level: LogLevel::Info, default_overwrite: false },
        json: JsonConverterSettings { indent: 4 },
        yaml: YamlConverterSettings { indent: 2 },
    }
}

/// Whether the trimmed line `t` opens a section: `[name]`.
pub open spec fn is_section_header(t: Seq<char>) -> bool {
    t.len() >= 2 && t[0] == '[' && t.last() == ']'
}

/// The settings `s` after the pair `key = value` in the section `section`,
/// or why the section is refused.
pub open spec fn settings_after(
    s: Settings,
    section: Seq<char>,
    key: Seq<char>,
    value: Seq<char>,
) -> Result<Settings, SettingsFault> {
    if section == "General"@ {
        Ok(Settings { general: general_after(s.general, key, value), ..s })
    } else if section == "JSON_Converter"@ {
        Ok(Settings { json: JsonConverterSettings { indent: indent_after(s.json.indent, key, value) }, ..s })
    } else if section == "YAML_Converter"@ {
        Ok(Settings { yaml: YamlConverterSettings { indent: indent_after(s.yaml.indent, key, value) }, ..s })
    } else {
        Err(SettingsFault::SectionNotFound)
    }
}

/// One line of a settings text read in the section `section` with the
/// settings `s` so far: a `[name]` header opens a section, a blank line is
/// skipped, and any other line must be one `key = value` pair.
pub open spec fn settings_line_step(
    section: Seq<char>,
    s: Settings,
    line: Seq<char>,
) -> Result<(Seq<char>, Settings), SettingsFault> {
    let t = trimmed(line);
    if is_section_header(t) {
        Ok((t.subrange(1, t.len() - 1), s))
    } else if t.len() == 0 {
        Ok((section, s))
    } else if count_char(t, '=') != 1 {
        Err(SettingsFault::InvalidLine(line))
    } else {
        let k = last_index_of(t, '=');
        match settings_after(s, section, trimmed(t.subrange(0, k)), trimmed(t.subrange(k + 1, t.len() as int))) {
            Ok(next) => Ok((section, next)),
            Err(e) => Err(e),
        }
    }
}

/// The section and settings after reading `lines` in order from the
/// defaults, or the first refusal.
pub open spec fn settings_after_lines(lines: Seq<Seq<char>>) -> Result<(Seq<char>, Settings), SettingsFault>
    decreases lines.len(),
{
    if lines.len() == 0 {
        Ok((Seq::empty(), default_settings()))
    } else {
        match settings_after_lines(lines.drop_last()) {
            Ok((section, s)) => settings_line_step(section, s, lines.last()),
            Err(e) => Err(e),
        }
    }
}

/// The settings that the text `contents` gives, or why it is refused.
pub open spec fn settings_of_text(contents: Seq<char>) -> Result<Settings, SettingsFault> {
    match settings_after_lines(lines_of(contents)) {
        Ok((_, s)) => Ok(s),
        Err(e) => Err(e),
    }
}

/// Once a prefix of the lines is refused, all of them are refused alike.
proof fn lemma_settings_refusal_persists(lines: Seq<Seq<char>>, k: int)
    requires
        0 <= k <= lines.len(),
    ensures
        settings_after_lines(lines.subrange(0, k)) is Err ==> settings_after_lines(lines)
            == settings_after_lines(lines.subrange(0, k)),
    decreases lines.len() - k,
{
    if k < lines.len() {
        assert(lines.subrange(0, k + 1).drop_last() =~= lines.subrange(0, k));
        lemma_settings_refusal_persists(lines, k + 1);
    } else {
        assert(lines.subrange(0, k) =~= lines);
    }
}

impl Settings {
    /// The default settings.
    pub fn new() -> (r: Settings)
        ensures
            r == default_settings(),
    {
        Settings {
            general: GeneralSettings::new(),
            json: JsonConverterSettings::new(),
            yaml: YamlConverterSettings::new(),
        }
    }

    /// Reads the pair `key = value` into the section `section`.
    fn apply(&mut self, section: &str, key: String, value: String) -> (r: Result<(), SettingsErrorType>)
        ensures
            match settings_after(*old(self), section@, key@, value@) {
                Ok(next) => r is Ok && *final(self) == next,
                Err(e) => r is Err && r->Err_0@ == e,
            },
    {
        if str_equals(section, "General") {
            self.general.set(key, value);
            Ok(())
        } else if str_equals(section, "JSON_Converter") {
            self.json.set(key, value);
            Ok(())
        } else if str_equals(section, "YAML_Converter") {
            self.yaml.set(key, value);
            Ok(())
        } else {
            Err(SettingsErrorType::SectionNotFound)
        }
    }

    /// Reads a settings text: `[section]` headers and `key = value` lines.
    pub fn parse(contents: &str) -> (r: Result<Settings, SettingsErrorType>)
        ensures
            match settings_of_text(contents@) {
                Ok(s) => r == Ok::<Settings, SettingsErrorType>(s),
                Err(e) => r is Err && r->Err_0@ == e,
            },
    {
        let lines = split_lines(contents);
        let ghost views = texts(lines@);
        let mut settings = Settings::new();
        let mut section = String::new();
        let mut i: usize = 0;
        assert(views.subrange(0, 0) =~= Seq::<Seq<char>>::empty());
        while i < lines.len()
            invariant
                i <= lines@.len(),
                views == texts(lines@),
                views == lines_of(contents@),
                settings_after_lines(views.subrange(0, i as int)) == Ok::<
                    (Seq<char>, Settings),
                    SettingsFault,
                >((section@, settings)),
            decreases lines@.len() - i,
        {
            let line: &String = &lines[i];
            proof {
                assert(views.subrange(0, i + 1).drop_last() =~= views.subrange(0, i as int));
                assert(views.subrange(0, i + 1).last() == line@);
                lemma_settings_refusal_persists(views, i + 1);
            }
            let t: &str = trim(line.as_str());
            let n = t.unicode_len();
            if n >= 2 && t.get_char(0) == '[' && t.get_char(n - 1) == ']' {
                section = t.substring_char(1, n - 1).to_owned();
            } else if n > 0 {
                match single_occurrence(t, '=') {
                    None => {
                        return Err(SettingsErrorType::InvalidSettingsFile(line.clone()));
                    },
                    Some(k) => {
                        let key = trim(t.substring_char(0, k)).to_owned();
                        let value = trim(t.substring_char(k + 1, n)).to_owned();
                        if let Err(e) = settings.apply(section.as_str(), key, value) {
                            return Err(e);
                        }
                    },
                }
            }
            i = i + 1;
        }
        assert(views.subrange(0, lines@.len() as int) =~= views);
        Ok(settings)
    }
}

} // verus!
