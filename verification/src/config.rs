//! The settings of the tool, read and set by the name of their key.

use crate::args::ConfigCommand;
use crate::clock::MAX_BUCKET;
use crate::errors::ConfigError;
use crate::numbers::{digits_of, parse_decimal, to_decimal, whole_number};
use crate::schema::texts;
use crate::text::{append, equal};
use crate::trusted::{expand_tilde, project_config_dir, tilde_outcome};
use vstd::prelude::*;

verus! {

/// The settings of the tool. The bucket size is one of 1 to 60.
#[derive(Debug)]
pub struct Config {
    create_file: bool,
    default_note_name: String,
    minute_bucket_size: u32,
    note_directory: String,
    data_directory: String,
}

/// The mathematical content of a `Config`.
pub struct ConfigView {
    pub create_file: bool,
    pub default_note_name: Seq<char>,
    pub minute_bucket_size: u32,
    pub note_directory: Seq<char>,
    pub data_directory: Seq<char>,
}

/// The settings by which a `Config` is read and set.
#[derive(Clone, Copy, Debug, PartialEq, Eq, Structural)]
pub enum ConfigKey {
    CreateFile,
    DefaultNoteName,
    MinuteBucketSize,
    NoteDirectory,
    DataDirectory,
}

/// What the tool owes the user after a command on the settings.
#[derive(Debug, PartialEq, Eq)]
pub enum ConfigReply {
    /// Lines to show.
    Show(Vec<String>),
    /// The settings have changed and are to be stored.
    Store,
}

/// The content of settings that may have been turned down.
pub open spec fn settings_of(r: Result<Config, ConfigError>) -> Result<ConfigView, ConfigError> {
    match r {
        Ok(config) => Ok(config@),
        Err(e) => Err(e),
    }
}

/// The data directory where the system names no place for configuration.
pub open spec fn fallback_directory() -> Seq<char> {
    "~/entry_data"@
}

/// The settings of a fresh installation that keeps its data in
/// `data_directory`.
pub open spec fn initial(data_directory: Seq<char>) -> ConfigView {
    ConfigView {
        create_file: true,
        default_note_name: "note"@,
        minute_bucket_size: 15,
        note_directory: "~/notes"@,
        data_directory,
    }
}

/// The text that stands for a truth value.
pub open spec fn truth_text(value: bool) -> Seq<char> {
    if value {
        "true"@
    } else {
        "false"@
    }
}

/// The truth value that a text stands for.
pub open spec fn truth_of(text: Seq<char>) -> Option<bool> {
    if text == "true"@ {
        Some(true)
    } else if text == "false"@ {
        Some(false)
    } else {
        None
    }
}

/// The bucket size that a text stands for: a number from 1 to 60, written
/// with digits only.
pub open spec fn bucket_of(text: Seq<char>) -> Option<u32> {
    match whole_number(text) {
        Some(size) => if 1 <= size <= MAX_BUCKET {
            Some(size)
        } else {
            None
        },
        None => None,
    }
}

impl ConfigKey {
    /// The name of the key.
    pub open spec fn name_text(self) -> Seq<char> {
        match self {
            ConfigKey::CreateFile => "create_file"@,
            ConfigKey::DefaultNoteName => "default_note_name"@,
            ConfigKey::MinuteBucketSize => "minute_bucket_size"@,
            ConfigKey::NoteDirectory => "note_directory"@,
            ConfigKey::DataDirectory => "data_directory"@,
        }
    }

    /// The key that a name stands for.
    pub open spec fn named(name: Seq<char>) -> Result<ConfigKey, ConfigError> {
        if name == "create_file"@ {
            Ok(ConfigKey::CreateFile)
        } else if name == "default_note_name"@ {
            Ok(ConfigKey::DefaultNoteName)
        } else if name == "minute_bucket_size"@ {
            Ok(ConfigKey::MinuteBucketSize)
        } else if name == "note_directory"@ {
            Ok(ConfigKey::NoteDirectory)
        } else if name == "data_directory"@ {
            Ok(ConfigKey::DataDirectory)
        } else {
            Err(ConfigError::InvalidKey)
        }
    }

    /// The name of the key.
    pub fn name(&self) -> (name: &'static str)
        ensures
            name@ == self.name_text(),
    {
        match self {
            ConfigKey::CreateFile => "create_file",
            ConfigKey::DefaultNoteName => "default_note_name",
            ConfigKey::MinuteBucketSize => "minute_bucket_size",
            ConfigKey::NoteDirectory => "note_directory",
            ConfigKey::DataDirectory => "data_directory",
        }
    }

    /// Finds the key of the given name.
    pub fn from_name(name: &str) -> (r: Result<ConfigKey, ConfigError>)
        ensures
            r == Self::named(name@),
    {
        if equal(name, "create_file") {
            Ok(ConfigKey::CreateFile)
        } else if equal(name, "default_note_name") {
            Ok(ConfigKey::DefaultNoteName)
        } else if equal(name, "minute_bucket_size") {
            Ok(ConfigKey::MinuteBucketSize)
        } else if equal(name, "note_directory") {
            Ok(ConfigKey::NoteDirectory)
        } else if equal(name, "data_directory") {
            Ok(ConfigKey::DataDirectory)
        } else {
            Err(ConfigError::InvalidKey)
        }
    }
}

impl ConfigView {
    /// Whether `shown` can be what is shown for the setting `key`. A
    /// directory is shown with the home directory in place of a leading `~`,
    /// so what is shown for it depends on the environment.
    pub open spec fn shows(self, key: ConfigKey, shown: Seq<char>) -> bool {
        match key {
            ConfigKey::CreateFile => shown == truth_text(self.create_file),
            ConfigKey::DefaultNoteName => shown == self.default_note_name,
            ConfigKey::MinuteBucketSize => shown == digits_of(self.minute_bucket_size as nat),
            ConfigKey::NoteDirectory => tilde_outcome(self.note_directory, shown),
            ConfigKey::DataDirectory => tilde_outcome(self.data_directory, shown),
        }
    }

    /// The settings after `key` was set to what `value` stands for, or the
    /// failure where `value` stands for nothing that the setting can take.
    pub open spec fn with(self, key: ConfigKey, value: Seq<char>) -> Result<
        ConfigView,
        ConfigError,
    > {
        match key {
            ConfigKey::CreateFile => match truth_of(value) {
                Some(create_file) => Ok(ConfigView { create_file, ..self }),
                None => Err(ConfigError::InvalidValue),
            },
            ConfigKey::DefaultNoteName => Ok(ConfigView { default_note_name: value, ..self }),
            ConfigKey::MinuteBucketSize => match bucket_of(value) {
                Some(minute_bucket_size) => Ok(ConfigView { minute_bucket_size, ..self }),
                None => Err(ConfigError::InvalidValue),
            },
            ConfigKey::NoteDirectory => Ok(ConfigView { note_directory: value, ..self }),
            ConfigKey::DataDirectory => Ok(ConfigView { data_directory: value, ..self }),
        }
    }

    /// The settings after the key called `name` was set to what `value`
    /// stands for, or the failure: no such key, or no such value.
    pub open spec fn set_by_name(self, name: Seq<char>, value: Seq<char>) -> Result<
        ConfigView,
        ConfigError,
    > {
        match ConfigKey::named(name) {
            Ok(key) => self.with(key, value),
            Err(e) => Err(e),
        }
    }
}

impl View for Config {
    type V = ConfigView;

    closed spec fn view(&self) -> ConfigView {
        ConfigView {
            create_file: self.create_file,
            default_note_name: self.default_note_name@,
            minute_bucket_size: self.minute_bucket_size,
            note_directory: self.note_directory@,
            data_directory: self.data_directory@,
        }
    }
}

impl Config {
    /// What holds of every `Config`: the bucket size is one of 1 to 60.
    #[verifier::type_invariant]
    pub closed spec fn well_formed(&self) -> bool {
        1 <= self.minute_bucket_size <= MAX_BUCKET
    }

    /// The settings of a fresh installation. The data are kept in the
    /// directory that the system names for the tool's configuration, and in
    /// `~/entry_data` where it names none.
    pub fn with_config_dir(config_dir: Option<String>) -> (config: Config)
        ensures
            config@ == initial(
                match config_dir {
                    Some(dir) => dir@,
                    None => fallback_directory(),
                },
            ),
    {
        let data_directory = match config_dir {
            Some(dir) => dir,
            None => "~/entry_data".to_owned(),
        };
        Config {
            create_file: true,
            default_note_name: "note".to_owned(),
            minute_bucket_size: 15,
            note_directory: "~/notes".to_owned(),
            data_directory,
        }
    }

    /// The settings with the given values, as they are kept in store, or the
    /// failure where the bucket size is not one of 1 to 60.
    pub fn new(
        create_file: bool,
        default_note_name: String,
        minute_bucket_size: u32,
        note_directory: String,
        data_directory: String,
    ) -> (r: Result<Config, ConfigError>)
        ensures
            settings_of(r) == if 1 <= minute_bucket_size <= MAX_BUCKET {
                Ok::<ConfigView, ConfigError>(
                    ConfigView {
                        create_file,
                        default_note_name: default_note_name@,
                        minute_bucket_size,
                        note_directory: note_directory@,
                        data_directory: data_directory@,
                    },
                )
            } else {
                Err::<ConfigView, ConfigError>(ConfigError::InvalidValue)
            },
    {
        if 1 <= minute_bucket_size && minute_bucket_size <= MAX_BUCKET {
            Ok(
                Config {
                    create_file,
                    default_note_name,
                    minute_bucket_size,
                    note_directory,
                    data_directory,
                },
            )
        } else {
            Err(ConfigError::InvalidValue)
        }
    }

    /// The directory of the notes as it is kept in store, a leading `~` left
    /// as it is.
    pub fn stored_note_directory(&self) -> (directory: String)
        ensures
            directory@ == self@.note_directory,
    {
        self.note_directory.clone()
    }

    /// The directory of the data as it is kept in store, a leading `~` left
    /// as it is.
    pub fn stored_data_directory(&self) -> (directory: String)
        ensures
            directory@ == self@.data_directory,
    {
        self.data_directory.clone()
    }

    /// Whether files are created for new entries.
    pub fn create_file(&self) -> (create_file: bool)
        ensures
            create_file == self@.create_file,
    {
        self.create_file
    }

    /// The name of an entry where none is given.
    pub fn default_note_name(&self) -> (name: String)
        ensures
            name@ == self@.default_note_name,
    {
        self.default_note_name.clone()
    }

    /// The size of the buckets that minutes are floored to.
    pub fn minute_bucket_size(&self) -> (size: u32)
        ensures
            size == self@.minute_bucket_size,
            1 <= size <= MAX_BUCKET,
    {
        proof {
            use_type_invariant(self);
        }
        self.minute_bucket_size
    }

    /// The directory of the notes, with the home directory in place of a
    /// leading `~`.
    pub fn note_directory(&self) -> (directory: String)
        ensures
            tilde_outcome(self@.note_directory, directory@),
    {
        expand_tilde(self.note_directory.as_str())
    }

    /// The directory of the data, with the home directory in place of a
    /// leading `~`.
    pub fn data_directory(&self) -> (directory: String)
        ensures
            tilde_outcome(self@.data_directory, directory@),
    {
        expand_tilde(self.data_directory.as_str())
    }

    /// Sets the directory of the data.
    pub fn set_data_directory(&mut self, value: String)
        ensures
            final(self)@ == (ConfigView { data_directory: value@, ..old(self)@ }),
    {
        proof {
            use_type_invariant(&*self);
        }
        self.data_directory = value;
    }

    /// The directory below the data directory in which the schemas are kept.
    pub fn schema_directory(&self) -> (directory: String)
        ensures
            exists|data: Seq<char>|
                tilde_outcome(self@.data_directory, data) && directory@ == #[trigger] (data
                    + "/schema"@),
    {
        let data = self.data_directory();
        append(data.as_str(), "/schema")
    }

    /// The file below the data directory that holds the last entry.
    pub fn cache_path(&self) -> (path: String)
        ensures
            exists|data: Seq<char>|
                tilde_outcome(self@.data_directory, data) && path@ == #[trigger] (data
                    + "/cached.json"@),
    {
        let data = self.data_directory();
        append(data.as_str(), "/cached.json")
    }

    /// What is shown for the setting `key`.
    pub fn show(&self, key: ConfigKey) -> (shown: String)
        ensures
            self@.shows(key, shown@),
    {
        match key {
            ConfigKey::CreateFile => if self.create_file {
                "true".to_owned()
            } else {
                "false".to_owned()
            },
            ConfigKey::DefaultNoteName => self.default_note_name.clone(),
            ConfigKey::MinuteBucketSize => to_decimal(self.minute_bucket_size),
            ConfigKey::NoteDirectory => self.note_directory(),
            ConfigKey::DataDirectory => self.data_directory(),
        }
    }

    /// What is shown for the setting called `key`, or the failure where no
    /// setting has that name.
    pub fn get(&self, key: &str) -> (r: Result<String, ConfigError>)
        ensures
            match ConfigKey::named(key@) {
                Ok(found) => r matches Ok(shown) && self@.shows(found, shown@),
                Err(e) => r == Err::<String, ConfigError>(e),
            },
    {
        match ConfigKey::from_name(key) {
            Ok(found) => Ok(self.show(found)),
            Err(e) => Err(e),
        }
    }

    /// Sets the setting called `key` to what `value` stands for. Where no
    /// setting has that name, or the setting cannot take the value, nothing
    /// changes.
    pub fn set(&mut self, key: &str, value: &str) -> (r: Result<(), ConfigError>)
        ensures
            match old(self)@.set_by_name(key@, value@) {
                Ok(after) => r == Ok::<(), ConfigError>(()) && final(self)@ == after,
                Err(e) => r == Err::<(), ConfigError>(e) && final(self)@ == old(self)@,
            },
    {
        proof {
            use_type_invariant(&*self);
        }
        let found = match ConfigKey::from_name(key) {
            Ok(found) => found,
            Err(e) => {
                return Err(e);
            },
        };
        match found {
            ConfigKey::CreateFile => {
                if equal(value, "true") {
                    self.create_file = true;
                } else if equal(value, "false") {
                    self.create_file = false;
                } else {
                    return Err(ConfigError::InvalidValue);
                }
            },
            ConfigKey::DefaultNoteName => {
                self.default_note_name = value.to_owned();
            },
            ConfigKey::MinuteBucketSize => {
                match parse_decimal(value) {
                    Some(size) => {
                        if 1 <= size && size <= MAX_BUCKET {
                            self.minute_bucket_size = size;
                        } else {
                            return Err(ConfigError::InvalidValue);
                        }
                    },
                    None => {
                        return Err(ConfigError::InvalidValue);
                    },
                }
            },
            ConfigKey::NoteDirectory => {
                self.note_directory = value.to_owned();
            },
            ConfigKey::DataDirectory => {
                self.data_directory = value.to_owned();
            },
        }
        Ok(())
    }

    /// One line for each setting, the key's name and what is shown for it
    /// with `=` between them.
    pub fn list(&self) -> (lines: Vec<String>)
        ensures
            self@.lists_all(texts(lines@)),
    {
        let mut lines: Vec<String> = Vec::new();
        lines.push(self.line(ConfigKey::CreateFile));
        lines.push(self.line(ConfigKey::DefaultNoteName));
        lines.push(self.line(ConfigKey::MinuteBucketSize));
        lines.push(self.line(ConfigKey::NoteDirectory));
        lines.push(self.line(ConfigKey::DataDirectory));
        lines
    }

    /// Carries out a command on the settings: gives the line to show for
    /// `get`, the lines for `list`, and for `set` changes the setting and
    /// asks for the settings to be stored.
    pub fn apply(&mut self, command: &ConfigCommand) -> (r: Result<ConfigReply, ConfigError>)
        ensures
            old(self)@.replies(*command, final(self)@, r),
    {
        match command {
            ConfigCommand::Get { key } => match self.get(key.as_str()) {
                Ok(shown) => {
                    let mut lines: Vec<String> = Vec::new();
                    lines.push(shown);
                    Ok(ConfigReply::Show(lines))
                },
                Err(e) => Err(e),
            },
            ConfigCommand::SetValue { key, value } => match self.set(key.as_str(), value.as_str()) {
                Ok(()) => Ok(ConfigReply::Store),
                Err(e) => Err(e),
            },
            ConfigCommand::List => Ok(ConfigReply::Show(self.list())),
        }
    }

    /// The line that lists the setting `key`.
    pub fn line(&self, key: ConfigKey) -> (line: String)
        ensures
            self@.lists(key, line@),
    {
        let shown = self.show(key);
        let start = append(key.name(), "=");
        let line = append(start.as_str(), shown.as_str());
        assert(line@ == key.name_text() + "="@ + shown@);
        line
    }
}

impl ConfigView {
    /// Whether a command on these settings can leave the settings `after`
    /// and give the reply `reply`. `get` and `list` leave the settings as they
    /// are and give what is shown; `set` gives the changed settings to store,
    /// or changes nothing and fails.
    pub open spec fn replies(
        self,
        command: ConfigCommand,
        after: ConfigView,
        reply: Result<ConfigReply, ConfigError>,
    ) -> bool {
        match command {
            ConfigCommand::Get { key } => {
                &&& after == self
                &&& match ConfigKey::named(key@) {
                    Ok(found) => {
                        &&& reply matches Ok(ConfigReply::Show(lines))
                        &&& lines@.len() == 1
                        &&& self.shows(found, lines@[0]@)
                    },
                    Err(e) => reply == Err::<ConfigReply, ConfigError>(e),
                }
            },
            ConfigCommand::SetValue { key, value } => match self.set_by_name(key@, value@) {
                Ok(changed) => {
                    &&& reply == Ok::<ConfigReply, ConfigError>(ConfigReply::Store)
                    &&& after == changed
                },
                Err(e) => {
                    &&& reply == Err::<ConfigReply, ConfigError>(e)
                    &&& after == self
                },
            },
            ConfigCommand::List => {
                &&& after == self
                &&& reply matches Ok(ConfigReply::Show(lines))
                &&& self.lists_all(texts(lines@))
            },
        }
    }

    /// Whether these can be the lines that list the settings.
    pub open spec fn lists_all(self, lines: Seq<Seq<char>>) -> bool {
        &&& lines.len() == 5
        &&& self.lists(ConfigKey::CreateFile, lines[0])
        &&& self.lists(ConfigKey::DefaultNoteName, lines[1])
        &&& self.lists(ConfigKey::MinuteBucketSize, lines[2])
        &&& self.lists(ConfigKey::NoteDirectory, lines[3])
        &&& self.lists(ConfigKey::DataDirectory, lines[4])
    }

    /// Whether `line` can be the line that lists the setting `key`.
    pub open spec fn lists(self, key: ConfigKey, line: Seq<char>) -> bool {
        exists|shown: Seq<char>|
            self.shows(key, shown) && line == #[trigger] (key.name_text() + "="@ + shown)
    }
}

impl Default for Config {
    /// The settings of a fresh installation on this system.
    fn default() -> (config: Config)
        ensures
            config@ == initial(config@.data_directory),
    {
        Config::with_config_dir(project_config_dir("rs", "entry", "entry"))
    }
}

} // verus!
