//! The commands of the tool, as they stand once the command line is read.

use vstd::prelude::*;

verus! {

/// What to do with the settings.
#[derive(Debug, PartialEq, Eq)]
pub enum ConfigCommand {
    /// Get the value for the given config key.
    Get { key: String },
    /// Set the value for the given config key.
    SetValue { key: String, value: String },
    /// List all config keys.
    List,
}

/// What to do with the schemas.
#[derive(Debug, PartialEq, Eq)]
pub enum SchemaCommand {
    /// Generate a new schema interactively.
    New,
    /// Print the given schema.
    Show { schema_name: String },
    /// List all schemas.
    List,
    /// Remove a given schema.
    Remove { schema_name: String },
}

/// What the tool is asked to do.
#[allow(inconsistent_fields)]
#[derive(Debug, PartialEq, Eq)]
pub enum Command {
    /// Generate, list or show schemas.
    Schema { cmd: SchemaCommand },
    /// Generate a new entry for the given schema.
    For { schema_name: String },
    /// Print the last entry.
    Last,
    /// Configure the default entry rules.
    Config { cmd: ConfigCommand },
}

/// A tool for generating JSON-formatted data from a local schema.
#[derive(Debug, PartialEq, Eq)]
pub struct Entry {
    pub cmd: Command,
}

impl Entry {
    /// What the tool says of itself.
    pub open spec fn about_text() -> Seq<char> {
        "A tool for generating JSON-formatted data from a local schema"@
    }

    /// What the tool says of itself.
    pub fn about() -> (text: &'static str)
        ensures
            text@ == Self::about_text(),
    {
        "A tool for generating JSON-formatted data from a local schema"
    }
}

impl ConfigCommand {
    /// The word that asks for the command.
    pub open spec fn name_text(self) -> Seq<char> {
        match self {
            ConfigCommand::Get { .. } => "get"@,
            ConfigCommand::SetValue { .. } => "set"@,
            ConfigCommand::List => "list"@,
        }
    }

    /// What the command is for.
    pub open spec fn about_text(self) -> Seq<char> {
        match self {
            ConfigCommand::Get { .. } => "Get the value for the given config key"@,
            ConfigCommand::SetValue { .. } => "Set the value for the given config key"@,
            ConfigCommand::List => "List all config keys"@,
        }
    }

    /// The word that asks for the command.
    pub fn name(&self) -> (text: &'static str)
        ensures
            text@ == self.name_text(),
    {
        match self {
            ConfigCommand::Get { .. } => "get",
            ConfigCommand::SetValue { .. } => "set",
            ConfigCommand::List => "list",
        }
    }

    /// What the command is for.
    pub fn about(&self) -> (text: &'static str)
        ensures
            text@ == self.about_text(),
    {
        match self {
            ConfigCommand::Get { .. } => "Get the value for the given config key",
            ConfigCommand::SetValue { .. } => "Set the value for the given config key",
            ConfigCommand::List => "List all config keys",
        }
    }
}

impl SchemaCommand {
    /// The word that asks for the command.
    pub open spec fn name_text(self) -> Seq<char> {
        match self {
            SchemaCommand::New => "new"@,
            SchemaCommand::Show { .. } => "show"@,
            SchemaCommand::List => "list"@,
            SchemaCommand::Remove { .. } => "remove"@,
        }
    }

    /// What the command is for.
    pub open spec fn about_text(self) -> Seq<char> {
        match self {
            SchemaCommand::New => "Generate a new schema interactively"@,
            SchemaCommand::Show { .. } => "Print the given schema"@,
            SchemaCommand::List => "List all schemas"@,
            SchemaCommand::Remove { .. } => "Remove a given schema"@,
        }
    }

    /// The word that asks for the command.
    pub fn name(&self) -> (text: &'static str)
        ensures
            text@ == self.name_text(),
    {
        match self {
            SchemaCommand::New => "new",
            SchemaCommand::Show { .. } => "show",
            SchemaCommand::List => "list",
            SchemaCommand::Remove { .. } => "remove",
        }
    }

    /// What the command is for.
    pub fn about(&self) -> (text: &'static str)
        ensures
            text@ == self.about_text(),
    {
        match self {
            SchemaCommand::New => "Generate a new schema interactively",
            SchemaCommand::Show { .. } => "Print the given schema",
            SchemaCommand::List => "List all schemas",
            SchemaCommand::Remove { .. } => "Remove a given schema",
        }
    }
}

impl Command {
    /// The word that asks for the command.
    pub open spec fn name_text(self) -> Seq<char> {
        match self {
            Command::Schema { .. } => "schema"@,
            Command::For { .. } => "for"@,
            Command::Last => "last"@,
            Command::Config { .. } => "config"@,
        }
    }

    /// What the command is for.
    pub open spec fn about_text(self) -> Seq<char> {
        match self {
            Command::Schema { .. } => "Generate, list or show schemas"@,
            Command::For { .. } => "Generate a new entry for the given schema"@,
            Command::Last => "Print the last entry"@,
            Command::Config { .. } => "Configure your default entry rules"@,
        }
    }

    /// The word that asks for the command.
    pub fn name(&self) -> (text: &'static str)
        ensures
            text@ == self.name_text(),
    {
        match self {
            Command::Schema { .. } => "schema",
            Command::For { .. } => "for",
            Command::Last => "last",
            Command::Config { .. } => "config",
        }
    }

    /// What the command is for.
    pub fn about(&self) -> (text: &'static str)
        ensures
            text@ == self.about_text(),
    {
        match self {
            Command::Schema { .. } => "Generate, list or show schemas",
            Command::For { .. } => "Generate a new entry for the given schema",
            Command::Last => "Print the last entry",
            Command::Config { .. } => "Configure your default entry rules",
        }
    }

    /// The name of the schema that the command works on, where it works on
    /// one that exists already.
    pub open spec fn schema_name_text(self) -> Option<Seq<char>> {
        match self {
            Command::Schema { cmd: SchemaCommand::Show { schema_name } } => Some(schema_name@),
            Command::Schema { cmd: SchemaCommand::Remove { schema_name } } => Some(schema_name@),
            Command::For { schema_name } => Some(schema_name@),
            _ => None,
        }
    }

    /// The name of the schema that the command works on, where it works on
    /// one that exists already: the ones that show or remove a schema, and
    /// the one that makes an entry for it.
    pub fn schema_name(&self) -> (name: Option<&str>)
        ensures
            match name {
                Some(text) => self.schema_name_text() == Some(text@),
                None => self.schema_name_text() is None,
            },
    {
        match self {
            Command::Schema { cmd: SchemaCommand::Show { schema_name } } => Some(
                schema_name.as_str(),
            ),
            Command::Schema { cmd: SchemaCommand::Remove { schema_name } } => Some(
                schema_name.as_str(),
            ),
            Command::For { schema_name } => Some(schema_name.as_str()),
            _ => None,
        }
    }
}

} // verus!
