//! The failures that a command can end in.

use vstd::prelude::*;
use vstd::string::*;

verus! {

/// What a command looked for and did not find.
#[derive(Debug, PartialEq, Eq)]
pub enum Missing {
    /// The database that a link was to point at.
    Database { name: String },
    /// The database that a command named.
    NamedDatabase { name: String },
    /// A database that `app` reaches under `label`.
    LabeledDatabase { label: String, app: String },
    /// A link of `app` under `label`.
    Link { app: String, label: String },
}

/// The mathematical value of a [`Missing`].
pub ghost enum MissingView {
    Database { name: Seq<char> },
    NamedDatabase { name: Seq<char> },
    LabeledDatabase { label: Seq<char>, app: Seq<char> },
    Link { app: Seq<char>, label: Seq<char> },
}

impl View for Missing {
    type V = MissingView;

    open spec fn view(&self) -> MissingView {
        match self {
            Missing::Database { name } => MissingView::Database { name: name@ },
            Missing::NamedDatabase { name } => MissingView::NamedDatabase { name: name@ },
            Missing::LabeledDatabase { label, app } => MissingView::LabeledDatabase {
                label: label@,
                app: app@,
            },
            Missing::Link { app, label } => MissingView::Link { app: app@, label: label@ },
        }
    }
}

impl MissingView {
    /// The text that reports the missing thing.
    pub open spec fn message(self) -> Seq<char> {
        match self {
            MissingView::Database { name } => "Database \""@ + name + "\" does not exist"@,
            MissingView::NamedDatabase { name } => "No database found with name \""@ + name
                + "\""@,
            MissingView::LabeledDatabase { label, app } => "No database found with label \""@
                + label + "\" for app \""@ + app + "\""@,
            MissingView::Link { app, label } => "no database was linked to app '"@ + app
                + "' with label '"@ + label + "'"@,
        }
    }
}

impl Missing {
    /// The text that reports the missing thing.
    pub fn message(&self) -> (text: String)
        ensures
            text@ == self@.message(),
    {
        match self {
            Missing::Database { name } => {
                let mut text = String::from_str("Database \"");
                text.append(name.as_str());
                text.append("\" does not exist");
                text
            },
            Missing::NamedDatabase { name } => {
                let mut text = String::from_str("No database found with name \"");
                text.append(name.as_str());
                text.append("\"");
                text
            },
            Missing::LabeledDatabase { label, app } => {
                let mut text = String::from_str("No database found with label \"");
                text.append(label.as_str());
                text.append("\" for app \"");
                text.append(app.as_str());
                text.append("\"");
                text
            },
            Missing::Link { app, label } => {
                let mut text = String::from_str("no database was linked to app '");
                text.append(app.as_str());
                text.append("' with label '");
                text.append(label.as_str());
                text.append("'");
                text
            },
        }
    }
}

/// Why a command failed.
#[derive(Debug, PartialEq, Eq)]
pub enum CommandError {
    /// A database or a link that the command refers to does not exist.
    NotFound(Missing),
    /// The label is already bound to the database asked for.
    AlreadyLinked { database: String, app: String, label: String },
    /// A database of that name exists already.
    AlreadyExists { database: String },
    /// A scripted resolution was given the same label twice.
    DuplicateDeclaration { label: String },
    /// A scripted resolution has no database for the label.
    MissingDeclaration { label: String },
    /// No name outside the taken ones turned up within the attempts allowed.
    GenerationExhausted,
    /// A selection named an entry that was not offered.
    UnavailableOption,
    /// The arguments of a command do not go together.
    InvalidArguments,
    /// An argument was empty or blank.
    EmptyArgument,
    /// A listing was asked to group its JSON output.
    GroupedJson,
    /// A listing holds a name that is too long for a table.
    Undrawable,
    /// The catalog or the terminal failed. `context` says what was being
    /// done, when the command names it; `cause` is what the failure said.
    Upstream { context: Option<String>, cause: String },
    /// A workflow was resumed with a reply to a request it had not made.
    UnexpectedReply,
}

/// The mathematical value of a [`CommandError`].
pub ghost enum CommandErrorView {
    NotFound(MissingView),
    AlreadyLinked { database: Seq<char>, app: Seq<char>, label: Seq<char> },
    AlreadyExists { database: Seq<char> },
    DuplicateDeclaration { label: Seq<char> },
    MissingDeclaration { label: Seq<char> },
    GenerationExhausted,
    UnavailableOption,
    InvalidArguments,
    EmptyArgument,
    GroupedJson,
    Undrawable,
    Upstream { context: Option<Seq<char>>, cause: Seq<char> },
    UnexpectedReply,
}

impl View for CommandError {
    type V = CommandErrorView;

    open spec fn view(&self) -> CommandErrorView {
        match self {
            CommandError::NotFound(missing) => CommandErrorView::NotFound(missing@),
            CommandError::AlreadyLinked { database, app, label } => {
                CommandErrorView::AlreadyLinked { database: database@, app: app@, label: label@ }
            },
            CommandError::AlreadyExists { database } => CommandErrorView::AlreadyExists {
                database: database@,
            },
            CommandError::DuplicateDeclaration { label } => {
                CommandErrorView::DuplicateDeclaration { label: label@ }
            },
            CommandError::MissingDeclaration { label } => CommandErrorView::MissingDeclaration {
                label: label@,
            },
            CommandError::GenerationExhausted => CommandErrorView::GenerationExhausted,
            CommandError::UnavailableOption => CommandErrorView::UnavailableOption,
            CommandError::InvalidArguments => CommandErrorView::InvalidArguments,
            CommandError::EmptyArgument => CommandErrorView::EmptyArgument,
            CommandError::GroupedJson => CommandErrorView::GroupedJson,
            CommandError::Undrawable => CommandErrorView::Undrawable,
            CommandError::Upstream { context, cause } => CommandErrorView::Upstream {
                context: context.deep_view(),
                cause: cause@,
            },
            CommandError::UnexpectedReply => CommandErrorView::UnexpectedReply,
        }
    }
}

impl DeepView for CommandError {
    type V = CommandErrorView;

    open spec fn deep_view(&self) -> CommandErrorView {
        self@
    }
}

impl CommandErrorView {
    /// The text shown to the user for the failure.
    pub open spec fn message(self) -> Seq<char> {
        match self {
            CommandErrorView::NotFound(missing) => missing.message(),
            CommandErrorView::AlreadyLinked { database, app, label } => "Database \""@ + database
                + "\" is already linked to app \""@ + app + "\" with the label \""@ + label
                + "\""@,
            CommandErrorView::AlreadyExists { database } => "Database \""@ + database
                + "\" already exists"@,
            CommandErrorView::DuplicateDeclaration { label } => "Label "@ + label
                + " is linked more than once"@,
            CommandErrorView::MissingDeclaration { label } => "No link specified for label '"@
                + label + "'"@,
            CommandErrorView::GenerationExhausted => "could not generate unique database name"@,
            CommandErrorView::UnavailableOption => "Choose unavailable option"@,
            CommandErrorView::InvalidArguments => "Invalid combination of arguments"@,
            CommandErrorView::EmptyArgument => "cannot be empty"@,
            CommandErrorView::GroupedJson => "Grouping is not supported with JSON format output"@,
            CommandErrorView::Undrawable => "A name is too long to be shown in a table"@,
            CommandErrorView::Upstream { context, cause } => match context {
                Some(context) => context,
                None => cause,
            },
            CommandErrorView::UnexpectedReply => "unexpected reply"@,
        }
    }
}

impl CommandError {
    /// The text shown to the user for the failure. An upstream failure shows
    /// what was being done where that is known, and else its cause.
    pub fn message(&self) -> (text: String)
        ensures
            text@ == self@.message(),
    {
        match self {
            CommandError::NotFound(missing) => missing.message(),
            CommandError::AlreadyLinked { database, app, label } => {
                let mut text = String::from_str("Database \"");
                text.append(database.as_str());
                text.append("\" is already linked to app \"");
                text.append(app.as_str());
                text.append("\" with the label \"");
                text.append(label.as_str());
                text.append("\"");
                text
            },
            CommandError::AlreadyExists { database } => {
                let mut text = String::from_str("Database \"");
                text.append(database.as_str());
                text.append("\" already exists");
                text
            },
            CommandError::DuplicateDeclaration { label } => {
                let mut text = String::from_str("Label ");
                text.append(label.as_str());
                text.append(" is linked more than once");
                text
            },
            CommandError::MissingDeclaration { label } => {
                let mut text = String::from_str("No link specified for label '");
                text.append(label.as_str());
                text.append("'");
                text
            },
            CommandError::GenerationExhausted => String::from_str(
                "could not generate unique database name",
            ),
            CommandError::UnavailableOption => String::from_str("Choose unavailable option"),
            CommandError::InvalidArguments => String::from_str("Invalid combination of arguments"),
            CommandError::EmptyArgument => String::from_str("cannot be empty"),
            CommandError::GroupedJson => String::from_str(
                "Grouping is not supported with JSON format output",
            ),
            CommandError::Undrawable => String::from_str(
                "A name is too long to be shown in a table",
            ),
            CommandError::Upstream { context, cause } => match context {
                Some(context) => context.clone(),
                None => cause.clone(),
            },
            CommandError::UnexpectedReply => String::from_str("unexpected reply"),
        }
    }
}

} // verus!
