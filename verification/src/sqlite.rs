//! Commands on the databases of an account: create, delete, rename, and
//! run SQL against one.

use crate::error::{CommandError, CommandErrorView, Missing, MissingView};
use crate::listing::{ListCommand, ListFlow, ListFlowView};
use crate::lookup::{find_database, find_linked, has_database, linking, named};
use crate::model::{
    display_name, shown_name, Database, DatabaseView, ResourceLabel, ResourceLabelView,
};
use crate::protocol::{
    after, mutations_made, Progress, ProgressView, Reply, ReplyView, Request, RequestView,
};
use crate::search::first_where;
use crate::text::{after_mark, strip_mark, trim, trimmed};
use vstd::prelude::*;
use vstd::string::*;

verus! {

/// What was being done when the listing for a command on a database
/// failed.
pub const LIST_CONTEXT: &'static str = "Problem fetching databases";

/// What was being done when SQL failed.
pub const EXECUTE_CONTEXT: &'static str = "Problem executing SQL";

/// The line shown when a deletion is not confirmed.
pub const NOT_CONFIRMED: &'static str = "Invalid confirmation. Will not delete database.";

/// The line shown before a confirmed deletion.
pub const DELETING: &'static str = "Deleting database ...";

/// The character that marks a statement as the path of a file of SQL.
pub const FILE_MARK: char = '@';

/// An argument that must not be blank: `statement` trimmed, or
/// `EmptyArgument` where nothing is left of it.
pub fn disallow_empty(statement: &str) -> (outcome: Result<String, CommandError>)
    ensures
        match outcome {
            Ok(text) => text@ == trimmed(statement@) && text@.len() > 0,
            Err(error) => trimmed(statement@).len() == 0 && error@
                == CommandErrorView::EmptyArgument,
        },
{
    let text = trim(statement);
    if text.unicode_len() == 0 {
        Err(CommandError::EmptyArgument)
    } else {
        Ok(String::from_str(text))
    }
}

/// The line `head`, `name`, `tail`.
fn framed(head: &str, name: &str, tail: &str) -> (line: String)
    ensures
        line@ == head@ + name@ + tail@,
{
    let mut line = String::from_str(head);
    line.append(name);
    line.append(tail);
    line
}

/// Create a SQLite database.
#[derive(Debug, PartialEq, Eq)]
pub struct CreateCommand {
    /// Name of database to create.
    pub name: String,
}

/// A create command under way.
#[derive(Debug, PartialEq, Eq)]
pub enum CreateFlow {
    /// Waiting for the databases of the account.
    Listing { name: String },
    /// Waiting for the database to be created.
    Creating { name: String },
    /// Waiting for the closing line to be shown.
    Reporting,
}

/// The mathematical value of a [`CreateFlow`].
pub ghost enum CreateFlowView {
    Listing { name: Seq<char> },
    Creating { name: Seq<char> },
    Reporting,
}

impl View for CreateFlow {
    type V = CreateFlowView;

    open spec fn view(&self) -> CreateFlowView {
        match self {
            CreateFlow::Listing { name } => CreateFlowView::Listing { name: name@ },
            CreateFlow::Creating { name } => CreateFlowView::Creating { name: name@ },
            CreateFlow::Reporting => CreateFlowView::Reporting,
        }
    }
}

impl DeepView for CreateFlow {
    type V = CreateFlowView;

    open spec fn deep_view(&self) -> CreateFlowView {
        self@
    }
}

impl CreateFlowView {
    /// The first step: list the databases of the account.
    pub open spec fn start(name: Seq<char>) -> ProgressView<CreateFlowView, ()> {
        ProgressView::Continue(
            CreateFlowView::Listing { name },
            RequestView::ListDatabases { app_id: None },
        )
    }

    /// The step that the command takes on `reply`: a name that a database
    /// has already is refused, and any other is created and reported.
    pub open spec fn resume(self, reply: ReplyView) -> ProgressView<CreateFlowView, ()> {
        match (self, reply) {
            (CreateFlowView::Listing { name }, ReplyView::Databases(databases)) => {
                if has_database(databases, name) {
                    ProgressView::Done(Err(CommandErrorView::AlreadyExists { database: name }))
                } else {
                    ProgressView::Continue(
                        CreateFlowView::Creating { name },
                        RequestView::CreateDatabase { name, link: None },
                    )
                }
            },
            (CreateFlowView::Listing { .. }, _) => ProgressView::Done(
                Err(reply.rejection(Some(LIST_CONTEXT@))),
            ),
            (CreateFlowView::Creating { name }, ReplyView::Completed) => ProgressView::Continue(
                CreateFlowView::Reporting,
                RequestView::Say { line: "Database \""@ + name + "\" created"@ },
            ),
            (CreateFlowView::Creating { name }, _) => ProgressView::Done(
                Err(reply.rejection(Some("Problem creating database "@ + name))),
            ),
            (CreateFlowView::Reporting, ReplyView::Completed) => ProgressView::Done(Ok(())),
            _ => ProgressView::Done(Err(reply.rejection(None))),
        }
    }
}

impl CreateCommand {
    /// Starts the command: the workflow asks for the databases of the
    /// account.
    pub fn run(self) -> (first: Progress<CreateFlow, ()>)
        ensures
            first.deep_view() == CreateFlowView::start(self.name@),
    {
        Progress::Continue(
            CreateFlow::Listing { name: self.name },
            Request::ListDatabases { app_id: None },
        )
    }
}

impl CreateFlow {
    /// Takes the command one step further with the reply to its request.
    pub fn resume(self, reply: Reply) -> (next: Progress<CreateFlow, ()>)
        ensures
            next.deep_view() == self@.resume(reply@),
    {
        match self {
            CreateFlow::Listing { name } => match reply {
                Reply::Databases(databases) => {
                    if find_database(&databases, name.as_str()).is_some() {
                        Progress::Done(Err(CommandError::AlreadyExists { database: name }))
                    } else {
                        let created = name.clone();
                        Progress::Continue(
                            CreateFlow::Creating { name },
                            Request::CreateDatabase { name: created, link: None },
                        )
                    }
                },
                other => Progress::Done(Err(other.rejection(Some(LIST_CONTEXT)))),
            },
            CreateFlow::Creating { name } => match reply {
                Reply::Completed => Progress::Continue(
                    CreateFlow::Reporting,
                    Request::Say { line: framed("Database \"", name.as_str(), "\" created") },
                ),
                other => {
                    let mut context = String::from_str("Problem creating database ");
                    context.append(name.as_str());
                    Progress::Done(Err(other.rejection(Some(context.as_str()))))
                },
            },
            CreateFlow::Reporting => match reply {
                Reply::Completed => Progress::Done(Ok(())),
                other => Progress::Done(Err(other.rejection(None))),
            },
        }
    }
}

/// Rename a SQLite database.
#[derive(Debug, PartialEq, Eq)]
pub struct RenameCommand {
    /// Current name of database to rename.
    pub name: String,
    /// New name for the database.
    pub new_name: String,
}

/// A rename command under way.
#[derive(Debug, PartialEq, Eq)]
pub enum RenameFlow {
    /// Waiting for the databases of the account.
    Listing { name: String, new_name: String },
    /// Waiting for the database to be renamed.
    Renaming { name: String, new_name: String },
    /// Waiting for the closing line to be shown.
    Reporting,
}

/// The mathematical value of a [`RenameFlow`].
pub ghost enum RenameFlowView {
    Listing { name: Seq<char>, new_name: Seq<char> },
    Renaming { name: Seq<char>, new_name: Seq<char> },
    Reporting,
}

impl View for RenameFlow {
    type V = RenameFlowView;

    open spec fn view(&self) -> RenameFlowView {
        match self {
            RenameFlow::Listing { name, new_name } => RenameFlowView::Listing {
                name: name@,
                new_name: new_name@,
            },
            RenameFlow::Renaming { name, new_name } => RenameFlowView::Renaming {
                name: name@,
                new_name: new_name@,
            },
            RenameFlow::Reporting => RenameFlowView::Reporting,
        }
    }
}

impl DeepView for RenameFlow {
    type V = RenameFlowView;

    open spec fn deep_view(&self) -> RenameFlowView {
        self@
    }
}

impl RenameFlowView {
    /// The first step: list the databases of the account.
    pub open spec fn start(name: Seq<char>, new_name: Seq<char>) -> ProgressView<
        RenameFlowView,
        (),
    > {
        ProgressView::Continue(
            RenameFlowView::Listing { name, new_name },
            RequestView::ListDatabases { app_id: None },
        )
    }

    /// The step that the command takes on `reply`: a database that does
    /// not exist cannot be renamed, and any other is renamed and reported.
    pub open spec fn resume(self, reply: ReplyView) -> ProgressView<RenameFlowView, ()> {
        match (self, reply) {
            (RenameFlowView::Listing { name, new_name }, ReplyView::Databases(databases)) => {
                if has_database(databases, name) {
                    ProgressView::Continue(
                        RenameFlowView::Renaming { name, new_name },
                        RequestView::RenameDatabase { name, new_name },
                    )
                } else {
                    ProgressView::Done(
                        Err(CommandErrorView::NotFound(MissingView::NamedDatabase { name })),
                    )
                }
            },
            (RenameFlowView::Listing { .. }, _) => ProgressView::Done(
                Err(reply.rejection(Some(LIST_CONTEXT@))),
            ),
            (RenameFlowView::Renaming { name, new_name }, ReplyView::Completed) => {
                ProgressView::Continue(
                    RenameFlowView::Reporting,
                    RequestView::Say {
                        line: "Database \""@ + name + "\" is now named \""@ + new_name + "\""@,
                    },
                )
            },
            (RenameFlowView::Reporting, ReplyView::Completed) => ProgressView::Done(Ok(())),
            _ => ProgressView::Done(Err(reply.rejection(None))),
        }
    }
}

impl RenameCommand {
    /// Starts the command: the workflow asks for the databases of the
    /// account.
    pub fn run(self) -> (first: Progress<RenameFlow, ()>)
        ensures
            first.deep_view() == RenameFlowView::start(self.name@, self.new_name@),
    {
        Progress::Continue(
            RenameFlow::Listing { name: self.name, new_name: self.new_name },
            Request::ListDatabases { app_id: None },
        )
    }
}

impl RenameFlow {
    /// Takes the command one step further with the reply to its request.
    pub fn resume(self, reply: Reply) -> (next: Progress<RenameFlow, ()>)
        ensures
            next.deep_view() == self@.resume(reply@),
    {
        match self {
            RenameFlow::Listing { name, new_name } => match reply {
                Reply::Databases(databases) => {
                    if find_database(&databases, name.as_str()).is_some() {
                        let request = Request::RenameDatabase {
                            name: name.clone(),
                            new_name: new_name.clone(),
                        };
                        Progress::Continue(RenameFlow::Renaming { name, new_name }, request)
                    } else {
                        Progress::Done(
                            Err(CommandError::NotFound(Missing::NamedDatabase { name })),
                        )
                    }
                },
                other => Progress::Done(Err(other.rejection(Some(LIST_CONTEXT)))),
            },
            RenameFlow::Renaming { name, new_name } => match reply {
                Reply::Completed => {
                    let mut line = framed("Database \"", name.as_str(), "\" is now named \"");
                    line.append(new_name.as_str());
                    line.append("\"");
                    Progress::Continue(RenameFlow::Reporting, Request::Say { line })
                },
                other => Progress::Done(Err(other.rejection(None))),
            },
            RenameFlow::Reporting => match reply {
                Reply::Completed => Progress::Done(Ok(())),
                other => Progress::Done(Err(other.rejection(None))),
            },
        }
    }
}


/// The names shown for the applications of `links`, with `", "` between
/// them.
pub open spec fn joined_apps(links: Seq<ResourceLabelView>) -> Seq<char>
    decreases links.len(),
{
    if links.len() == 0 {
        Seq::empty()
    } else if links.len() == 1 {
        display_name(links[0])
    } else {
        joined_apps(links.drop_last()) + ", "@ + display_name(links.last())
    }
}

/// The question put before the database `database`, to which `links`
/// point, is deleted. It warns of the applications that use the database.
pub open spec fn delete_prompt(database: Seq<char>, links: Seq<ResourceLabelView>) -> Seq<char> {
    let warning = if joined_apps(links).len() > 0 {
        "Database \""@ + database + "\" is currently linked to the following apps: "@
            + joined_apps(links)
            + ".\nIt is recommended to use `spin cloud link sqlite` to link to another database to those apps before deleting.\n"@
    } else {
        Seq::empty()
    };
    warning + "The action is irreversible. Please type \""@ + database + "\" for confirmation"@
}

/// The names shown for the applications of `links`, with `", "` between
/// them.
pub fn join_apps(links: &Vec<ResourceLabel>) -> (text: String)
    ensures
        text@ == joined_apps(links.deep_view()),
{
    let ghost all = links.deep_view();
    let mut text = String::new();
    let mut i: usize = 0;
    while i < links.len()
        invariant
            i <= links.len(),
            all == links.deep_view(),
            text@ == joined_apps(all.take(i as int)),
        decreases links.len() - i,
    {
        let ghost done = all.take(i as int);
        let ghost next = all.take(i + 1);
        assert(next.drop_last() =~= done);
        assert(next.last() == links[i as int]@);
        if i > 0 {
            text.append(", ");
        }
        text.append(shown_name(&links[i]));
        proof {
            if i == 0 {
                assert(joined_apps(done) =~= Seq::<char>::empty());
                assert(text@ =~= display_name(next[0]));
            }
        }
        i += 1;
    }
    assert(all.take(i as int) =~= all);
    text
}

/// The request for the confirmation of the deletion of `database`, to
/// which `links` point: the user is to type the database's name.
pub fn prompt_delete_database(database: &str, links: &Vec<ResourceLabel>) -> (request: Request)
    ensures
        request@ == (RequestView::Input {
            prompt: delete_prompt(database@, links.deep_view()),
            default: None,
        }),
{
    let existing_links = join_apps(links);
    let mut prompt = String::new();
    if existing_links.as_str().unicode_len() > 0 {
        prompt.append("Database \"");
        prompt.append(database);
        prompt.append("\" is currently linked to the following apps: ");
        prompt.append(existing_links.as_str());
        prompt.append(
            ".\nIt is recommended to use `spin cloud link sqlite` to link to another database to those apps before deleting.\n",
        );
    }
    prompt.append("The action is irreversible. Please type \"");
    prompt.append(database);
    prompt.append("\" for confirmation");
    assert(prompt@ =~= delete_prompt(database@, links.deep_view()));
    Request::Input { prompt, default: None }
}

/// Delete a SQLite database.
#[derive(Debug, PartialEq, Eq)]
pub struct DeleteCommand {
    /// Name of database to delete.
    pub name: String,
    /// Skips the prompt to confirm deletion of the database.
    pub yes: bool,
}

/// A delete command under way.
#[derive(Debug, PartialEq, Eq)]
pub enum DeleteFlow {
    /// Waiting for the databases of the account.
    Listing { name: String, yes: bool },
    /// Waiting for the user to type the database's name.
    Confirming { name: String },
    /// Waiting for the line that announces the deletion to be shown.
    Announcing { name: String },
    /// Waiting for the database to be deleted.
    Deleting { name: String },
    /// Waiting for the closing line to be shown.
    Reporting,
}

/// The mathematical value of a [`DeleteFlow`].
pub ghost enum DeleteFlowView {
    Listing { name: Seq<char>, yes: bool },
    Confirming { name: Seq<char> },
    Announcing { name: Seq<char> },
    Deleting { name: Seq<char> },
    Reporting,
}

impl View for DeleteFlow {
    type V = DeleteFlowView;

    open spec fn view(&self) -> DeleteFlowView {
        match self {
            DeleteFlow::Listing { name, yes } => DeleteFlowView::Listing { name: name@, yes: *yes },
            DeleteFlow::Confirming { name } => DeleteFlowView::Confirming { name: name@ },
            DeleteFlow::Announcing { name } => DeleteFlowView::Announcing { name: name@ },
            DeleteFlow::Deleting { name } => DeleteFlowView::Deleting { name: name@ },
            DeleteFlow::Reporting => DeleteFlowView::Reporting,
        }
    }
}

impl DeepView for DeleteFlow {
    type V = DeleteFlowView;

    open spec fn deep_view(&self) -> DeleteFlowView {
        self@
    }
}

impl DeleteFlowView {
    /// The first step: list the databases of the account.
    pub open spec fn start(name: Seq<char>, yes: bool) -> ProgressView<DeleteFlowView, ()> {
        ProgressView::Continue(
            DeleteFlowView::Listing { name, yes },
            RequestView::ListDatabases { app_id: None },
        )
    }

    /// The step that asks for the deletion of the database.
    pub open spec fn delete(name: Seq<char>) -> ProgressView<DeleteFlowView, ()> {
        ProgressView::Continue(
            DeleteFlowView::Deleting { name },
            RequestView::DeleteDatabase { name },
        )
    }

    /// The step that the command takes on `reply`.
    ///
    /// A database that does not exist cannot be deleted. One that exists
    /// is deleted at once where the command says so; else only after the
    /// user has typed its name, and anything else typed, or nothing, leaves
    /// the database as it is.
    pub open spec fn resume(self, reply: ReplyView) -> ProgressView<DeleteFlowView, ()> {
        match (self, reply) {
            (DeleteFlowView::Listing { name, yes }, ReplyView::Databases(databases)) => {
                match first_where(databases, named(name)) {
                    None => ProgressView::Done(
                        Err(CommandErrorView::NotFound(MissingView::NamedDatabase { name })),
                    ),
                    Some(i) => if yes {
                        Self::delete(name)
                    } else {
                        ProgressView::Continue(
                            DeleteFlowView::Confirming { name },
                            RequestView::Input {
                                prompt: delete_prompt(name, databases[i].links),
                                default: None,
                            },
                        )
                    },
                }
            },
            (DeleteFlowView::Listing { .. }, _) => ProgressView::Done(
                Err(reply.rejection(Some(LIST_CONTEXT@))),
            ),
            (DeleteFlowView::Confirming { name }, ReplyView::Entered(answer)) => {
                if answer == Some(name) {
                    ProgressView::Continue(
                        DeleteFlowView::Announcing { name },
                        RequestView::Say { line: DELETING@ },
                    )
                } else {
                    ProgressView::Continue(
                        DeleteFlowView::Reporting,
                        RequestView::Say { line: NOT_CONFIRMED@ },
                    )
                }
            },
            (DeleteFlowView::Announcing { name }, ReplyView::Completed) => Self::delete(name),
            (DeleteFlowView::Deleting { name }, ReplyView::Completed) => ProgressView::Continue(
                DeleteFlowView::Reporting,
                RequestView::Say { line: "Database \""@ + name + "\" deleted"@ },
            ),
            (DeleteFlowView::Deleting { name }, _) => ProgressView::Done(
                Err(reply.rejection(Some("Problem deleting database "@ + name))),
            ),
            (DeleteFlowView::Reporting, ReplyView::Completed) => ProgressView::Done(Ok(())),
            _ => ProgressView::Done(Err(reply.rejection(None))),
        }
    }
}

impl DeleteCommand {
    /// Starts the command: the workflow asks for the databases of the
    /// account.
    pub fn run(self) -> (first: Progress<DeleteFlow, ()>)
        ensures
            first.deep_view() == DeleteFlowView::start(self.name@, self.yes),
    {
        Progress::Continue(
            DeleteFlow::Listing { name: self.name, yes: self.yes },
            Request::ListDatabases { app_id: None },
        )
    }
}

impl DeleteFlow {
    fn delete(name: String) -> (step: Progress<DeleteFlow, ()>)
        ensures
            step.deep_view() == DeleteFlowView::delete(name@),
    {
        let request = Request::DeleteDatabase { name: name.clone() };
        Progress::Continue(DeleteFlow::Deleting { name }, request)
    }

    /// Takes the command one step further with the reply to its request.
    pub fn resume(self, reply: Reply) -> (next: Progress<DeleteFlow, ()>)
        ensures
            next.deep_view() == self@.resume(reply@),
    {
        match self {
            DeleteFlow::Listing { name, yes } => match reply {
                Reply::Databases(databases) => match find_database(&databases, name.as_str()) {
                    None => Progress::Done(
                        Err(CommandError::NotFound(Missing::NamedDatabase { name })),
                    ),
                    Some(i) => {
                        if yes {
                            DeleteFlow::delete(name)
                        } else {
                            assert(databases.deep_view()[i as int] == databases[i as int]@);
                            let request = prompt_delete_database(
                                name.as_str(),
                                &databases[i].links,
                            );
                            Progress::Continue(DeleteFlow::Confirming { name }, request)
                        }
                    },
                },
                other => Progress::Done(Err(other.rejection(Some(LIST_CONTEXT)))),
            },
            DeleteFlow::Confirming { name } => match reply {
                Reply::Entered(answer) => {
                    let confirmed = match &answer {
                        Some(text) => *text == name,
                        None => false,
                    };
                    if confirmed {
                        Progress::Continue(
                            DeleteFlow::Announcing { name },
                            Request::Say { line: String::from_str(DELETING) },
                        )
                    } else {
                        Progress::Continue(
                            DeleteFlow::Reporting,
                            Request::Say { line: String::from_str(NOT_CONFIRMED) },
                        )
                    }
                },
                other => Progress::Done(Err(other.rejection(None))),
            },
            DeleteFlow::Announcing { name } => match reply {
                Reply::Completed => DeleteFlow::delete(name),
                other => Progress::Done(Err(other.rejection(None))),
            },
            DeleteFlow::Deleting { name } => match reply {
                Reply::Completed => Progress::Continue(
                    DeleteFlow::Reporting,
                    Request::Say { line: framed("Database \"", name.as_str(), "\" deleted") },
                ),
                other => {
                    let mut context = String::from_str("Problem deleting database ");
                    context.append(name.as_str());
                    Progress::Done(Err(other.rejection(Some(context.as_str()))))
                },
            },
            DeleteFlow::Reporting => match reply {
                Reply::Completed => Progress::Done(Ok(())),
                other => Progress::Done(Err(other.rejection(None))),
            },
        }
    }
}

/// Execute SQL statements against a SQLite database: the one called
/// `database`, or the one that `app` reaches under `label`.
#[derive(Debug, PartialEq, Eq)]
pub struct ExecuteCommand {
    /// Name of database to execute against.
    pub database: Option<String>,
    /// Label of database to execute against.
    pub label: Option<String>,
    /// App to which label relates.
    pub app: Option<String>,
    /// Statement to execute, or `@` and the path of a file that holds it.
    pub statement: String,
}

/// The mathematical value of an [`ExecuteCommand`].
pub ghost struct ExecuteCommandView {
    pub database: Option<Seq<char>>,
    pub label: Option<Seq<char>>,
    pub app: Option<Seq<char>>,
    pub statement: Seq<char>,
}

impl View for ExecuteCommand {
    type V = ExecuteCommandView;

    open spec fn view(&self) -> ExecuteCommandView {
        ExecuteCommandView {
            database: self.database.deep_view(),
            label: self.label.deep_view(),
            app: self.app.deep_view(),
            statement: self.statement@,
        }
    }
}

/// The database that SQL is to run against.
#[derive(Debug, PartialEq, Eq)]
pub enum ExecuteTarget {
    /// The database of this name.
    Database(String),
    /// The database that `app` reaches under `label`.
    Label { label: String, app: String },
}

/// The mathematical value of an [`ExecuteTarget`].
pub ghost enum ExecuteTargetView {
    Database(Seq<char>),
    Label { label: Seq<char>, app: Seq<char> },
}

impl View for ExecuteTarget {
    type V = ExecuteTargetView;

    open spec fn view(&self) -> ExecuteTargetView {
        match self {
            ExecuteTarget::Database(name) => ExecuteTargetView::Database(name@),
            ExecuteTarget::Label { label, app } => ExecuteTargetView::Label {
                label: label@,
                app: app@,
            },
        }
    }
}

impl ExecuteCommandView {
    /// The target that the arguments name: a database alone, or a label
    /// with its application; any other combination is refused.
    pub open spec fn target(self) -> Result<ExecuteTargetView, CommandErrorView> {
        match (self.database, self.label, self.app) {
            (Some(database), None, None) => Ok(ExecuteTargetView::Database(database)),
            (None, Some(label), Some(app)) => Ok(ExecuteTargetView::Label { label, app }),
            _ => Err(CommandErrorView::InvalidArguments),
        }
    }
}

impl ExecuteTargetView {
    /// The first of `databases` that is the target.
    pub open spec fn find_in(self, databases: Seq<DatabaseView>) -> Result<
        DatabaseView,
        CommandErrorView,
    > {
        match self {
            ExecuteTargetView::Database(name) => match first_where(databases, named(name)) {
                Some(i) => Ok(databases[i]),
                None => Err(CommandErrorView::NotFound(MissingView::NamedDatabase { name })),
            },
            ExecuteTargetView::Label { label, app } => match first_where(
                databases,
                linking(label, Some(app)),
            ) {
                Some(i) => Ok(databases[i]),
                None => Err(
                    CommandErrorView::NotFound(MissingView::LabeledDatabase { label, app }),
                ),
            },
        }
    }
}

impl ExecuteTarget {
    /// The first of `databases` that is the target: the one of the name
    /// given, or one with a link of the application under the label.
    ///
    /// Fails with `NotFound` where there is none.
    pub fn find_in(&self, databases: Vec<Database>) -> (outcome: Result<Database, CommandError>)
        ensures
            match outcome {
                Ok(database) => self@.find_in(databases.deep_view()) == Ok::<
                    DatabaseView,
                    CommandErrorView,
                >(database@),
                Err(error) => self@.find_in(databases.deep_view()) == Err::<
                    DatabaseView,
                    CommandErrorView,
                >(error@),
            },
    {
        let mut databases = databases;
        let ghost all = databases.deep_view();
        match self {
            ExecuteTarget::Database(name) => match find_database(&databases, name.as_str()) {
                Some(i) => {
                    assert(all[i as int] == databases[i as int]@);
                    Ok(databases.swap_remove(i))
                },
                None => Err(CommandError::NotFound(Missing::NamedDatabase { name: name.clone() })),
            },
            ExecuteTarget::Label { label, app } => match find_linked(
                &databases,
                label.as_str(),
                Some(app.as_str()),
            ) {
                Some((i, _)) => {
                    assert(all[i as int] == databases[i as int]@);
                    Ok(databases.swap_remove(i))
                },
                None => {
                    proof {
                        crate::search::lemma_first_where_sound(
                            all,
                            linking(label@, Some(app@)),
                        );
                    }
                    Err(
                        CommandError::NotFound(
                            Missing::LabeledDatabase { label: label.clone(), app: app.clone() },
                        ),
                    )
                },
            },
        }
    }
}

impl ExecuteCommand {
    /// The target that the arguments name.
    ///
    /// Fails with `InvalidArguments` unless the command names a database
    /// alone, or a label with its application.
    pub fn target(&self) -> (outcome: Result<ExecuteTarget, CommandError>)
        ensures
            match outcome {
                Ok(target) => self@.target() == Ok::<ExecuteTargetView, CommandErrorView>(target@),
                Err(error) => self@.target() == Err::<ExecuteTargetView, CommandErrorView>(error@),
            },
    {
        match (&self.database, &self.label, &self.app) {
            (Some(d), None, None) => Ok(ExecuteTarget::Database(d.clone())),
            (None, Some(l), Some(a)) => Ok(
                ExecuteTarget::Label { label: l.clone(), app: a.clone() },
            ),
            _ => Err(CommandError::InvalidArguments),
        }
    }
}

/// An execute command under way.
#[derive(Debug, PartialEq, Eq)]
pub enum ExecuteFlow {
    /// Waiting for the databases of the account.
    Listing { target: ExecuteTarget, statement: String },
    /// Waiting for the contents of the file of SQL at `path`.
    Reading { database: String, path: String },
    /// Waiting for the SQL to run.
    Executing,
}

/// The mathematical value of an [`ExecuteFlow`].
pub ghost enum ExecuteFlowView {
    Listing { target: ExecuteTargetView, statement: Seq<char> },
    Reading { database: Seq<char>, path: Seq<char> },
    Executing,
}

impl View for ExecuteFlow {
    type V = ExecuteFlowView;

    open spec fn view(&self) -> ExecuteFlowView {
        match self {
            ExecuteFlow::Listing { target, statement } => ExecuteFlowView::Listing {
                target: target@,
                statement: statement@,
            },
            ExecuteFlow::Reading { database, path } => ExecuteFlowView::Reading {
                database: database@,
                path: path@,
            },
            ExecuteFlow::Executing => ExecuteFlowView::Executing,
        }
    }
}

impl DeepView for ExecuteFlow {
    type V = ExecuteFlowView;

    open spec fn deep_view(&self) -> ExecuteFlowView {
        self@
    }
}

/// What was being done when the file of SQL at `path` could not be read.
pub open spec fn read_failure(path: Seq<char>) -> Seq<char> {
    "could not read sql file at '"@ + path + "'"@
}

impl ExecuteCommandView {
    /// The first step: with a target, list the databases of the account.
    pub open spec fn run(self) -> ProgressView<ExecuteFlowView, ()> {
        match self.target() {
            Ok(target) => ProgressView::Continue(
                ExecuteFlowView::Listing { target, statement: self.statement },
                RequestView::ListDatabases { app_id: None },
            ),
            Err(error) => ProgressView::Done(Err(error)),
        }
    }
}

impl ExecuteFlowView {
    /// The step that runs `statement` against `database`.
    pub open spec fn execute(database: Seq<char>, statement: Seq<char>) -> ProgressView<
        ExecuteFlowView,
        (),
    > {
        ProgressView::Continue(
            ExecuteFlowView::Executing,
            RequestView::ExecuteSql { database, statement },
        )
    }

    /// The step that the command takes on `reply`.
    ///
    /// With the databases listed, the target is looked up. A statement
    /// that starts with `@` names a file, whose contents are the SQL to
    /// run; any other statement is run as it is.
    pub open spec fn resume(self, reply: ReplyView) -> ProgressView<ExecuteFlowView, ()> {
        match (self, reply) {
            (ExecuteFlowView::Listing { target, statement }, ReplyView::Databases(databases)) => {
                match target.find_in(databases) {
                    Err(error) => ProgressView::Done(Err(error)),
                    Ok(database) => match after_mark(statement, FILE_MARK) {
                        Some(path) => ProgressView::Continue(
                            ExecuteFlowView::Reading { database: database.name, path },
                            RequestView::ReadFile { path },
                        ),
                        None => Self::execute(database.name, statement),
                    },
                }
            },
            (ExecuteFlowView::Listing { .. }, _) => ProgressView::Done(
                Err(reply.rejection(Some(LIST_CONTEXT@))),
            ),
            (ExecuteFlowView::Reading { database, path }, ReplyView::Contents(text)) => {
                Self::execute(database, text)
            },
            (ExecuteFlowView::Reading { database, path }, _) => ProgressView::Done(
                Err(reply.rejection(Some(read_failure(path)))),
            ),
            (ExecuteFlowView::Executing, ReplyView::Completed) => ProgressView::Done(Ok(())),
            (ExecuteFlowView::Executing, _) => ProgressView::Done(
                Err(reply.rejection(Some(EXECUTE_CONTEXT@))),
            ),
        }
    }
}

impl ExecuteCommand {
    /// Starts the command: with a target, the workflow asks for the
    /// databases of the account.
    pub fn run(self) -> (first: Progress<ExecuteFlow, ()>)
        ensures
            first.deep_view() == self@.run(),
    {
        match self.target() {
            Ok(target) => Progress::Continue(
                ExecuteFlow::Listing { target, statement: self.statement },
                Request::ListDatabases { app_id: None },
            ),
            Err(error) => Progress::Done(Err(error)),
        }
    }
}

impl ExecuteFlow {
    /// Takes the command one step further with the reply to its request.
    pub fn resume(self, reply: Reply) -> (next: Progress<ExecuteFlow, ()>)
        ensures
            next.deep_view() == self@.resume(reply@),
    {
        match self {
            ExecuteFlow::Listing { target, statement } => match reply {
                Reply::Databases(databases) => match target.find_in(databases) {
                    Err(error) => Progress::Done(Err(error)),
                    Ok(found) => {
                        let database = found.name;
                        let file = match strip_mark(statement.as_str(), FILE_MARK) {
                            Some(path) => Some(String::from_str(path)),
                            None => None,
                        };
                        match file {
                            Some(path) => {
                                let request = Request::ReadFile { path: path.clone() };
                                Progress::Continue(ExecuteFlow::Reading { database, path }, request)
                            },
                            None => Progress::Continue(
                                ExecuteFlow::Executing,
                                Request::ExecuteSql { database, statement },
                            ),
                        }
                    },
                },
                other => Progress::Done(Err(other.rejection(Some(LIST_CONTEXT)))),
            },
            ExecuteFlow::Reading { database, path } => match reply {
                Reply::Contents(statement) => Progress::Continue(
                    ExecuteFlow::Executing,
                    Request::ExecuteSql { database, statement },
                ),
                other => {
                    let context = framed("could not read sql file at '", path.as_str(), "'");
                    Progress::Done(Err(other.rejection(Some(context.as_str()))))
                },
            },
            ExecuteFlow::Executing => match reply {
                Reply::Completed => Progress::Done(Ok(())),
                other => Progress::Done(Err(other.rejection(Some(EXECUTE_CONTEXT)))),
            },
        }
    }
}

/// Manage the SQLite databases of an account.
#[derive(Debug, PartialEq, Eq)]
pub enum SqliteCommand {
    /// Create a SQLite database.
    Create(CreateCommand),
    /// Delete a SQLite database.
    Delete(DeleteCommand),
    /// Execute SQL statements against a SQLite database.
    Execute(ExecuteCommand),
    /// List all your SQLite databases.
    List(ListCommand),
    /// Rename a SQLite database.
    Rename(RenameCommand),
}

/// A command on the databases under way.
#[derive(Debug, PartialEq, Eq)]
pub enum SqliteFlow {
    Create(CreateFlow),
    Delete(DeleteFlow),
    Execute(ExecuteFlow),
    List(ListFlow),
    Rename(RenameFlow),
}

/// The mathematical value of a [`SqliteFlow`].
pub ghost enum SqliteFlowView {
    Create(CreateFlowView),
    Delete(DeleteFlowView),
    Execute(ExecuteFlowView),
    List(ListFlowView),
    Rename(RenameFlowView),
}

impl View for SqliteFlow {
    type V = SqliteFlowView;

    open spec fn view(&self) -> SqliteFlowView {
        match self {
            SqliteFlow::Create(flow) => SqliteFlowView::Create(flow@),
            SqliteFlow::Delete(flow) => SqliteFlowView::Delete(flow@),
            SqliteFlow::Execute(flow) => SqliteFlowView::Execute(flow@),
            SqliteFlow::List(flow) => SqliteFlowView::List(flow@),
            SqliteFlow::Rename(flow) => SqliteFlowView::Rename(flow@),
        }
    }
}

impl DeepView for SqliteFlow {
    type V = SqliteFlowView;

    open spec fn deep_view(&self) -> SqliteFlowView {
        self@
    }
}

/// The step of a command, as a step of the command on the databases that
/// it is: `wrap` says which.
pub open spec fn lifted<M>(step: ProgressView<M, ()>, wrap: spec_fn(M) -> SqliteFlowView)
    -> ProgressView<SqliteFlowView, ()> {
    match step {
        ProgressView::Continue(flow, request) => ProgressView::Continue(wrap(flow), request),
        ProgressView::Done(outcome) => ProgressView::Done(outcome),
    }
}

impl SqliteFlowView {
    /// The step that the command takes on `reply`: the step of the
    /// command that it is.
    pub open spec fn resume(self, reply: ReplyView) -> ProgressView<SqliteFlowView, ()> {
        match self {
            SqliteFlowView::Create(flow) => lifted(
                flow.resume(reply),
                |next: CreateFlowView| SqliteFlowView::Create(next),
            ),
            SqliteFlowView::Delete(flow) => lifted(
                flow.resume(reply),
                |next: DeleteFlowView| SqliteFlowView::Delete(next),
            ),
            SqliteFlowView::Execute(flow) => lifted(
                flow.resume(reply),
                |next: ExecuteFlowView| SqliteFlowView::Execute(next),
            ),
            SqliteFlowView::List(flow) => lifted(
                flow.resume(reply),
                |next: ListFlowView| SqliteFlowView::List(next),
            ),
            SqliteFlowView::Rename(flow) => lifted(
                flow.resume(reply),
                |next: RenameFlowView| SqliteFlowView::Rename(next),
            ),
        }
    }
}

impl SqliteFlow {
    fn create(step: Progress<CreateFlow, ()>) -> (lift: Progress<SqliteFlow, ()>)
        ensures
            lift.deep_view() == lifted(
                step.deep_view(),
                |next: CreateFlowView| SqliteFlowView::Create(next),
            ),
    {
        match step {
            Progress::Continue(flow, request) => Progress::Continue(
                SqliteFlow::Create(flow),
                request,
            ),
            Progress::Done(outcome) => Progress::Done(outcome),
        }
    }

    fn delete(step: Progress<DeleteFlow, ()>) -> (lift: Progress<SqliteFlow, ()>)
        ensures
            lift.deep_view() == lifted(
                step.deep_view(),
                |next: DeleteFlowView| SqliteFlowView::Delete(next),
            ),
    {
        match step {
            Progress::Continue(flow, request) => Progress::Continue(
                SqliteFlow::Delete(flow),
                request,
            ),
            Progress::Done(outcome) => Progress::Done(outcome),
        }
    }

    fn execute(step: Progress<ExecuteFlow, ()>) -> (lift: Progress<SqliteFlow, ()>)
        ensures
            lift.deep_view() == lifted(
                step.deep_view(),
                |next: ExecuteFlowView| SqliteFlowView::Execute(next),
            ),
    {
        match step {
            Progress::Continue(flow, request) => Progress::Continue(
                SqliteFlow::Execute(flow),
                request,
            ),
            Progress::Done(outcome) => Progress::Done(outcome),
        }
    }

    fn list(step: Progress<ListFlow, ()>) -> (lift: Progress<SqliteFlow, ()>)
        ensures
            lift.deep_view() == lifted(
                step.deep_view(),
                |next: ListFlowView| SqliteFlowView::List(next),
            ),
    {
        match step {
            Progress::Continue(flow, request) => Progress::Continue(
                SqliteFlow::List(flow),
                request,
            ),
            Progress::Done(outcome) => Progress::Done(outcome),
        }
    }

    fn rename(step: Progress<RenameFlow, ()>) -> (lift: Progress<SqliteFlow, ()>)
        ensures
            lift.deep_view() == lifted(
                step.deep_view(),
                |next: RenameFlowView| SqliteFlowView::Rename(next),
            ),
    {
        match step {
            Progress::Continue(flow, request) => Progress::Continue(
                SqliteFlow::Rename(flow),
                request,
            ),
            Progress::Done(outcome) => Progress::Done(outcome),
        }
    }

    /// Takes the command one step further with the reply to its request.
    pub fn resume(self, reply: Reply) -> (next: Progress<SqliteFlow, ()>)
        ensures
            next.deep_view() == self@.resume(reply@),
    {
        match self {
            SqliteFlow::Create(flow) => SqliteFlow::create(flow.resume(reply)),
            SqliteFlow::Delete(flow) => SqliteFlow::delete(flow.resume(reply)),
            SqliteFlow::Execute(flow) => SqliteFlow::execute(flow.resume(reply)),
            SqliteFlow::List(flow) => SqliteFlow::list(flow.resume(reply)),
            SqliteFlow::Rename(flow) => SqliteFlow::rename(flow.resume(reply)),
        }
    }
}

impl SqliteCommand {
    /// Starts the command: the first step of the command that it is.
    pub fn run(self) -> (first: Progress<SqliteFlow, ()>)
        ensures
            first.deep_view() == match self {
                SqliteCommand::Create(command) => lifted(
                    CreateFlowView::start(command.name@),
                    |next: CreateFlowView| SqliteFlowView::Create(next),
                ),
                SqliteCommand::Delete(command) => lifted(
                    DeleteFlowView::start(command.name@, command.yes),
                    |next: DeleteFlowView| SqliteFlowView::Delete(next),
                ),
                SqliteCommand::Execute(command) => lifted(
                    command@.run(),
                    |next: ExecuteFlowView| SqliteFlowView::Execute(next),
                ),
                SqliteCommand::List(command) => lifted(
                    command@.run(),
                    |next: ListFlowView| SqliteFlowView::List(next),
                ),
                SqliteCommand::Rename(command) => lifted(
                    RenameFlowView::start(command.name@, command.new_name@),
                    |next: RenameFlowView| SqliteFlowView::Rename(next),
                ),
            },
    {
        match self {
            SqliteCommand::Create(command) => SqliteFlow::create(command.run()),
            SqliteCommand::Delete(command) => SqliteFlow::delete(command.run()),
            SqliteCommand::Execute(command) => SqliteFlow::execute(command.run()),
            SqliteCommand::List(command) => SqliteFlow::list(command.run()),
            SqliteCommand::Rename(command) => SqliteFlow::rename(command.run()),
        }
    }
}

impl CreateFlowView {
    /// The most requests that the command may still make after the one it
    /// waits on.
    pub open spec fn remaining(self) -> nat {
        match self {
            CreateFlowView::Listing { .. } => 2,
            CreateFlowView::Creating { .. } => 1,
            CreateFlowView::Reporting => 0,
        }
    }
}

impl RenameFlowView {
    /// The most requests that the command may still make after the one it
    /// waits on.
    pub open spec fn remaining(self) -> nat {
        match self {
            RenameFlowView::Listing { .. } => 2,
            RenameFlowView::Renaming { .. } => 1,
            RenameFlowView::Reporting => 0,
        }
    }
}

impl DeleteFlowView {
    /// The most requests that the command may still make after the one it
    /// waits on.
    pub open spec fn remaining(self) -> nat {
        match self {
            DeleteFlowView::Listing { .. } => 4,
            DeleteFlowView::Confirming { .. } => 3,
            DeleteFlowView::Announcing { .. } => 2,
            DeleteFlowView::Deleting { .. } => 1,
            DeleteFlowView::Reporting => 0,
        }
    }
}

impl ExecuteFlowView {
    /// The most requests that the command may still make after the one it
    /// waits on.
    pub open spec fn remaining(self) -> nat {
        match self {
            ExecuteFlowView::Listing { .. } => 2,
            ExecuteFlowView::Reading { .. } => 1,
            ExecuteFlowView::Executing => 0,
        }
    }
}

impl SqliteFlowView {
    /// The most requests that the command may still make after the one it
    /// waits on.
    pub open spec fn remaining(self) -> nat {
        match self {
            SqliteFlowView::Create(flow) => flow.remaining(),
            SqliteFlowView::Delete(flow) => flow.remaining(),
            SqliteFlowView::Execute(flow) => flow.remaining(),
            SqliteFlowView::List(flow) => flow.remaining(),
            SqliteFlowView::Rename(flow) => flow.remaining(),
        }
    }
}

/// Every step of a command on the databases brings it nearer to its end.
pub proof fn lemma_sqlite_steps_run_out(flow: SqliteFlowView, reply: ReplyView)
    ensures
        flow.resume(reply) matches ProgressView::Continue(next, _) ==> next.remaining()
            < flow.remaining(),
{
    if let SqliteFlowView::List(ListFlowView::Listing { command }) = flow {
        if let ReplyView::Databases(databases) = reply {
            crate::listing::lemma_listing_has_few_parts(command, databases);
        }
    }
}

/// The steps of a create command.
pub open spec fn create_steps() -> spec_fn(CreateFlowView, ReplyView) -> ProgressView<
    CreateFlowView,
    (),
> {
    |flow: CreateFlowView, reply: ReplyView| flow.resume(reply)
}

/// The steps of a delete command.
pub open spec fn delete_steps() -> spec_fn(DeleteFlowView, ReplyView) -> ProgressView<
    DeleteFlowView,
    (),
> {
    |flow: DeleteFlowView, reply: ReplyView| flow.resume(reply)
}

/// A name that a database has already is not created again: the command
/// fails with `AlreadyExists` and changes nothing in the catalog.
pub proof fn lemma_create_existing_name(
    name: Seq<char>,
    databases: Seq<DatabaseView>,
    replies: Seq<ReplyView>,
)
    requires
        has_database(databases, name),
        replies.len() > 0,
        replies[0] == ReplyView::Databases(databases),
    ensures
        after(create_steps(), CreateFlowView::start(name), replies) == ProgressView::<
            CreateFlowView,
            (),
        >::Done(Err(CommandErrorView::AlreadyExists { database: name })),
        mutations_made(create_steps(), CreateFlowView::start(name), replies) == Seq::<
            RequestView,
        >::empty(),
{
    reveal_with_fuel(after, 3);
    reveal_with_fuel(mutations_made, 3);
    assert(mutations_made(create_steps(), CreateFlowView::start(name), replies) =~= Seq::<
        RequestView,
    >::empty());
}

/// A database that does not exist is not deleted: the command fails with
/// `NotFound` and changes nothing in the catalog.
pub proof fn lemma_delete_missing_database(
    name: Seq<char>,
    yes: bool,
    databases: Seq<DatabaseView>,
    replies: Seq<ReplyView>,
)
    requires
        !has_database(databases, name),
        replies.len() > 0,
        replies[0] == ReplyView::Databases(databases),
    ensures
        after(delete_steps(), DeleteFlowView::start(name, yes), replies) == ProgressView::<
            DeleteFlowView,
            (),
        >::Done(Err(CommandErrorView::NotFound(MissingView::NamedDatabase { name }))),
        mutations_made(delete_steps(), DeleteFlowView::start(name, yes), replies) == Seq::<
            RequestView,
        >::empty(),
{
    reveal_with_fuel(after, 3);
    reveal_with_fuel(mutations_made, 3);
    crate::search::lemma_first_where_sound(databases, named(name));
    assert(mutations_made(delete_steps(), DeleteFlowView::start(name, yes), replies) =~= Seq::<
        RequestView,
    >::empty());
}

/// A deletion that has to be confirmed deletes nothing unless the user
/// types the name of the database.
pub proof fn lemma_delete_unconfirmed(
    name: Seq<char>,
    databases: Seq<DatabaseView>,
    replies: Seq<ReplyView>,
)
    requires
        replies.len() > 1,
        replies[0] == ReplyView::Databases(databases),
        replies[1] != ReplyView::Entered(Some(name)),
    ensures
        mutations_made(delete_steps(), DeleteFlowView::start(name, false), replies) == Seq::<
            RequestView,
        >::empty(),
{
    reveal_with_fuel(mutations_made, 5);
    assert(mutations_made(delete_steps(), DeleteFlowView::start(name, false), replies) =~= Seq::<
        RequestView,
    >::empty());
}

} // verus!
