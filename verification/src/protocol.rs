//! What a workflow asks of its host, and what the host answers.
//!
//! A workflow never reaches the catalog or the terminal itself. It yields a
//! [`Request`]; the host carries it out and resumes the workflow with the
//! [`Reply`]. A workflow that is resumed with a reply of the wrong kind ends
//! with [`CommandError::UnexpectedReply`].

use crate::error::{CommandError, CommandErrorView};
use crate::model::{AppId, Database, DatabaseView, ResourceLabel, ResourceLabelView};
use vstd::prelude::*;
use vstd::string::*;

verus! {

/// A link as a listing in JSON shows it: the label, and the name shown for
/// the application.
#[derive(Debug, PartialEq, Eq)]
pub struct ResourceLabelJson {
    pub label: String,
    pub app: String,
}

/// The mathematical value of a [`ResourceLabelJson`].
pub ghost struct ResourceLabelJsonView {
    pub label: Seq<char>,
    pub app: Seq<char>,
}

impl View for ResourceLabelJson {
    type V = ResourceLabelJsonView;

    open spec fn view(&self) -> ResourceLabelJsonView {
        ResourceLabelJsonView { label: self.label@, app: self.app@ }
    }
}

impl DeepView for ResourceLabelJson {
    type V = ResourceLabelJsonView;

    open spec fn deep_view(&self) -> ResourceLabelJsonView {
        self@
    }
}

/// A database as a listing in JSON shows it: its name and its links.
#[derive(Debug, PartialEq, Eq)]
pub struct DatabasesListJson {
    pub database: String,
    pub links: Vec<ResourceLabelJson>,
}

/// The mathematical value of a [`DatabasesListJson`].
pub ghost struct DatabasesListJsonView {
    pub database: Seq<char>,
    pub links: Seq<ResourceLabelJsonView>,
}

impl View for DatabasesListJson {
    type V = DatabasesListJsonView;

    open spec fn view(&self) -> DatabasesListJsonView {
        DatabasesListJsonView { database: self.database@, links: self.links.deep_view() }
    }
}

impl DeepView for DatabasesListJson {
    type V = DatabasesListJsonView;

    open spec fn deep_view(&self) -> DatabasesListJsonView {
        self@
    }
}

/// One thing for the host to do.
#[derive(Debug, PartialEq, Eq)]
#[allow(inconsistent_fields)]
pub enum Request {
    /// List the databases: all of the account, or those linked to one
    /// application.
    ListDatabases { app_id: Option<AppId> },
    /// Create a database; with a link, create it linked, in one step.
    CreateDatabase { name: String, link: Option<ResourceLabel> },
    /// Link a database.
    CreateLink { database: String, link: ResourceLabel },
    /// Remove a link from a database.
    RemoveLink { database: String, link: ResourceLabel },
    /// Delete a database.
    DeleteDatabase { name: String },
    /// Rename a database.
    RenameDatabase { name: String, new_name: String },
    /// Run SQL against a database.
    ExecuteSql { database: String, statement: String },
    /// Read a file of SQL.
    ReadFile { path: String },
    /// Let the user pick one of `items`.
    Select { prompt: String, items: Vec<String>, default: usize },
    /// Let the user enter a line of text.
    Input { prompt: String, default: Option<String> },
    /// Let the user answer yes or no; no is the default.
    Confirm { prompt: String },
    /// Propose a name for a new database.
    ProposeName,
    /// Show a line to the user.
    Say { line: String },
    /// Show databases to the user as JSON.
    Json { databases: Vec<DatabasesListJson> },
}

/// The mathematical value of a [`Request`].
#[allow(inconsistent_fields)]
pub ghost enum RequestView {
    ListDatabases { app_id: Option<AppId> },
    CreateDatabase { name: Seq<char>, link: Option<ResourceLabelView> },
    CreateLink { database: Seq<char>, link: ResourceLabelView },
    RemoveLink { database: Seq<char>, link: ResourceLabelView },
    DeleteDatabase { name: Seq<char> },
    RenameDatabase { name: Seq<char>, new_name: Seq<char> },
    ExecuteSql { database: Seq<char>, statement: Seq<char> },
    ReadFile { path: Seq<char> },
    Select { prompt: Seq<char>, items: Seq<Seq<char>>, default: usize },
    Input { prompt: Seq<char>, default: Option<Seq<char>> },
    Confirm { prompt: Seq<char> },
    ProposeName,
    Say { line: Seq<char> },
    Json { databases: Seq<DatabasesListJsonView> },
}

impl View for Request {
    type V = RequestView;

    open spec fn view(&self) -> RequestView {
        match self {
            Request::ListDatabases { app_id } => RequestView::ListDatabases { app_id: *app_id },
            Request::CreateDatabase { name, link } => RequestView::CreateDatabase {
                name: name@,
                link: link.deep_view(),
            },
            Request::CreateLink { database, link } => RequestView::CreateLink {
                database: database@,
                link: link@,
            },
            Request::RemoveLink { database, link } => RequestView::RemoveLink {
                database: database@,
                link: link@,
            },
            Request::DeleteDatabase { name } => RequestView::DeleteDatabase { name: name@ },
            Request::RenameDatabase { name, new_name } => RequestView::RenameDatabase {
                name: name@,
                new_name: new_name@,
            },
            Request::ExecuteSql { database, statement } => RequestView::ExecuteSql {
                database: database@,
                statement: statement@,
            },
            Request::ReadFile { path } => RequestView::ReadFile { path: path@ },
            Request::Select { prompt, items, default } => RequestView::Select {
                prompt: prompt@,
                items: items.deep_view(),
                default: *default,
            },
            Request::Input { prompt, default } => RequestView::Input {
                prompt: prompt@,
                default: default.deep_view(),
            },
            Request::Confirm { prompt } => RequestView::Confirm { prompt: prompt@ },
            Request::ProposeName => RequestView::ProposeName,
            Request::Say { line } => RequestView::Say { line: line@ },
            Request::Json { databases } => RequestView::Json { databases: databases.deep_view() },
        }
    }
}

impl DeepView for Request {
    type V = RequestView;

    open spec fn deep_view(&self) -> RequestView {
        self@
    }
}

impl RequestView {
    /// The request changes the catalog.
    pub open spec fn is_mutation(self) -> bool {
        self is CreateDatabase || self is CreateLink || self is RemoveLink
            || self is DeleteDatabase || self is RenameDatabase || self is ExecuteSql
    }
}

impl Request {
    /// Whether the request changes the catalog.
    pub fn is_mutation(&self) -> (mutates: bool)
        ensures
            mutates == self@.is_mutation(),
    {
        match self {
            Request::CreateDatabase { .. } => true,
            Request::CreateLink { .. } => true,
            Request::RemoveLink { .. } => true,
            Request::DeleteDatabase { .. } => true,
            Request::RenameDatabase { .. } => true,
            Request::ExecuteSql { .. } => true,
            _ => false,
        }
    }
}

/// What came of a request.
#[derive(Debug, PartialEq, Eq)]
pub enum Reply {
    /// The databases listed.
    Databases(Vec<Database>),
    /// The request was carried out and has nothing to report.
    Completed,
    /// The request failed; the text says how.
    Failed(String),
    /// The index picked in a selection, or `None` where the user cancelled.
    Selected(Option<usize>),
    /// The line entered, or `None` where the user cancelled.
    Entered(Option<String>),
    /// The answer to a yes-or-no question, or `None` where the user cancelled.
    Confirmed(Option<bool>),
    /// A proposed name.
    Name(String),
    /// The contents of a file.
    Contents(String),
}

/// The mathematical value of a [`Reply`].
pub ghost enum ReplyView {
    Databases(Seq<DatabaseView>),
    Completed,
    Failed(Seq<char>),
    Selected(Option<usize>),
    Entered(Option<Seq<char>>),
    Confirmed(Option<bool>),
    Name(Seq<char>),
    Contents(Seq<char>),
}

impl View for Reply {
    type V = ReplyView;

    open spec fn view(&self) -> ReplyView {
        match self {
            Reply::Databases(databases) => ReplyView::Databases(databases.deep_view()),
            Reply::Completed => ReplyView::Completed,
            Reply::Failed(cause) => ReplyView::Failed(cause@),
            Reply::Selected(index) => ReplyView::Selected(*index),
            Reply::Entered(line) => ReplyView::Entered(line.deep_view()),
            Reply::Confirmed(answer) => ReplyView::Confirmed(*answer),
            Reply::Name(name) => ReplyView::Name(name@),
            Reply::Contents(text) => ReplyView::Contents(text@),
        }
    }
}

impl DeepView for Reply {
    type V = ReplyView;

    open spec fn deep_view(&self) -> ReplyView {
        self@
    }
}

/// Where a workflow stands after a step: it waits for the reply to a
/// request, or it has ended.
#[derive(Debug, PartialEq, Eq)]
pub enum Progress<M, T> {
    /// The workflow goes on as `M` once the request is answered.
    Continue(M, Request),
    /// The workflow has ended.
    Done(Result<T, CommandError>),
}

/// The mathematical value of a [`Progress`].
pub ghost enum ProgressView<M, T> {
    Continue(M, RequestView),
    Done(Result<T, CommandErrorView>),
}

impl<M: DeepView, T: DeepView> DeepView for Progress<M, T> {
    type V = ProgressView<M::V, T::V>;

    open spec fn deep_view(&self) -> ProgressView<M::V, T::V> {
        match self {
            Progress::Continue(machine, request) => ProgressView::Continue(
                machine.deep_view(),
                request@,
            ),
            Progress::Done(Ok(value)) => ProgressView::Done(Ok(value.deep_view())),
            Progress::Done(Err(error)) => ProgressView::Done(Err(error@)),
        }
    }
}

impl<M, T> ProgressView<M, T> {
    /// The request that the workflow waits on, if it has not ended.
    pub open spec fn request(self) -> Option<RequestView> {
        match self {
            ProgressView::Continue(_, request) => Some(request),
            ProgressView::Done(_) => None,
        }
    }
}

impl ReplyView {
    /// The failure that a reply stands for where the workflow cannot go on
    /// with it: an upstream failure for a failed request, reported under
    /// `context`, and an unexpected reply for any other.
    pub open spec fn rejection(self, context: Option<Seq<char>>) -> CommandErrorView {
        match self {
            ReplyView::Failed(cause) => CommandErrorView::Upstream { context, cause },
            _ => CommandErrorView::UnexpectedReply,
        }
    }
}

impl Reply {
    /// The failure that the reply stands for where the workflow cannot go on
    /// with it.
    pub fn rejection(self, context: Option<&str>) -> (error: CommandError)
        ensures
            error@ == self@.rejection(context.deep_view()),
    {
        match self {
            Reply::Failed(cause) => {
                let context = match context {
                    Some(text) => Some(String::from_str(text)),
                    None => None,
                };
                CommandError::Upstream { context, cause }
            },
            _ => CommandError::UnexpectedReply,
        }
    }
}

/// Where a workflow that stands at `step` and takes its steps by `resume`
/// stands once `replies` are fed to it, one for each request it makes, for
/// as long as it goes on.
pub open spec fn after<M, T>(
    resume: spec_fn(M, ReplyView) -> ProgressView<M, T>,
    step: ProgressView<M, T>,
    replies: Seq<ReplyView>,
) -> ProgressView<M, T>
    decreases replies.len(),
{
    match step {
        ProgressView::Continue(machine, _) if replies.len() > 0 => after(
            resume,
            resume(machine, replies[0]),
            replies.drop_first(),
        ),
        _ => step,
    }
}

/// The requests that change the catalog among those that the workflow
/// makes while `replies` are fed to it, in the order in which it makes
/// them. The request that the workflow ends up waiting on counts.
pub open spec fn mutations_made<M, T>(
    resume: spec_fn(M, ReplyView) -> ProgressView<M, T>,
    step: ProgressView<M, T>,
    replies: Seq<ReplyView>,
) -> Seq<RequestView>
    decreases replies.len(),
{
    match step {
        ProgressView::Done(_) => Seq::empty(),
        ProgressView::Continue(machine, request) => {
            let made = if request.is_mutation() {
                seq![request]
            } else {
                Seq::empty()
            };
            if replies.len() == 0 {
                made
            } else {
                made + mutations_made(resume, resume(machine, replies[0]), replies.drop_first())
            }
        },
    }
}

/// A workflow that has ended makes no request.
pub proof fn lemma_done_makes_no_mutation<M, T>(
    resume: spec_fn(M, ReplyView) -> ProgressView<M, T>,
    step: ProgressView<M, T>,
    replies: Seq<ReplyView>,
)
    requires
        step is Done,
    ensures
        mutations_made(resume, step, replies) == Seq::<RequestView>::empty(),
        after(resume, step, replies) == step,
{
}

} // verus!
