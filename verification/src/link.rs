//! Linking one database to an application under a label, and unlinking it.

use crate::error::{CommandError, CommandErrorView, Missing, MissingView};
use crate::model::{AppId, Database, DatabaseView, Link, LinkView, ResourceLabel, ResourceLabelView};
use crate::protocol::{
    after, mutations_made, Progress, ProgressView, Reply, ReplyView, Request, RequestView,
};
use crate::lookup::{find_database, find_linked, has_database, linked};
use crate::search::{first_where, lemma_first_where_absent, lemma_first_where_found};
use crate::text::text_eq;
use vstd::prelude::*;
use vstd::string::*;

verus! {

/// The links that bind `label` for the application `app_id`.
pub open spec fn binds(app_id: AppId, label: Seq<char>) -> spec_fn(ResourceLabelView) -> bool {
    |link: ResourceLabelView| link.app_id == app_id && link.label == label
}

/// The first link of `db` that binds `label` for `app_id`, with the
/// database's name.
pub open spec fn app_link(db: DatabaseView, app_id: AppId, label: Seq<char>) -> Option<LinkView> {
    match first_where(db.links, binds(app_id, label)) {
        Some(i) => Some(LinkView { resource_label: db.links[i], resource: db.name }),
        None => None,
    }
}

/// The databases that bind `label` for `app_id` and that are called
/// `target` (with `on_target`) or are not (without).
pub open spec fn binding(app_id: AppId, label: Seq<char>, target: Seq<char>, on_target: bool)
    -> spec_fn(DatabaseView) -> bool {
    |db: DatabaseView| (db.name == target) == on_target && app_link(db, app_id, label) is Some
}

/// The link that binds `label` for `app_id` already: on the database called
/// `target`, or on the first other database that has one.
pub open spec fn existing_link(
    databases: Seq<DatabaseView>,
    app_id: AppId,
    label: Seq<char>,
    target: Seq<char>,
    on_target: bool,
) -> Option<LinkView> {
    match first_where(databases, binding(app_id, label, target, on_target)) {
        Some(i) => app_link(databases[i], app_id, label),
        None => None,
    }
}

/// The first link of `db` that binds `label` for `app_id`.
pub fn find_app_link(db: &Database, app_id: AppId, label: &str) -> (found: Option<Link>)
    ensures
        found.deep_view() == app_link(db@, app_id, label@),
{
    let mut i: usize = 0;
    while i < db.links.len()
        invariant
            i <= db.links.len(),
            forall|j: int| 0 <= j < i ==> !binds(app_id, label@)(#[trigger] db@.links[j]),
        decreases db.links.len() - i,
    {
        let link = &db.links[i];
        assert(db@.links[i as int] == link@);
        if link.app_id == app_id && text_eq(link.label.as_str(), label) {
            proof {
                lemma_first_where_found(db@.links, binds(app_id, label@), i as int);
            }
            return Some(Link::new(link.clone(), db.name.clone()));
        }
        i += 1;
    }
    proof {
        lemma_first_where_absent(db@.links, binds(app_id, label@));
    }
    None
}

/// The link that binds `label` for `app_id` already, on the database called
/// `target` or (without `on_target`) on the first other database.
pub fn find_existing_link(
    databases: &Vec<Database>,
    app_id: AppId,
    label: &str,
    target: &str,
    on_target: bool,
) -> (found: Option<Link>)
    ensures
        found.deep_view() == existing_link(
            databases.deep_view(),
            app_id,
            label@,
            target@,
            on_target,
        ),
{
    let ghost wanted = binding(app_id, label@, target@, on_target);
    let mut i: usize = 0;
    while i < databases.len()
        invariant
            i <= databases.len(),
            wanted == binding(app_id, label@, target@, on_target),
            forall|j: int| 0 <= j < i ==> !wanted(#[trigger] databases.deep_view()[j]),
        decreases databases.len() - i,
    {
        let db = &databases[i];
        assert(databases.deep_view()[i as int] == db@);
        if text_eq(db.name.as_str(), target) == on_target {
            let found = find_app_link(db, app_id, label);
            if found.is_some() {
                proof {
                    lemma_first_where_found(databases.deep_view(), wanted, i as int);
                }
                return found;
            }
        }
        i += 1;
    }
    proof {
        lemma_first_where_absent(databases.deep_view(), wanted);
    }
    None
}

/// Manage how apps and resources are linked together.
#[derive(Debug, PartialEq, Eq)]
pub enum LinkCommand {
    /// Link an app to a SQLite database.
    Sqlite(SqliteLinkCommand),
}

/// The request to bind `label` of the application `app` to `database`.
#[derive(Debug, PartialEq, Eq)]
pub struct SqliteLinkCommand {
    /// The name by which the application will refer to the database.
    pub label: String,
    /// The app that will be using the database.
    pub app: String,
    /// The database that the app will refer to by the label.
    pub database: String,
}

/// The mathematical value of a [`SqliteLinkCommand`].
pub ghost struct SqliteLinkCommandView {
    pub label: Seq<char>,
    pub app: Seq<char>,
    pub database: Seq<char>,
}

impl View for SqliteLinkCommand {
    type V = SqliteLinkCommandView;

    open spec fn view(&self) -> SqliteLinkCommandView {
        SqliteLinkCommandView { label: self.label@, app: self.app@, database: self.database@ }
    }
}

/// What stands in the way of a new link.
#[derive(Debug, PartialEq, Eq)]
pub enum LinkCheck {
    /// Nothing: the application has no link under the label.
    Free,
    /// The label is bound to another database, by the link given.
    Conflict(Link),
}

/// The mathematical value of a [`LinkCheck`].
pub ghost enum LinkCheckView {
    Free,
    Conflict(LinkView),
}

impl View for LinkCheck {
    type V = LinkCheckView;

    open spec fn view(&self) -> LinkCheckView {
        match self {
            LinkCheck::Free => LinkCheckView::Free,
            LinkCheck::Conflict(link) => LinkCheckView::Conflict(link@),
        }
    }
}

impl SqliteLinkCommandView {
    /// The link that the command asks for.
    pub open spec fn resource_label(self, app_id: AppId) -> ResourceLabelView {
        ResourceLabelView { app_id, label: self.label, app_name: None }
    }

    /// What the catalog's state means for the command: the database must
    /// exist, the label must not be bound to it already, and a binding to
    /// another database is a conflict.
    pub open spec fn check(self, databases: Seq<DatabaseView>, app_id: AppId) -> Result<
        LinkCheckView,
        CommandErrorView,
    > {
        if !has_database(databases, self.database) {
            Err(CommandErrorView::NotFound(MissingView::Database { name: self.database }))
        } else {
            match existing_link(databases, app_id, self.label, self.database, true) {
                Some(link) => Err(
                    CommandErrorView::AlreadyLinked {
                        database: link.resource,
                        app: link.app_name(),
                        label: link.resource_label.label,
                    },
                ),
                None => match existing_link(databases, app_id, self.label, self.database, false) {
                    Some(link) => Ok(LinkCheckView::Conflict(link)),
                    None => Ok(LinkCheckView::Free),
                },
            }
        }
    }

    /// The question put to the user before a link is moved.
    pub open spec fn relink_prompt(self, current: LinkView) -> Seq<char> {
        "App \""@ + current.app_name() + "\"'s \""@ + current.resource_label.label
            + "\" label is currently linked to \""@ + current.resource
            + "\". Change to link to database \""@ + self.database + "\" instead?"@
    }

    /// The line that reports the new link.
    pub open spec fn success_message(self) -> Seq<char> {
        "Database \""@ + self.database + "\" is now linked to app \""@ + self.app
            + "\" with the label \""@ + self.label + "\""@
    }
}

/// The line shown when the user keeps the link as it is.
pub const NOT_UPDATED: &'static str = "The link has not been updated";

/// What was being done when the listing for a link or an unlink failed.
pub const FETCH_CONTEXT: &'static str = "could not fetch databases";

impl SqliteLinkCommand {
    /// The link that the command asks for.
    pub fn resource_label(&self, app_id: AppId) -> (link: ResourceLabel)
        ensures
            link@ == self@.resource_label(app_id),
    {
        ResourceLabel { app_id, label: self.label.clone(), app_name: None }
    }

    /// Holds the command against the databases of the account.
    ///
    /// Fails with `NotFound` where no database has the name asked for, and
    /// with `AlreadyLinked` where that database already has the
    /// application's link under the label. Otherwise reports the link that
    /// another database has for the application under the label, if any.
    pub fn check(&self, databases: &Vec<Database>, app_id: AppId) -> (outcome: Result<
        LinkCheck,
        CommandError,
    >)
        ensures
            match outcome {
                Ok(check) => self@.check(databases.deep_view(), app_id) == Ok::<
                    LinkCheckView,
                    CommandErrorView,
                >(check@),
                Err(error) => self@.check(databases.deep_view(), app_id) == Err::<
                    LinkCheckView,
                    CommandErrorView,
                >(error@),
            },
    {
        if find_database(databases, self.database.as_str()).is_none() {
            return Err(CommandError::NotFound(Missing::Database { name: self.database.clone() }));
        }
        let here = find_existing_link(
            databases,
            app_id,
            self.label.as_str(),
            self.database.as_str(),
            true,
        );
        if let Some(link) = here {
            let app = String::from_str(link.app_name());
            return Err(
                CommandError::AlreadyLinked {
                    database: link.resource,
                    app,
                    label: link.resource_label.label,
                },
            );
        }
        let elsewhere = find_existing_link(
            databases,
            app_id,
            self.label.as_str(),
            self.database.as_str(),
            false,
        );
        match elsewhere {
            Some(link) => Ok(LinkCheck::Conflict(link)),
            None => Ok(LinkCheck::Free),
        }
    }

    /// The question put to the user before a link is moved.
    pub fn relink_prompt(&self, current: &Link) -> (prompt: String)
        ensures
            prompt@ == self@.relink_prompt(current@),
    {
        let mut prompt = String::from_str("App \"");
        prompt.append(current.app_name());
        prompt.append("\"'s \"");
        prompt.append(current.resource_label.label.as_str());
        prompt.append("\" label is currently linked to \"");
        prompt.append(current.resource.as_str());
        prompt.append("\". Change to link to database \"");
        prompt.append(self.database.as_str());
        prompt.append("\" instead?");
        prompt
    }

    /// The line that reports the new link.
    pub fn success_message(&self) -> (line: String)
        ensures
            line@ == self@.success_message(),
    {
        let mut line = String::from_str("Database \"");
        line.append(self.database.as_str());
        line.append("\" is now linked to app \"");
        line.append(self.app.as_str());
        line.append("\" with the label \"");
        line.append(self.label.as_str());
        line.append("\"");
        line
    }
}

/// A link command under way.
#[derive(Debug, PartialEq, Eq)]
pub enum LinkFlow {
    /// Waiting for the databases of the account.
    Listing { command: SqliteLinkCommand, app_id: AppId },
    /// Waiting for the user to allow moving the link `current`.
    Confirming { command: SqliteLinkCommand, app_id: AppId, current: Link },
    /// Waiting for the old link to be removed.
    Removing { command: SqliteLinkCommand, app_id: AppId },
    /// Waiting for the new link to be created.
    Creating { command: SqliteLinkCommand },
    /// Waiting for the closing line to be shown.
    Reporting,
}

/// The mathematical value of a [`LinkFlow`].
pub ghost enum LinkFlowView {
    Listing { command: SqliteLinkCommandView, app_id: AppId },
    Confirming { command: SqliteLinkCommandView, app_id: AppId, current: LinkView },
    Removing { command: SqliteLinkCommandView, app_id: AppId },
    Creating { command: SqliteLinkCommandView },
    Reporting,
}

impl View for LinkFlow {
    type V = LinkFlowView;

    open spec fn view(&self) -> LinkFlowView {
        match self {
            LinkFlow::Listing { command, app_id } => LinkFlowView::Listing {
                command: command@,
                app_id: *app_id,
            },
            LinkFlow::Confirming { command, app_id, current } => LinkFlowView::Confirming {
                command: command@,
                app_id: *app_id,
                current: current@,
            },
            LinkFlow::Removing { command, app_id } => LinkFlowView::Removing {
                command: command@,
                app_id: *app_id,
            },
            LinkFlow::Creating { command } => LinkFlowView::Creating { command: command@ },
            LinkFlow::Reporting => LinkFlowView::Reporting,
        }
    }
}

impl DeepView for LinkFlow {
    type V = LinkFlowView;

    open spec fn deep_view(&self) -> LinkFlowView {
        self@
    }
}

impl SqliteLinkCommandView {
    /// The first step of the command: list the databases of the account.
    pub open spec fn link(self, app_id: AppId) -> ProgressView<LinkFlowView, ()> {
        ProgressView::Continue(
            LinkFlowView::Listing { command: self, app_id },
            RequestView::ListDatabases { app_id: None },
        )
    }

    /// The step that creates the link asked for.
    pub open spec fn create(self, app_id: AppId) -> ProgressView<LinkFlowView, ()> {
        ProgressView::Continue(
            LinkFlowView::Creating { command: self },
            RequestView::CreateLink { database: self.database, link: self.resource_label(app_id) },
        )
    }
}

impl LinkFlowView {
    /// The step that the workflow takes on `reply`.
    ///
    /// With the databases listed, a command that fails its check ends
    /// there; a free label is linked at once; a conflict is put to the
    /// user. Only a plain yes removes the old link, and the new link is
    /// created once the old one is gone. The removal and the creation are
    /// two requests: a failure of the second leaves the label unbound.
    pub open spec fn resume(self, reply: ReplyView) -> ProgressView<LinkFlowView, ()> {
        match (self, reply) {
            (LinkFlowView::Listing { command, app_id }, ReplyView::Databases(databases)) => {
                match command.check(databases, app_id) {
                    Err(error) => ProgressView::Done(Err(error)),
                    Ok(LinkCheckView::Free) => command.create(app_id),
                    Ok(LinkCheckView::Conflict(current)) => ProgressView::Continue(
                        LinkFlowView::Confirming { command, app_id, current },
                        RequestView::Confirm { prompt: command.relink_prompt(current) },
                    ),
                }
            },
            (LinkFlowView::Listing { .. }, _) => ProgressView::Done(
                Err(reply.rejection(Some(FETCH_CONTEXT@))),
            ),
            (
                LinkFlowView::Confirming { command, app_id, current },
                ReplyView::Confirmed(answer),
            ) => {
                if answer == Some(true) {
                    ProgressView::Continue(
                        LinkFlowView::Removing { command, app_id },
                        RequestView::RemoveLink {
                            database: current.resource,
                            link: current.resource_label,
                        },
                    )
                } else {
                    ProgressView::Continue(
                        LinkFlowView::Reporting,
                        RequestView::Say { line: NOT_UPDATED@ },
                    )
                }
            },
            (LinkFlowView::Removing { command, app_id }, ReplyView::Completed) => command.create(
                app_id,
            ),
            (LinkFlowView::Creating { command }, ReplyView::Completed) => ProgressView::Continue(
                LinkFlowView::Reporting,
                RequestView::Say { line: command.success_message() },
            ),
            (LinkFlowView::Reporting, ReplyView::Completed) => ProgressView::Done(Ok(())),
            _ => ProgressView::Done(Err(reply.rejection(None))),
        }
    }

    /// The most requests that the workflow may still make.
    pub open spec fn remaining(self) -> nat {
        match self {
            LinkFlowView::Listing { .. } => 4,
            LinkFlowView::Confirming { .. } => 3,
            LinkFlowView::Removing { .. } => 2,
            LinkFlowView::Creating { .. } => 1,
            LinkFlowView::Reporting => 0,
        }
    }
}

impl SqliteLinkCommand {
    /// Starts the command for the application `app_id`: the workflow asks
    /// for the databases of the account.
    pub fn link(self, app_id: AppId) -> (first: Progress<LinkFlow, ()>)
        ensures
            first.deep_view() == self@.link(app_id),
    {
        Progress::Continue(
            LinkFlow::Listing { command: self, app_id },
            Request::ListDatabases { app_id: None },
        )
    }

    fn create(self, app_id: AppId) -> (step: Progress<LinkFlow, ()>)
        ensures
            step.deep_view() == self@.create(app_id),
    {
        let database = self.database.clone();
        let link = self.resource_label(app_id);
        let request = Request::CreateLink { database, link };
        Progress::Continue(LinkFlow::Creating { command: self }, request)
    }
}

impl LinkCommand {
    /// Starts the command for the application `app_id`.
    pub fn run(self, app_id: AppId) -> (first: Progress<LinkFlow, ()>)
        ensures
            first.deep_view() == match self {
                LinkCommand::Sqlite(command) => command@.link(app_id),
            },
    {
        match self {
            LinkCommand::Sqlite(command) => command.link(app_id),
        }
    }
}

impl LinkFlow {
    /// Takes the workflow one step further with the reply to its request.
    pub fn resume(self, reply: Reply) -> (next: Progress<LinkFlow, ()>)
        ensures
            next.deep_view() == self@.resume(reply@),
    {
        match self {
            LinkFlow::Listing { command, app_id } => match reply {
                Reply::Databases(databases) => match command.check(&databases, app_id) {
                    Err(error) => Progress::Done(Err(error)),
                    Ok(LinkCheck::Free) => command.create(app_id),
                    Ok(LinkCheck::Conflict(current)) => {
                        let prompt = command.relink_prompt(&current);
                        Progress::Continue(
                            LinkFlow::Confirming { command, app_id, current },
                            Request::Confirm { prompt },
                        )
                    },
                },
                other => Progress::Done(Err(other.rejection(Some(FETCH_CONTEXT)))),
            },
            LinkFlow::Confirming { command, app_id, current } => match reply {
                Reply::Confirmed(Some(true)) => Progress::Continue(
                    LinkFlow::Removing { command, app_id },
                    Request::RemoveLink {
                        database: current.resource,
                        link: current.resource_label,
                    },
                ),
                Reply::Confirmed(_) => Progress::Continue(
                    LinkFlow::Reporting,
                    Request::Say { line: String::from_str(NOT_UPDATED) },
                ),
                other => Progress::Done(Err(other.rejection(None))),
            },
            LinkFlow::Removing { command, app_id } => match reply {
                Reply::Completed => command.create(app_id),
                other => Progress::Done(Err(other.rejection(None))),
            },
            LinkFlow::Creating { command } => match reply {
                Reply::Completed => Progress::Continue(
                    LinkFlow::Reporting,
                    Request::Say { line: command.success_message() },
                ),
                other => Progress::Done(Err(other.rejection(None))),
            },
            LinkFlow::Reporting => match reply {
                Reply::Completed => Progress::Done(Ok(())),
                other => Progress::Done(Err(other.rejection(None))),
            },
        }
    }
}

/// Manage unlinking apps and resources.
#[derive(Debug, PartialEq, Eq)]
pub enum UnlinkCommand {
    /// Unlink an app from a SQLite database.
    Sqlite(SqliteUnlinkCommand),
}

/// The request to remove the link that the application `app` has under
/// `label`.
#[derive(Debug, PartialEq, Eq)]
pub struct SqliteUnlinkCommand {
    /// The name by which the application refers to the database.
    pub label: String,
    /// The app that is using the database.
    pub app: String,
}

/// The mathematical value of a [`SqliteUnlinkCommand`].
pub ghost struct SqliteUnlinkCommandView {
    pub label: Seq<char>,
    pub app: Seq<char>,
}

impl View for SqliteUnlinkCommand {
    type V = SqliteUnlinkCommandView;

    open spec fn view(&self) -> SqliteUnlinkCommandView {
        SqliteUnlinkCommandView { label: self.label@, app: self.app@ }
    }
}

/// An unlink command under way.
#[derive(Debug, PartialEq, Eq)]
pub enum UnlinkFlow {
    /// Waiting for the databases linked to the application.
    Listing { command: SqliteUnlinkCommand },
    /// Waiting for the link on `database` to be removed.
    Removing { command: SqliteUnlinkCommand, database: String },
    /// Waiting for the closing line to be shown.
    Reporting,
}

/// The mathematical value of an [`UnlinkFlow`].
pub ghost enum UnlinkFlowView {
    Listing { command: SqliteUnlinkCommandView },
    Removing { command: SqliteUnlinkCommandView, database: Seq<char> },
    Reporting,
}

impl View for UnlinkFlow {
    type V = UnlinkFlowView;

    open spec fn view(&self) -> UnlinkFlowView {
        match self {
            UnlinkFlow::Listing { command } => UnlinkFlowView::Listing { command: command@ },
            UnlinkFlow::Removing { command, database } => UnlinkFlowView::Removing {
                command: command@,
                database: database@,
            },
            UnlinkFlow::Reporting => UnlinkFlowView::Reporting,
        }
    }
}

impl DeepView for UnlinkFlow {
    type V = UnlinkFlowView;

    open spec fn deep_view(&self) -> UnlinkFlowView {
        self@
    }
}

impl SqliteUnlinkCommandView {
    /// The first step of the command: list the databases linked to the
    /// application.
    pub open spec fn unlink(self, app_id: AppId) -> ProgressView<UnlinkFlowView, ()> {
        ProgressView::Continue(
            UnlinkFlowView::Listing { command: self },
            RequestView::ListDatabases { app_id: Some(app_id) },
        )
    }

    /// The line that reports the removal of the link on `database`.
    pub open spec fn success_message(self, database: Seq<char>) -> Seq<char> {
        "Database '"@ + database + "' no longer linked to app "@ + self.app
    }
}

impl UnlinkFlowView {
    /// The step that the workflow takes on `reply`.
    ///
    /// With the databases listed, the command ends with `NotFound` where
    /// the application has no link under the label, and else asks for the
    /// removal of the link found.
    pub open spec fn resume(self, reply: ReplyView) -> ProgressView<UnlinkFlowView, ()> {
        match (self, reply) {
            (UnlinkFlowView::Listing { command }, ReplyView::Databases(databases)) => {
                match linked(databases, command.label, Some(command.app)) {
                    Some(link) => ProgressView::Continue(
                        UnlinkFlowView::Removing { command, database: link.resource },
                        RequestView::RemoveLink {
                            database: link.resource,
                            link: link.resource_label,
                        },
                    ),
                    None => ProgressView::Done(
                        Err(
                            CommandErrorView::NotFound(
                                MissingView::Link { app: command.app, label: command.label },
                            ),
                        ),
                    ),
                }
            },
            (UnlinkFlowView::Listing { .. }, _) => ProgressView::Done(
                Err(reply.rejection(Some(FETCH_CONTEXT@))),
            ),
            (UnlinkFlowView::Removing { command, database }, ReplyView::Completed) => {
                ProgressView::Continue(
                    UnlinkFlowView::Reporting,
                    RequestView::Say { line: command.success_message(database) },
                )
            },
            (UnlinkFlowView::Reporting, ReplyView::Completed) => ProgressView::Done(Ok(())),
            _ => ProgressView::Done(Err(reply.rejection(None))),
        }
    }

    /// The most requests that the workflow may still make.
    pub open spec fn remaining(self) -> nat {
        match self {
            UnlinkFlowView::Listing { .. } => 2,
            UnlinkFlowView::Removing { .. } => 1,
            UnlinkFlowView::Reporting => 0,
        }
    }
}

impl SqliteUnlinkCommand {
    /// Starts the command for the application `app_id`: the workflow asks
    /// for the databases linked to it.
    pub fn unlink(self, app_id: AppId) -> (first: Progress<UnlinkFlow, ()>)
        ensures
            first.deep_view() == self@.unlink(app_id),
    {
        Progress::Continue(
            UnlinkFlow::Listing { command: self },
            Request::ListDatabases { app_id: Some(app_id) },
        )
    }

    /// The line that reports the removal of the link on `database`.
    pub fn success_message(&self, database: &str) -> (line: String)
        ensures
            line@ == self@.success_message(database@),
    {
        let mut line = String::from_str("Database '");
        line.append(database);
        line.append("' no longer linked to app ");
        line.append(self.app.as_str());
        line
    }
}

impl UnlinkCommand {
    /// Starts the command for the application `app_id`.
    pub fn run(self, app_id: AppId) -> (first: Progress<UnlinkFlow, ()>)
        ensures
            first.deep_view() == match self {
                UnlinkCommand::Sqlite(command) => command@.unlink(app_id),
            },
    {
        match self {
            UnlinkCommand::Sqlite(command) => command.unlink(app_id),
        }
    }
}

impl UnlinkFlow {
    /// Takes the workflow one step further with the reply to its request.
    pub fn resume(self, reply: Reply) -> (next: Progress<UnlinkFlow, ()>)
        ensures
            next.deep_view() == self@.resume(reply@),
    {
        match self {
            UnlinkFlow::Listing { command } => match reply {
                Reply::Databases(databases) => {
                    let found = find_linked(
                        &databases,
                        command.label.as_str(),
                        Some(command.app.as_str()),
                    );
                    match found {
                        Some((_, link)) => {
                            let database = link.resource.clone();
                            Progress::Continue(
                                UnlinkFlow::Removing { command, database },
                                Request::RemoveLink {
                                    database: link.resource,
                                    link: link.resource_label,
                                },
                            )
                        },
                        None => Progress::Done(
                            Err(
                                CommandError::NotFound(
                                    Missing::Link { app: command.app, label: command.label },
                                ),
                            ),
                        ),
                    }
                },
                other => Progress::Done(Err(other.rejection(Some(FETCH_CONTEXT)))),
            },
            UnlinkFlow::Removing { command, database } => match reply {
                Reply::Completed => Progress::Continue(
                    UnlinkFlow::Reporting,
                    Request::Say { line: command.success_message(database.as_str()) },
                ),
                other => Progress::Done(Err(other.rejection(None))),
            },
            UnlinkFlow::Reporting => match reply {
                Reply::Completed => Progress::Done(Ok(())),
                other => Progress::Done(Err(other.rejection(None))),
            },
        }
    }
}

/// The steps of a link command.
pub open spec fn link_steps() -> spec_fn(LinkFlowView, ReplyView) -> ProgressView<
    LinkFlowView,
    (),
> {
    |flow: LinkFlowView, reply: ReplyView| flow.resume(reply)
}

/// The steps of an unlink command.
pub open spec fn unlink_steps() -> spec_fn(UnlinkFlowView, ReplyView) -> ProgressView<
    UnlinkFlowView,
    (),
> {
    |flow: UnlinkFlowView, reply: ReplyView| flow.resume(reply)
}

/// A link to a database that does not exist fails with `NotFound`, which
/// names the database asked for, and changes nothing in the catalog,
/// whatever else is fed to it.
pub proof fn lemma_link_to_missing_database(
    command: SqliteLinkCommandView,
    app_id: AppId,
    databases: Seq<DatabaseView>,
    replies: Seq<ReplyView>,
)
    requires
        !has_database(databases, command.database),
        replies.len() > 0,
        replies[0] == ReplyView::Databases(databases),
    ensures
        after(link_steps(), command.link(app_id), replies) == ProgressView::<
            LinkFlowView,
            (),
        >::Done(Err(CommandErrorView::NotFound(MissingView::Database { name: command.database }))),
        mutations_made(link_steps(), command.link(app_id), replies) == Seq::<RequestView>::empty(),
{
    lemma_link_refused(command, app_id, databases, replies);
}

/// A link that the database asked for has already fails with
/// `AlreadyLinked`, which names that link, and changes nothing in the
/// catalog.
pub proof fn lemma_link_already_there(
    command: SqliteLinkCommandView,
    app_id: AppId,
    databases: Seq<DatabaseView>,
    replies: Seq<ReplyView>,
)
    requires
        has_database(databases, command.database),
        existing_link(databases, app_id, command.label, command.database, true) is Some,
        replies.len() > 0,
        replies[0] == ReplyView::Databases(databases),
    ensures
        ({
            let link = existing_link(
                databases,
                app_id,
                command.label,
                command.database,
                true,
            )->Some_0;
            after(link_steps(), command.link(app_id), replies) == ProgressView::<
                LinkFlowView,
                (),
            >::Done(
                Err(
                    CommandErrorView::AlreadyLinked {
                        database: link.resource,
                        app: link.app_name(),
                        label: link.resource_label.label,
                    },
                ),
            )
        }),
        mutations_made(link_steps(), command.link(app_id), replies) == Seq::<RequestView>::empty(),
{
    lemma_link_refused(command, app_id, databases, replies);
}

/// A link command that fails its check ends with that failure and changes
/// nothing in the catalog.
pub proof fn lemma_link_refused(
    command: SqliteLinkCommandView,
    app_id: AppId,
    databases: Seq<DatabaseView>,
    replies: Seq<ReplyView>,
)
    requires
        command.check(databases, app_id) is Err,
        replies.len() > 0,
        replies[0] == ReplyView::Databases(databases),
    ensures
        after(link_steps(), command.link(app_id), replies) == ProgressView::<
            LinkFlowView,
            (),
        >::Done(Err(command.check(databases, app_id)->Err_0)),
        mutations_made(link_steps(), command.link(app_id), replies) == Seq::<RequestView>::empty(),
{
    reveal_with_fuel(after, 3);
    reveal_with_fuel(mutations_made, 3);
    assert(mutations_made(link_steps(), command.link(app_id), replies) =~= Seq::<
        RequestView,
    >::empty());
}

/// A label that the application has no link under is linked by one
/// request, the creation of the link asked for.
pub proof fn lemma_link_free_label(
    command: SqliteLinkCommandView,
    app_id: AppId,
    databases: Seq<DatabaseView>,
    replies: Seq<ReplyView>,
)
    requires
        command.check(databases, app_id) == Ok::<LinkCheckView, CommandErrorView>(
            LinkCheckView::Free,
        ),
        replies.len() > 0,
        replies[0] == ReplyView::Databases(databases),
    ensures
        mutations_made(link_steps(), command.link(app_id), replies) == seq![
            RequestView::CreateLink {
                database: command.database,
                link: command.resource_label(app_id),
            },
        ],
{
    reveal_with_fuel(mutations_made, 5);
    assert(mutations_made(link_steps(), command.link(app_id), replies) =~= seq![
        RequestView::CreateLink {
            database: command.database,
            link: command.resource_label(app_id),
        },
    ]);
}

/// Where the label is bound to another database and the user does not
/// answer with a plain yes, nothing in the catalog changes, whatever else
/// is fed to the command.
pub proof fn lemma_relink_declined(
    command: SqliteLinkCommandView,
    app_id: AppId,
    databases: Seq<DatabaseView>,
    current: LinkView,
    replies: Seq<ReplyView>,
)
    requires
        command.check(databases, app_id) == Ok::<LinkCheckView, CommandErrorView>(
            LinkCheckView::Conflict(current),
        ),
        replies.len() > 1,
        replies[0] == ReplyView::Databases(databases),
        replies[1] != ReplyView::Confirmed(Some(true)),
    ensures
        mutations_made(link_steps(), command.link(app_id), replies) == Seq::<RequestView>::empty(),
        replies[1] is Confirmed ==> after(link_steps(), command.link(app_id), replies.take(2))
            == ProgressView::<LinkFlowView, ()>::Continue(
            LinkFlowView::Reporting,
            RequestView::Say { line: NOT_UPDATED@ },
        ),
{
    reveal_with_fuel(after, 4);
    reveal_with_fuel(mutations_made, 5);
    assert(replies.take(2)[0] == replies[0]);
    assert(replies.take(2)[1] == replies[1]);
    assert(replies.take(2).drop_first().drop_first().len() == 0);
    assert(mutations_made(link_steps(), command.link(app_id), replies) =~= Seq::<
        RequestView,
    >::empty());
}

/// Where the label is bound to another database and the user answers yes,
/// the old link is removed. Once that is done the new link is created, and
/// nothing else in the catalog changes.
pub proof fn lemma_relink_confirmed(
    command: SqliteLinkCommandView,
    app_id: AppId,
    databases: Seq<DatabaseView>,
    current: LinkView,
    replies: Seq<ReplyView>,
)
    requires
        command.check(databases, app_id) == Ok::<LinkCheckView, CommandErrorView>(
            LinkCheckView::Conflict(current),
        ),
        replies.len() > 1,
        replies[0] == ReplyView::Databases(databases),
        replies[1] == ReplyView::Confirmed(Some(true)),
    ensures
        ({
            let removal = RequestView::RemoveLink {
                database: current.resource,
                link: current.resource_label,
            };
            let creation = RequestView::CreateLink {
                database: command.database,
                link: command.resource_label(app_id),
            };
            let made = mutations_made(link_steps(), command.link(app_id), replies);
            if replies.len() > 2 && replies[2] == ReplyView::Completed {
                made == seq![removal, creation]
            } else {
                made == seq![removal]
            }
        }),
{
    reveal_with_fuel(mutations_made, 6);
    let removal = RequestView::RemoveLink {
        database: current.resource,
        link: current.resource_label,
    };
    let creation = RequestView::CreateLink {
        database: command.database,
        link: command.resource_label(app_id),
    };
    let made = mutations_made(link_steps(), command.link(app_id), replies);
    if replies.len() > 2 && replies[2] == ReplyView::Completed {
        assert(made =~= seq![removal, creation]);
    } else {
        assert(made =~= seq![removal]);
    }
}

/// Every step of a link command brings it nearer to its end.
pub proof fn lemma_link_steps_run_out(flow: LinkFlowView, reply: ReplyView)
    ensures
        flow.resume(reply) matches ProgressView::Continue(next, _) ==> next.remaining()
            < flow.remaining(),
{
}

/// An unlink for which no link is found fails with `NotFound`, which names
/// the application and the label, and changes nothing in the catalog.
pub proof fn lemma_unlink_without_link(
    command: SqliteUnlinkCommandView,
    app_id: AppId,
    databases: Seq<DatabaseView>,
    replies: Seq<ReplyView>,
)
    requires
        linked(databases, command.label, Some(command.app)) is None,
        replies.len() > 0,
        replies[0] == ReplyView::Databases(databases),
    ensures
        after(unlink_steps(), command.unlink(app_id), replies) == ProgressView::<
            UnlinkFlowView,
            (),
        >::Done(
            Err(
                CommandErrorView::NotFound(
                    MissingView::Link { app: command.app, label: command.label },
                ),
            ),
        ),
        mutations_made(unlink_steps(), command.unlink(app_id), replies) == Seq::<
            RequestView,
        >::empty(),
{
    reveal_with_fuel(after, 3);
    reveal_with_fuel(mutations_made, 3);
    assert(mutations_made(unlink_steps(), command.unlink(app_id), replies) =~= Seq::<
        RequestView,
    >::empty());
}

/// An unlink changes the catalog by one request at most: the removal of
/// the link that it found.
pub proof fn lemma_unlink_removes_one_link(
    command: SqliteUnlinkCommandView,
    app_id: AppId,
    databases: Seq<DatabaseView>,
    link: LinkView,
    replies: Seq<ReplyView>,
)
    requires
        linked(databases, command.label, Some(command.app)) == Some(link),
        replies.len() > 0,
        replies[0] == ReplyView::Databases(databases),
    ensures
        mutations_made(unlink_steps(), command.unlink(app_id), replies) == seq![
            RequestView::RemoveLink { database: link.resource, link: link.resource_label },
        ],
{
    reveal_with_fuel(mutations_made, 5);
    assert(mutations_made(unlink_steps(), command.unlink(app_id), replies) =~= seq![
        RequestView::RemoveLink { database: link.resource, link: link.resource_label },
    ]);
}

/// Every step of an unlink command brings it nearer to its end.
pub proof fn lemma_unlink_steps_run_out(flow: UnlinkFlowView, reply: ReplyView)
    ensures
        flow.resume(reply) matches ProgressView::Continue(next, _) ==> next.remaining()
            < flow.remaining(),
{
}

/// A request that fails ends a link command, and an unlink command, with
/// that failure: nothing is tried again, and nothing that was done is
/// undone.
pub proof fn lemma_failure_ends_the_command(
    link: LinkFlowView,
    unlink: UnlinkFlowView,
    cause: Seq<char>,
)
    ensures
        link.resume(ReplyView::Failed(cause)) matches ProgressView::Done(
            Err(CommandErrorView::Upstream { cause: reported, .. }),
        ) && reported == cause,
        unlink.resume(ReplyView::Failed(cause)) matches ProgressView::Done(
            Err(CommandErrorView::Upstream { cause: reported, .. }),
        ) && reported == cause,
{
}

} // verus!
