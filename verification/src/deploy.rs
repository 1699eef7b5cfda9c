//! Reconciling the labels that an application declares with the databases
//! of the account: for an application about to be created, for one that
//! exists, and the linking that follows the creation of a new one.
//!
//! Labels are taken one at a time, in increasing order, whatever order
//! they were given in. Nothing is undone: where a label is cancelled or a
//! request fails, what was done for the labels before it stays done.

use crate::error::CommandErrorView;
use crate::model::{AppId, Database, DatabaseView, ResourceLabel, ResourceLabelView};
use crate::order::{is_ordering_of, ordered_labels};
use crate::protocol::{
    after, mutations_made, Progress, ProgressView, Reply, ReplyView, Request, RequestView,
};
use crate::lookup::{find_linked, is_linked};
use crate::strategy::{
    DatabaseSelection, DatabaseSelectionView, InteractionStrategy, Prompting, PromptingView,
    Resolving, ResolvingView,
};
use vstd::prelude::*;
use vstd::string::*;

verus! {

/// Parts `items` into its first element and the rest.
fn split_first<T>(items: Vec<T>) -> (parts: Option<(T, Vec<T>)>)
    ensures
        match parts {
            Some((first, rest)) => items@.len() > 0 && first == items@[0] && rest@
                == items@.drop_first(),
            None => items@.len() == 0,
        },
{
    let mut rest = items;
    if rest.len() == 0 {
        None
    } else {
        let first = rest.remove(0);
        assert(rest@ =~= items@.drop_first());
        Some((first, rest))
    }
}

/// The databases to link and the labels to link them under, in the order
/// in which the labels were resolved.
pub type Pairs = Vec<(String, String)>;

/// The mathematical value of a [`Pairs`].
pub type PairsView = Seq<(Seq<char>, Seq<char>)>;

/// What a provisioning waits for.
#[derive(Debug, PartialEq, Eq)]
pub enum NewAppStage {
    /// The databases of the account.
    Listing,
    /// An answer that the resolution of the label needs.
    Resolving(Prompting),
    /// The creation of the database chosen for the label.
    Creating { database: String },
}

/// The mathematical value of a [`NewAppStage`].
pub ghost enum NewAppStageView {
    Listing,
    Resolving(PromptingView),
    Creating { database: Seq<char> },
}

impl View for NewAppStage {
    type V = NewAppStageView;

    open spec fn view(&self) -> NewAppStageView {
        match self {
            NewAppStage::Listing => NewAppStageView::Listing,
            NewAppStage::Resolving(prompting) => NewAppStageView::Resolving(prompting@),
            NewAppStage::Creating { database } => NewAppStageView::Creating { database: database@ },
        }
    }
}

/// The provisioning of databases for an application that does not exist
/// yet, under way: `label` is being resolved, the labels of `rest` follow,
/// and `linked` holds what the labels before it came to.
#[derive(Debug, PartialEq, Eq)]
pub struct NewAppFlow<S> {
    pub strategy: S,
    pub name: String,
    pub label: String,
    pub rest: Vec<String>,
    pub linked: Pairs,
    pub stage: NewAppStage,
}

/// The mathematical value of a [`NewAppFlow`].
pub ghost struct NewAppFlowView<S> {
    pub strategy: S,
    pub name: Seq<char>,
    pub label: Seq<char>,
    pub rest: Seq<Seq<char>>,
    pub linked: PairsView,
    pub stage: NewAppStageView,
}

impl<S> View for NewAppFlow<S> {
    type V = NewAppFlowView<S>;

    open spec fn view(&self) -> NewAppFlowView<S> {
        NewAppFlowView {
            strategy: self.strategy,
            name: self.name@,
            label: self.label@,
            rest: self.rest.deep_view(),
            linked: self.linked.deep_view(),
            stage: self.stage@,
        }
    }
}

impl<S> DeepView for NewAppFlow<S> {
    type V = NewAppFlowView<S>;

    open spec fn deep_view(&self) -> NewAppFlowView<S> {
        self@
    }
}

/// A step of a provisioning. It ends with the pairs to link once the
/// application exists, or with `None` where the user cancelled.
pub type NewAppProgress<S> = Progress<NewAppFlow<S>, Option<Pairs>>;

/// The mathematical value of a [`NewAppProgress`].
pub type NewAppProgressView<S> = ProgressView<NewAppFlowView<S>, Option<PairsView>>;

impl<S: InteractionStrategy> NewAppFlowView<S> {
    /// The step that takes up the first of `labels`, with `linked` settled
    /// before it: with no label left the pairs are the result, and else the
    /// databases are listed anew.
    pub open spec fn proceed(
        strategy: S,
        name: Seq<char>,
        labels: Seq<Seq<char>>,
        linked: PairsView,
    ) -> NewAppProgressView<S> {
        if labels.len() == 0 {
            ProgressView::Done(Ok(Some(linked)))
        } else {
            ProgressView::Continue(
                NewAppFlowView {
                    strategy,
                    name,
                    label: labels[0],
                    rest: labels.drop_first(),
                    linked,
                    stage: NewAppStageView::Listing,
                },
                RequestView::ListDatabases { app_id: None },
            )
        }
    }

    /// The step that settles the label on `database` and goes on to the
    /// next.
    pub open spec fn record(self, database: Seq<char>) -> NewAppProgressView<S> {
        Self::proceed(
            self.strategy,
            self.name,
            self.rest,
            self.linked.push((database, self.label)),
        )
    }

    /// What a step of the label's resolution means for the provisioning.
    ///
    /// An existing database is settled at once. A new one is created
    /// first, unlinked, for the application does not exist yet. A
    /// cancellation ends the provisioning with `None`, and a failure ends
    /// it with that failure.
    pub open spec fn resolved(self, step: ResolvingView) -> NewAppProgressView<S> {
        match step {
            ProgressView::Continue(prompting, request) => ProgressView::Continue(
                NewAppFlowView { stage: NewAppStageView::Resolving(prompting), ..self },
                request,
            ),
            ProgressView::Done(Err(error)) => ProgressView::Done(Err(error)),
            ProgressView::Done(Ok(DatabaseSelectionView::Existing(database))) => self.record(
                database,
            ),
            ProgressView::Done(Ok(DatabaseSelectionView::New(database))) => ProgressView::Continue(
                NewAppFlowView { stage: NewAppStageView::Creating { database }, ..self },
                RequestView::CreateDatabase { name: database, link: None },
            ),
            ProgressView::Done(Ok(DatabaseSelectionView::Cancelled)) => ProgressView::Done(
                Ok(None),
            ),
        }
    }

    /// The step that the provisioning takes on `reply`.
    pub open spec fn resume(self, reply: ReplyView) -> NewAppProgressView<S> {
        match (self.stage, reply) {
            (NewAppStageView::Listing, ReplyView::Databases(databases)) => self.resolved(
                self.strategy.selection(self.name, self.label, databases),
            ),
            (NewAppStageView::Resolving(prompting), _) => self.resolved(prompting.resume(reply)),
            (NewAppStageView::Creating { database }, ReplyView::Completed) => self.record(
                database,
            ),
            _ => ProgressView::Done(Err(reply.rejection(None))),
        }
    }
}

impl<S: InteractionStrategy> NewAppFlow<S> {
    /// Takes up the first of `labels`, with `linked` settled before it.
    pub fn proceed(strategy: S, name: String, labels: Vec<String>, linked: Pairs) -> (step:
        NewAppProgress<S>)
        ensures
            step.deep_view() == NewAppFlowView::proceed(
                strategy,
                name@,
                labels.deep_view(),
                linked.deep_view(),
            ),
    {
        match split_first(labels) {
            None => Progress::Done(Ok(Some(linked))),
            Some((label, rest)) => {
                assert(rest.deep_view() =~= labels.deep_view().drop_first());
                Progress::Continue(
                    NewAppFlow { strategy, name, label, rest, linked, stage: NewAppStage::Listing },
                    Request::ListDatabases { app_id: None },
                )
            },
        }
    }

    fn at_stage(self, stage: NewAppStage) -> (flow: Self)
        ensures
            flow@ == (NewAppFlowView { stage: stage@, ..self@ }),
    {
        NewAppFlow {
            strategy: self.strategy,
            name: self.name,
            label: self.label,
            rest: self.rest,
            linked: self.linked,
            stage,
        }
    }

    fn record(self, database: String) -> (step: NewAppProgress<S>)
        ensures
            step.deep_view() == self@.record(database@),
    {
        let mut linked = self.linked;
        let ghost before = linked.deep_view();
        linked.push((database, self.label));
        assert(linked.deep_view() =~= before.push((database@, self.label@)));
        NewAppFlow::proceed(self.strategy, self.name, self.rest, linked)
    }

    fn resolved(self, step: Resolving) -> (next: NewAppProgress<S>)
        ensures
            next.deep_view() == self@.resolved(step.deep_view()),
    {
        match step {
            Progress::Continue(prompting, request) => Progress::Continue(
                self.at_stage(NewAppStage::Resolving(prompting)),
                request,
            ),
            Progress::Done(Err(error)) => Progress::Done(Err(error)),
            Progress::Done(Ok(DatabaseSelection::Existing(database))) => self.record(database),
            Progress::Done(Ok(DatabaseSelection::New(database))) => {
                let request = Request::CreateDatabase { name: database.clone(), link: None };
                Progress::Continue(self.at_stage(NewAppStage::Creating { database }), request)
            },
            Progress::Done(Ok(DatabaseSelection::Cancelled)) => Progress::Done(Ok(None)),
        }
    }

    /// Takes the provisioning one step further with the reply to its
    /// request.
    pub fn resume(self, reply: Reply) -> (next: NewAppProgress<S>)
        ensures
            next.deep_view() == self@.resume(reply@),
    {
        let NewAppFlow { strategy, name, label, rest, linked, stage } = self;
        let flow = NewAppFlow { strategy, name, label, rest, linked, stage: NewAppStage::Listing };
        match stage {
            NewAppStage::Listing => match reply {
                Reply::Databases(databases) => {
                    let step = get_database_selection_for_new_app(
                        flow.name.as_str(),
                        flow.label.as_str(),
                        databases,
                        &flow.strategy,
                    );
                    flow.resolved(step)
                },
                other => Progress::Done(Err(other.rejection(None))),
            },
            NewAppStage::Resolving(prompting) => flow.resolved(prompting.resume(reply)),
            NewAppStage::Creating { database } => match reply {
                Reply::Completed => flow.record(database),
                other => Progress::Done(Err(other.rejection(None))),
            },
        }
    }
}

/// Sets out to resolve `label` for an application that does not exist yet,
/// among the databases listed.
pub fn get_database_selection_for_new_app<S: InteractionStrategy>(
    name: &str,
    label: &str,
    databases: Vec<Database>,
    interact: &S,
) -> (first: Resolving)
    ensures
        first.deep_view() == interact.selection(name@, label@, databases.deep_view()),
{
    interact.prompt_database_selection(name, label, databases)
}

/// Provisions databases for the application `name`, which does not exist
/// yet, for each of `labels` once, one label after the other in increasing
/// order.
///
/// For each label the databases are listed and the label is resolved. The
/// workflow ends with the pairs of database and label to link once the
/// application exists, or with `None` where the user cancelled.
pub fn create_databases_for_new_app<S: InteractionStrategy>(
    name: &str,
    labels: Vec<String>,
    interact: S,
) -> (first: NewAppProgress<S>)
    ensures
        exists|ordered: Seq<Seq<char>>|
            #![trigger is_ordering_of(ordered, labels.deep_view())]
            is_ordering_of(ordered, labels.deep_view()) && first.deep_view()
                == NewAppFlowView::proceed(
                interact,
                name@,
                ordered,
                Seq::<(Seq<char>, Seq<char>)>::empty(),
            ),
{
    let linked: Pairs = Vec::new();
    assert(linked.deep_view() =~= Seq::<(Seq<char>, Seq<char>)>::empty());
    let ordered = ordered_labels(labels);
    assert(is_ordering_of(ordered.deep_view(), labels.deep_view()));
    NewAppFlow::proceed(interact, String::from_str(name), ordered, linked)
}

/// Whether a label of an existing application still needs a database.
#[derive(Debug, PartialEq, Eq)]
pub enum ExistingAppDatabaseSelection {
    /// The application has no link under the label; its resolution has
    /// set out.
    NotYetLinked(Resolving),
    /// The application has a link under the label already.
    AlreadyLinked,
}

/// Looks at the databases listed for the link `resource_label` of an
/// existing application, and sets out to resolve its label where no
/// database has that link yet.
///
/// The answer is `AlreadyLinked` exactly when some database has a link
/// under the label for the application's display name.
pub fn get_database_selection_for_existing_app<S: InteractionStrategy>(
    name: &str,
    databases: Vec<Database>,
    resource_label: &ResourceLabel,
    interact: &S,
) -> (selection: ExistingAppDatabaseSelection)
    ensures
        match selection {
            ExistingAppDatabaseSelection::AlreadyLinked => is_linked(
                databases.deep_view(),
                resource_label@.label,
                resource_label@.app_name,
            ),
            ExistingAppDatabaseSelection::NotYetLinked(first) => {
                &&& !is_linked(
                    databases.deep_view(),
                    resource_label@.label,
                    resource_label@.app_name,
                )
                &&& first.deep_view() == interact.selection(
                    name@,
                    resource_label@.label,
                    databases.deep_view(),
                )
            },
        },
{
    let app = match &resource_label.app_name {
        Some(app) => Some(app.as_str()),
        None => None,
    };
    if find_linked(&databases, resource_label.label.as_str(), app).is_some() {
        ExistingAppDatabaseSelection::AlreadyLinked
    } else {
        ExistingAppDatabaseSelection::NotYetLinked(
            interact.prompt_database_selection(name, resource_label.label.as_str(), databases),
        )
    }
}

/// What was being done when the linking of `database` to the existing
/// application `app` failed.
pub open spec fn link_failure(database: Seq<char>, app: Seq<char>) -> Seq<char> {
    "Could not link database \""@ + database + "\" to app \""@ + app + "\""@
}

/// What was being done when the linking of `database` to the new
/// application `app` failed.
pub open spec fn batch_failure(database: Seq<char>, app: Seq<char>) -> Seq<char> {
    "Failed to link database \""@ + database + "\" to app \""@ + app + "\""@
}

fn make_link_failure(database: &str, app: &str) -> (context: String)
    ensures
        context@ == link_failure(database@, app@),
{
    let mut context = String::from_str("Could not link database \"");
    context.append(database);
    context.append("\" to app \"");
    context.append(app);
    context.append("\"");
    context
}

fn make_batch_failure(database: &str, app: &str) -> (context: String)
    ensures
        context@ == batch_failure(database@, app@),
{
    let mut context = String::from_str("Failed to link database \"");
    context.append(database);
    context.append("\" to app \"");
    context.append(app);
    context.append("\"");
    context
}

/// What a reconciliation waits for.
#[derive(Debug, PartialEq, Eq)]
pub enum ExistingAppStage {
    /// The databases of the account.
    Listing,
    /// An answer that the resolution of the label needs.
    Resolving(Prompting),
    /// The creation or the linking of the database chosen for the label;
    /// `context` says what to report a failure under.
    Applying { context: Option<String> },
}

/// The mathematical value of an [`ExistingAppStage`].
pub ghost enum ExistingAppStageView {
    Listing,
    Resolving(PromptingView),
    Applying { context: Option<Seq<char>> },
}

impl View for ExistingAppStage {
    type V = ExistingAppStageView;

    open spec fn view(&self) -> ExistingAppStageView {
        match self {
            ExistingAppStage::Listing => ExistingAppStageView::Listing,
            ExistingAppStage::Resolving(prompting) => ExistingAppStageView::Resolving(prompting@),
            ExistingAppStage::Applying { context } => ExistingAppStageView::Applying {
                context: context.deep_view(),
            },
        }
    }
}

/// The reconciliation of the labels of an existing application, under way:
/// `label` is being seen to, and the labels of `rest` follow.
#[derive(Debug, PartialEq, Eq)]
pub struct ExistingAppFlow<S> {
    pub strategy: S,
    pub app_name: String,
    pub app_id: AppId,
    pub label: String,
    pub rest: Vec<String>,
    pub stage: ExistingAppStage,
}

/// The mathematical value of an [`ExistingAppFlow`].
pub ghost struct ExistingAppFlowView<S> {
    pub strategy: S,
    pub app_name: Seq<char>,
    pub app_id: AppId,
    pub label: Seq<char>,
    pub rest: Seq<Seq<char>>,
    pub stage: ExistingAppStageView,
}

impl<S> View for ExistingAppFlow<S> {
    type V = ExistingAppFlowView<S>;

    open spec fn view(&self) -> ExistingAppFlowView<S> {
        ExistingAppFlowView {
            strategy: self.strategy,
            app_name: self.app_name@,
            app_id: self.app_id,
            label: self.label@,
            rest: self.rest.deep_view(),
            stage: self.stage@,
        }
    }
}

impl<S> DeepView for ExistingAppFlow<S> {
    type V = ExistingAppFlowView<S>;

    open spec fn deep_view(&self) -> ExistingAppFlowView<S> {
        self@
    }
}

/// A step of a reconciliation. It ends with `Some` once every label is
/// seen to, or with `None` where the user cancelled.
pub type ExistingAppProgress<S> = Progress<ExistingAppFlow<S>, Option<()>>;

/// The mathematical value of an [`ExistingAppProgress`].
pub type ExistingAppProgressView<S> = ProgressView<ExistingAppFlowView<S>, Option<()>>;

impl<S: InteractionStrategy> ExistingAppFlowView<S> {
    /// The link of the application under the label that is being seen to.
    pub open spec fn resource_label(self) -> ResourceLabelView {
        ResourceLabelView {
            app_id: self.app_id,
            label: self.label,
            app_name: Some(self.app_name),
        }
    }

    /// The step that takes up the first of `labels`: with no label left
    /// the reconciliation is complete, and else the databases are listed
    /// anew.
    pub open spec fn proceed(
        strategy: S,
        app_name: Seq<char>,
        app_id: AppId,
        labels: Seq<Seq<char>>,
    ) -> ExistingAppProgressView<S> {
        if labels.len() == 0 {
            ProgressView::Done(Ok(Some(())))
        } else {
            ProgressView::Continue(
                ExistingAppFlowView {
                    strategy,
                    app_name,
                    app_id,
                    label: labels[0],
                    rest: labels.drop_first(),
                    stage: ExistingAppStageView::Listing,
                },
                RequestView::ListDatabases { app_id: None },
            )
        }
    }

    /// The step that leaves the label and goes on to the next.
    pub open spec fn advance(self) -> ExistingAppProgressView<S> {
        Self::proceed(self.strategy, self.app_name, self.app_id, self.rest)
    }

    /// What a step of the label's resolution means for the
    /// reconciliation.
    ///
    /// A new database is created with the link attached, in one request.
    /// An existing one is linked. A cancellation ends the reconciliation
    /// with `None`, and a failure ends it with that failure.
    pub open spec fn resolved(self, step: ResolvingView) -> ExistingAppProgressView<S> {
        match step {
            ProgressView::Continue(prompting, request) => ProgressView::Continue(
                ExistingAppFlowView { stage: ExistingAppStageView::Resolving(prompting), ..self },
                request,
            ),
            ProgressView::Done(Err(error)) => ProgressView::Done(Err(error)),
            ProgressView::Done(Ok(DatabaseSelectionView::New(database))) => ProgressView::Continue(
                ExistingAppFlowView {
                    stage: ExistingAppStageView::Applying { context: None },
                    ..self
                },
                RequestView::CreateDatabase { name: database, link: Some(self.resource_label()) },
            ),
            ProgressView::Done(Ok(DatabaseSelectionView::Existing(database))) => {
                ProgressView::Continue(
                    ExistingAppFlowView {
                        stage: ExistingAppStageView::Applying {
                            context: Some(link_failure(database, self.app_name)),
                        },
                        ..self
                    },
                    RequestView::CreateLink { database, link: self.resource_label() },
                )
            },
            ProgressView::Done(Ok(DatabaseSelectionView::Cancelled)) => ProgressView::Done(
                Ok(None),
            ),
        }
    }

    /// The step that the reconciliation takes on `reply`.
    ///
    /// With the databases listed, a label that the application has a link
    /// under already is left as it is; any other is resolved.
    pub open spec fn resume(self, reply: ReplyView) -> ExistingAppProgressView<S> {
        match (self.stage, reply) {
            (ExistingAppStageView::Listing, ReplyView::Databases(databases)) => {
                if is_linked(databases, self.label, Some(self.app_name)) {
                    self.advance()
                } else {
                    self.resolved(self.strategy.selection(self.app_name, self.label, databases))
                }
            },
            (ExistingAppStageView::Resolving(prompting), _) => self.resolved(
                prompting.resume(reply),
            ),
            (ExistingAppStageView::Applying { .. }, ReplyView::Completed) => self.advance(),
            (ExistingAppStageView::Applying { context }, _) => ProgressView::Done(
                Err(reply.rejection(context)),
            ),
            _ => ProgressView::Done(Err(reply.rejection(None))),
        }
    }
}

impl<S: InteractionStrategy> ExistingAppFlow<S> {
    /// The link of the application under the label that is being seen to.
    pub fn resource_label(&self) -> (link: ResourceLabel)
        ensures
            link@ == self@.resource_label(),
    {
        ResourceLabel {
            app_id: self.app_id,
            label: self.label.clone(),
            app_name: Some(self.app_name.clone()),
        }
    }

    /// Takes up the first of `labels`.
    pub fn proceed(strategy: S, app_name: String, app_id: AppId, labels: Vec<String>) -> (step:
        ExistingAppProgress<S>)
        ensures
            step.deep_view() == ExistingAppFlowView::proceed(
                strategy,
                app_name@,
                app_id,
                labels.deep_view(),
            ),
    {
        match split_first(labels) {
            None => Progress::Done(Ok(Some(()))),
            Some((label, rest)) => {
                assert(rest.deep_view() =~= labels.deep_view().drop_first());
                Progress::Continue(
                    ExistingAppFlow {
                        strategy,
                        app_name,
                        app_id,
                        label,
                        rest,
                        stage: ExistingAppStage::Listing,
                    },
                    Request::ListDatabases { app_id: None },
                )
            },
        }
    }

    fn advance(self) -> (step: ExistingAppProgress<S>)
        ensures
            step.deep_view() == self@.advance(),
    {
        ExistingAppFlow::proceed(self.strategy, self.app_name, self.app_id, self.rest)
    }

    fn at_stage(self, stage: ExistingAppStage) -> (flow: Self)
        ensures
            flow@ == (ExistingAppFlowView { stage: stage@, ..self@ }),
    {
        ExistingAppFlow {
            strategy: self.strategy,
            app_name: self.app_name,
            app_id: self.app_id,
            label: self.label,
            rest: self.rest,
            stage,
        }
    }

    fn resolved(self, step: Resolving) -> (next: ExistingAppProgress<S>)
        ensures
            next.deep_view() == self@.resolved(step.deep_view()),
    {
        match step {
            Progress::Continue(prompting, request) => Progress::Continue(
                self.at_stage(ExistingAppStage::Resolving(prompting)),
                request,
            ),
            Progress::Done(Err(error)) => Progress::Done(Err(error)),
            Progress::Done(Ok(DatabaseSelection::New(database))) => {
                let link = self.resource_label();
                Progress::Continue(
                    self.at_stage(ExistingAppStage::Applying { context: None }),
                    Request::CreateDatabase { name: database, link: Some(link) },
                )
            },
            Progress::Done(Ok(DatabaseSelection::Existing(database))) => {
                let link = self.resource_label();
                let context = make_link_failure(database.as_str(), self.app_name.as_str());
                Progress::Continue(
                    self.at_stage(ExistingAppStage::Applying { context: Some(context) }),
                    Request::CreateLink { database, link },
                )
            },
            Progress::Done(Ok(DatabaseSelection::Cancelled)) => Progress::Done(Ok(None)),
        }
    }

    /// Takes the reconciliation one step further with the reply to its
    /// request.
    pub fn resume(self, reply: Reply) -> (next: ExistingAppProgress<S>)
        ensures
            next.deep_view() == self@.resume(reply@),
    {
        let ExistingAppFlow { strategy, app_name, app_id, label, rest, stage } = self;
        let flow = ExistingAppFlow {
            strategy,
            app_name,
            app_id,
            label,
            rest,
            stage: ExistingAppStage::Listing,
        };
        match stage {
            ExistingAppStage::Listing => match reply {
                Reply::Databases(databases) => {
                    let resource_label = flow.resource_label();
                    let selection = get_database_selection_for_existing_app(
                        flow.app_name.as_str(),
                        databases,
                        &resource_label,
                        &flow.strategy,
                    );
                    match selection {
                        ExistingAppDatabaseSelection::AlreadyLinked => flow.advance(),
                        ExistingAppDatabaseSelection::NotYetLinked(step) => flow.resolved(step),
                    }
                },
                other => Progress::Done(Err(other.rejection(None))),
            },
            ExistingAppStage::Resolving(prompting) => flow.resolved(prompting.resume(reply)),
            ExistingAppStage::Applying { context } => match reply {
                Reply::Completed => flow.advance(),
                other => {
                    let context = match &context {
                        Some(text) => Some(text.as_str()),
                        None => None,
                    };
                    Progress::Done(Err(other.rejection(context)))
                },
            },
        }
    }
}

/// Reconciles the labels of the application `app_name`, which exists, for
/// each of `labels` once, one label after the other in increasing order.
///
/// For each label the databases are listed. A label that the application
/// has a link under already is left as it is; any other is resolved, and
/// the database chosen is created with the link or linked. The workflow
/// ends with `Some` once every label is seen to, or with `None` where the
/// user cancelled.
pub fn create_and_link_databases_for_existing_app<S: InteractionStrategy>(
    app_name: &str,
    app_id: AppId,
    labels: Vec<String>,
    interact: S,
) -> (first: ExistingAppProgress<S>)
    ensures
        exists|ordered: Seq<Seq<char>>|
            #![trigger is_ordering_of(ordered, labels.deep_view())]
            is_ordering_of(ordered, labels.deep_view()) && first.deep_view()
                == ExistingAppFlowView::proceed(interact, app_name@, app_id, ordered),
{
    let ordered = ordered_labels(labels);
    assert(is_ordering_of(ordered.deep_view(), labels.deep_view()));
    ExistingAppFlow::proceed(interact, String::from_str(app_name), app_id, ordered)
}

/// The linking of databases to an application that was just created, under
/// way: the link of `database` is being created, and the pairs of `rest`
/// follow.
#[derive(Debug, PartialEq, Eq)]
pub struct LinkDatabasesFlow {
    pub app_name: String,
    pub app_id: AppId,
    pub database: String,
    pub rest: Pairs,
}

/// The mathematical value of a [`LinkDatabasesFlow`].
pub ghost struct LinkDatabasesFlowView {
    pub app_name: Seq<char>,
    pub app_id: AppId,
    pub database: Seq<char>,
    pub rest: PairsView,
}

impl View for LinkDatabasesFlow {
    type V = LinkDatabasesFlowView;

    open spec fn view(&self) -> LinkDatabasesFlowView {
        LinkDatabasesFlowView {
            app_name: self.app_name@,
            app_id: self.app_id,
            database: self.database@,
            rest: self.rest.deep_view(),
        }
    }
}

impl DeepView for LinkDatabasesFlow {
    type V = LinkDatabasesFlowView;

    open spec fn deep_view(&self) -> LinkDatabasesFlowView {
        self@
    }
}

impl LinkDatabasesFlowView {
    /// The step that takes up the first of `pairs`: with no pair left the
    /// linking is complete, and else the pair's link is created.
    pub open spec fn proceed(app_name: Seq<char>, app_id: AppId, pairs: PairsView) -> ProgressView<
        LinkDatabasesFlowView,
        (),
    > {
        if pairs.len() == 0 {
            ProgressView::Done(Ok(()))
        } else {
            ProgressView::Continue(
                LinkDatabasesFlowView {
                    app_name,
                    app_id,
                    database: pairs[0].0,
                    rest: pairs.drop_first(),
                },
                RequestView::CreateLink {
                    database: pairs[0].0,
                    link: ResourceLabelView {
                        app_id,
                        label: pairs[0].1,
                        app_name: Some(app_name),
                    },
                },
            )
        }
    }

    /// The step that the linking takes on `reply`: the next pair once the
    /// link is created, and else the failure, reported under the database
    /// and the application. The links created before it stay.
    pub open spec fn resume(self, reply: ReplyView) -> ProgressView<LinkDatabasesFlowView, ()> {
        match reply {
            ReplyView::Completed => Self::proceed(self.app_name, self.app_id, self.rest),
            _ => ProgressView::Done(
                Err(reply.rejection(Some(batch_failure(self.database, self.app_name)))),
            ),
        }
    }
}

impl LinkDatabasesFlow {
    /// Takes up the first of `pairs`.
    pub fn proceed(app_name: String, app_id: AppId, pairs: Pairs) -> (step: Progress<
        LinkDatabasesFlow,
        (),
    >)
        ensures
            step.deep_view() == LinkDatabasesFlowView::proceed(
                app_name@,
                app_id,
                pairs.deep_view(),
            ),
    {
        match split_first(pairs) {
            None => Progress::Done(Ok(())),
            Some(((database, label), rest)) => {
                assert(rest.deep_view() =~= pairs.deep_view().drop_first());
                assert(pairs.deep_view()[0] == (database@, label@));
                let link = ResourceLabel { app_id, label, app_name: Some(app_name.clone()) };
                let target = database.clone();
                Progress::Continue(
                    LinkDatabasesFlow { app_name, app_id, database, rest },
                    Request::CreateLink { database: target, link },
                )
            },
        }
    }

    /// Takes the linking one step further with the reply to its request.
    pub fn resume(self, reply: Reply) -> (next: Progress<LinkDatabasesFlow, ()>)
        ensures
            next.deep_view() == self@.resume(reply@),
    {
        match reply {
            Reply::Completed => LinkDatabasesFlow::proceed(self.app_name, self.app_id, self.rest),
            other => {
                let context = make_batch_failure(self.database.as_str(), self.app_name.as_str());
                Progress::Done(Err(other.rejection(Some(context.as_str()))))
            },
        }
    }
}

/// Links the databases of `database_labels` to the application `app_name`,
/// each under its label, in the order given.
///
/// The workflow stops at the first link that fails and reports it under
/// the database and the application; the links created before it stay.
pub fn link_databases(app_name: &str, app_id: AppId, database_labels: Pairs) -> (first: Progress<
    LinkDatabasesFlow,
    (),
>)
    ensures
        first.deep_view() == LinkDatabasesFlowView::proceed(
            app_name@,
            app_id,
            database_labels.deep_view(),
        ),
{
    LinkDatabasesFlow::proceed(String::from_str(app_name), app_id, database_labels)
}

/// The labels of `pairs`, in their order.
pub open spec fn labels_of(pairs: PairsView) -> Seq<Seq<char>> {
    pairs.map_values(|pair: (Seq<char>, Seq<char>)| pair.1)
}

impl<S: InteractionStrategy> NewAppFlowView<S> {
    /// The provisioning is at work on `labels`: the labels settled, the one
    /// being resolved and those to come are `labels`, in that order.
    pub open spec fn covers(self, labels: Seq<Seq<char>>) -> bool {
        labels_of(self.linked) + seq![self.label] + self.rest == labels
    }

    /// How far the provisioning is from its end: the labels to come, the
    /// stage of the label at hand, and what the resolution may still ask.
    pub open spec fn measure(self) -> (nat, nat, nat) {
        match self.stage {
            NewAppStageView::Listing => (self.rest.len(), 2, 0),
            NewAppStageView::Resolving(prompting) => (self.rest.len(), 1, prompting.remaining()),
            NewAppStageView::Creating { .. } => (self.rest.len(), 0, 0),
        }
    }
}

/// `a` is nearer to the end than `b`.
pub open spec fn nearer(a: (nat, nat, nat), b: (nat, nat, nat)) -> bool {
    a.0 < b.0 || (a.0 == b.0 && (a.1 < b.1 || (a.1 == b.1 && a.2 < b.2)))
}

/// A provisioning takes up its labels in order and settles one pair for
/// each: where it ends with pairs, their labels are the labels it was
/// started on, in that order.
pub proof fn lemma_provisioning_starts_on_its_labels<S: InteractionStrategy>(
    strategy: S,
    name: Seq<char>,
    labels: Seq<Seq<char>>,
)
    ensures
        match NewAppFlowView::proceed(strategy, name, labels, Seq::empty()) {
            ProgressView::Continue(flow, _) => flow.covers(labels),
            ProgressView::Done(outcome) => labels.len() == 0 && outcome == Ok::<
                Option<PairsView>,
                CommandErrorView,
            >(Some(Seq::empty())),
        },
{
    if labels.len() > 0 {
        assert(labels_of(Seq::empty()) + seq![labels[0]] + labels.drop_first() =~= labels);
    }
}

/// See [`lemma_provisioning_starts_on_its_labels`]: each step keeps the
/// provisioning on its labels.
pub proof fn lemma_provisioning_keeps_its_labels<S: InteractionStrategy>(
    flow: NewAppFlowView<S>,
    reply: ReplyView,
    labels: Seq<Seq<char>>,
)
    requires
        flow.covers(labels),
    ensures
        match flow.resume(reply) {
            ProgressView::Continue(next, _) => next.covers(labels),
            ProgressView::Done(Ok(Some(pairs))) => labels_of(pairs) == labels,
            ProgressView::Done(_) => true,
        },
{
    let settled = |database: Seq<char>| flow.linked.push((database, flow.label));
    assert forall|database: Seq<char>| #[trigger]
        labels_of(settled(database)) == labels_of(flow.linked).push(flow.label) by {
        assert(labels_of(settled(database)) =~= labels_of(flow.linked).push(flow.label));
    }
    assert forall|database: Seq<char>|
        match #[trigger] flow.record(database) {
            ProgressView::Continue(next, _) => next.covers(labels),
            ProgressView::Done(Ok(Some(pairs))) => labels_of(pairs) == labels,
            ProgressView::Done(_) => true,
        } by {
        let pairs = settled(database);
        assert(labels_of(pairs) == labels_of(flow.linked).push(flow.label));
        if flow.rest.len() == 0 {
            assert(labels_of(pairs) =~= labels);
        } else {
            assert(labels_of(pairs) + seq![flow.rest[0]] + flow.rest.drop_first() =~= labels);
        }
    }
}

/// A label that resolves to a new database has the database created,
/// unlinked, and is settled on it once it is created.
pub proof fn lemma_provisioning_creates_new_database<S: InteractionStrategy>(
    flow: NewAppFlowView<S>,
    database: Seq<char>,
)
    ensures
        flow.resolved(
            ProgressView::Done(Ok(DatabaseSelectionView::New(database))),
        ) matches ProgressView::Continue(creating, request) && request == (RequestView::CreateDatabase { name: database, link: None })
            && creating.resume(ReplyView::Completed) == flow.record(database),
        flow.resolved(ProgressView::Done(Ok(DatabaseSelectionView::Existing(database))))
            == flow.record(database),
{
}

/// A cancelled label ends the provisioning at once, with `None`. What was
/// created for the labels before it is not touched: nothing more is asked.
pub proof fn lemma_cancelled_provisioning_stops<S: InteractionStrategy>(flow: NewAppFlowView<S>)
    ensures
        flow.resolved(ProgressView::Done(Ok(DatabaseSelectionView::Cancelled)))
            == ProgressView::<NewAppFlowView<S>, Option<PairsView>>::Done(Ok(None)),
{
}

/// Every step of a provisioning brings it nearer to its end.
pub proof fn lemma_provisioning_runs_out<S: InteractionStrategy>(
    flow: NewAppFlowView<S>,
    reply: ReplyView,
)
    ensures
        flow.resume(reply) matches ProgressView::Continue(next, _) ==> nearer(
            next.measure(),
            flow.measure(),
        ),
{
    if let NewAppStageView::Resolving(prompting) = flow.stage {
        crate::strategy::lemma_prompting_runs_out(prompting, reply);
    }
}

impl<S: InteractionStrategy> ExistingAppFlowView<S> {
    /// How far the reconciliation is from its end: the labels to come, the
    /// stage of the label at hand, and what the resolution may still ask.
    pub open spec fn measure(self) -> (nat, nat, nat) {
        match self.stage {
            ExistingAppStageView::Listing => (self.rest.len(), 2, 0),
            ExistingAppStageView::Resolving(prompting) => (
                self.rest.len(),
                1,
                prompting.remaining(),
            ),
            ExistingAppStageView::Applying { .. } => (self.rest.len(), 0, 0),
        }
    }
}

/// A label that the application has a link under already is left alone:
/// the reconciliation goes on to the next label and asks for nothing on
/// behalf of this one. Any other label is resolved.
pub proof fn lemma_linked_label_is_left_alone<S: InteractionStrategy>(
    flow: ExistingAppFlowView<S>,
    databases: Seq<DatabaseView>,
)
    requires
        flow.stage is Listing,
    ensures
        is_linked(databases, flow.label, Some(flow.app_name)) ==> flow.resume(
            ReplyView::Databases(databases),
        ) == flow.advance(),
        !is_linked(databases, flow.label, Some(flow.app_name)) ==> flow.resume(
            ReplyView::Databases(databases),
        ) == flow.resolved(flow.strategy.selection(flow.app_name, flow.label, databases)),
        flow.advance() matches ProgressView::Continue(_, request) ==> !request.is_mutation(),
{
}

/// A label of an existing application that resolves to a new database has
/// the database created with the link attached, in one request; one that
/// resolves to an existing database has the link created on it. Either way
/// the link is the application's under the label.
pub proof fn lemma_reconciliation_links_the_label<S: InteractionStrategy>(
    flow: ExistingAppFlowView<S>,
    database: Seq<char>,
)
    ensures
        flow.resolved(ProgressView::Done(Ok(DatabaseSelectionView::New(database)))).request()
            == Some(
            RequestView::CreateDatabase { name: database, link: Some(flow.resource_label()) },
        ),
        flow.resolved(ProgressView::Done(Ok(DatabaseSelectionView::Existing(database)))).request()
            == Some(RequestView::CreateLink { database, link: flow.resource_label() }),
        flow.resolved(ProgressView::Done(Ok(DatabaseSelectionView::Cancelled)))
            == ProgressView::<ExistingAppFlowView<S>, Option<()>>::Done(Ok(None)),
{
}

/// Every step of a reconciliation brings it nearer to its end.
pub proof fn lemma_reconciliation_runs_out<S: InteractionStrategy>(
    flow: ExistingAppFlowView<S>,
    reply: ReplyView,
)
    ensures
        flow.resume(reply) matches ProgressView::Continue(next, _) ==> nearer(
            next.measure(),
            flow.measure(),
        ),
{
    if let ExistingAppStageView::Resolving(prompting) = flow.stage {
        crate::strategy::lemma_prompting_runs_out(prompting, reply);
    }
}

/// The steps of the linking of a new application's databases.
pub open spec fn batch_steps() -> spec_fn(LinkDatabasesFlowView, ReplyView) -> ProgressView<
    LinkDatabasesFlowView,
    (),
> {
    |flow: LinkDatabasesFlowView, reply: ReplyView| flow.resume(reply)
}

/// The link that the batch creates for `pair`.
pub open spec fn batch_link(app_name: Seq<char>, app_id: AppId, pair: (Seq<char>, Seq<char>))
    -> RequestView {
    RequestView::CreateLink {
        database: pair.0,
        link: ResourceLabelView { app_id, label: pair.1, app_name: Some(app_name) },
    }
}

/// Where every link succeeds, the batch creates one link for each pair, in
/// the order of the pairs, and ends well.
pub proof fn lemma_batch_links_every_pair(
    app_name: Seq<char>,
    app_id: AppId,
    pairs: PairsView,
    replies: Seq<ReplyView>,
)
    requires
        replies.len() >= pairs.len(),
        forall|i: int| 0 <= i < pairs.len() ==> #[trigger] replies[i] == ReplyView::Completed,
    ensures
        mutations_made(
            batch_steps(),
            LinkDatabasesFlowView::proceed(app_name, app_id, pairs),
            replies,
        ) == pairs.map_values(|pair: (Seq<char>, Seq<char>)| batch_link(app_name, app_id, pair)),
        after(batch_steps(), LinkDatabasesFlowView::proceed(app_name, app_id, pairs), replies)
            == ProgressView::<LinkDatabasesFlowView, ()>::Done(Ok(())),
    decreases pairs.len(),
{
    let links = |pair: (Seq<char>, Seq<char>)| batch_link(app_name, app_id, pair);
    let start = LinkDatabasesFlowView::proceed(app_name, app_id, pairs);
    if pairs.len() == 0 {
        assert(mutations_made(batch_steps(), start, replies) =~= pairs.map_values(links));
    } else {
        let rest = pairs.drop_first();
        let later = replies.drop_first();
        assert forall|i: int| 0 <= i < rest.len() implies #[trigger] later[i]
            == ReplyView::Completed by {
            assert(replies[i + 1] == ReplyView::Completed);
        }
        assert(replies[0] == ReplyView::Completed);
        lemma_batch_links_every_pair(app_name, app_id, rest, later);
        assert(mutations_made(batch_steps(), start, replies) =~= seq![
            batch_link(app_name, app_id, pairs[0]),
        ] + rest.map_values(links));
        assert(seq![batch_link(app_name, app_id, pairs[0])] + rest.map_values(links)
            =~= pairs.map_values(links));
    }
}

/// The first link that fails ends the batch with that failure, reported
/// under the database and the application; no link is asked for after it.
pub proof fn lemma_batch_stops_at_failure(flow: LinkDatabasesFlowView, cause: Seq<char>)
    ensures
        flow.resume(ReplyView::Failed(cause)) == ProgressView::<
            LinkDatabasesFlowView,
            (),
        >::Done(
            Err(
                CommandErrorView::Upstream {
                    context: Some(batch_failure(flow.database, flow.app_name)),
                    cause,
                },
            ),
        ),
{
}

/// A request that fails ends a provisioning, and a reconciliation, with
/// that failure: nothing is tried again, and what was done for the labels
/// before stays done.
pub proof fn lemma_failure_ends_the_reconciling<S: InteractionStrategy>(
    provisioning: NewAppFlowView<S>,
    reconciliation: ExistingAppFlowView<S>,
    cause: Seq<char>,
)
    ensures
        provisioning.resume(ReplyView::Failed(cause)) matches ProgressView::Done(
            Err(CommandErrorView::Upstream { cause: reported, .. }),
        ) && reported == cause,
        reconciliation.resume(ReplyView::Failed(cause)) matches ProgressView::Done(
            Err(CommandErrorView::Upstream { cause: reported, .. }),
        ) && reported == cause,
{
}

} // verus!
