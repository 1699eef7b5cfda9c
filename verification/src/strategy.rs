//! How a label is resolved to a database: by asking the user, or from
//! declarations made in advance.

use crate::error::{CommandError, CommandErrorView};
use crate::model::{Database, DatabaseView};
use crate::names::{NameSearch, NameSearchView, NAME_GENERATION_MAX_ATTEMPTS};
use crate::protocol::{Progress, ProgressView, Reply, ReplyView, Request, RequestView};
use crate::lookup::{find_database, has_database};
use crate::text::text_eq;
use vstd::prelude::*;
use vstd::string::*;

verus! {

/// A user's selection of a database to link to a label.
#[derive(Debug, PartialEq, Eq)]
pub enum DatabaseSelection {
    /// Use the database of this name, which exists.
    Existing(String),
    /// Create a database of this name and use it.
    New(String),
    /// The user cancelled; nothing is to be done for the label, nor for
    /// the labels after it.
    Cancelled,
}

/// The mathematical value of a [`DatabaseSelection`].
pub ghost enum DatabaseSelectionView {
    Existing(Seq<char>),
    New(Seq<char>),
    Cancelled,
}

impl View for DatabaseSelection {
    type V = DatabaseSelectionView;

    open spec fn view(&self) -> DatabaseSelectionView {
        match self {
            DatabaseSelection::Existing(name) => DatabaseSelectionView::Existing(name@),
            DatabaseSelection::New(name) => DatabaseSelectionView::New(name@),
            DatabaseSelection::Cancelled => DatabaseSelectionView::Cancelled,
        }
    }
}

impl DeepView for DatabaseSelection {
    type V = DatabaseSelectionView;

    open spec fn deep_view(&self) -> DatabaseSelectionView {
        self@
    }
}

/// What to do with a label that has no declaration.
#[derive(Clone, Copy, Debug, PartialEq, Eq)]
pub enum DefaultLabelAction {
    /// Fail.
    Reject,
}

impl Default for DefaultLabelAction {
    fn default() -> (action: Self)
        ensures
            action == DefaultLabelAction::Reject,
    {
        DefaultLabelAction::Reject
    }
}

/// The database that a declaration refers to.
#[derive(Debug, PartialEq, Eq)]
pub enum DatabaseRef {
    /// The database of this name.
    Named(String),
}

/// The mathematical value of a [`DatabaseRef`].
pub ghost enum DatabaseRefView {
    Named(Seq<char>),
}

impl View for DatabaseRef {
    type V = DatabaseRefView;

    open spec fn view(&self) -> DatabaseRefView {
        match self {
            DatabaseRef::Named(name) => DatabaseRefView::Named(name@),
        }
    }
}

impl DeepView for DatabaseRef {
    type V = DatabaseRefView;

    open spec fn deep_view(&self) -> DatabaseRefView {
        self@
    }
}

impl Clone for DatabaseRef {
    fn clone(&self) -> (copy: Self)
        ensures
            copy@ == self@,
    {
        match self {
            DatabaseRef::Named(name) => DatabaseRef::Named(name.clone()),
        }
    }
}

/// The mapping that a list of declarations stands for: each label with the
/// database declared for it.
pub open spec fn declarations(entries: Seq<(Seq<char>, DatabaseRefView)>) -> Map<
    Seq<char>,
    DatabaseRefView,
>
    decreases entries.len(),
{
    if entries.len() == 0 {
        Map::empty()
    } else {
        declarations(entries.drop_last()).insert(entries.last().0, entries.last().1)
    }
}

/// What is declared for a label is what the last entry that carries it says.
proof fn lemma_last_entry_wins(entries: Seq<(Seq<char>, DatabaseRefView)>, label: Seq<char>, i: int)
    requires
        0 <= i < entries.len(),
        entries[i].0 == label,
        forall|j: int| i < j < entries.len() ==> (#[trigger] entries[j]).0 != label,
    ensures
        declarations(entries).contains_key(label),
        declarations(entries)[label] == entries[i].1,
    decreases entries.len(),
{
    if i < entries.len() - 1 {
        let front = entries.drop_last();
        assert(entries[entries.len() - 1].0 != label);
        assert(front[i] == entries[i]);
        assert forall|j: int| i < j < front.len() implies (#[trigger] front[j]).0 != label by {
            assert(front[j] == entries[j]);
        }
        lemma_last_entry_wins(front, label, i);
    }
}

/// A label that no entry carries is not declared.
proof fn lemma_no_entry_no_declaration(entries: Seq<(Seq<char>, DatabaseRefView)>, label: Seq<char>)
    requires
        forall|j: int| 0 <= j < entries.len() ==> (#[trigger] entries[j]).0 != label,
    ensures
        !declarations(entries).contains_key(label),
    decreases entries.len(),
{
    if entries.len() > 0 {
        let front = entries.drop_last();
        assert(entries[entries.len() - 1].0 != label);
        assert forall|j: int| 0 <= j < front.len() implies (#[trigger] front[j]).0 != label by {
            assert(front[j] == entries[j]);
        }
        lemma_no_entry_no_declaration(front, label);
    }
}

/// Resolution from declarations: each label is given its database in
/// advance, once.
#[derive(Debug, PartialEq, Eq)]
pub struct Scripted {
    labels_to_dbs: Vec<(String, DatabaseRef)>,
}

impl View for Scripted {
    type V = Map<Seq<char>, DatabaseRefView>;

    closed spec fn view(&self) -> Map<Seq<char>, DatabaseRefView> {
        declarations(self.labels_to_dbs.deep_view())
    }
}

impl Default for Scripted {
    fn default() -> (scripted: Self)
        ensures
            scripted@ == Map::<Seq<char>, DatabaseRefView>::empty(),
    {
        Scripted { labels_to_dbs: Vec::new() }
    }
}

/// What declaring `database` for `label` makes of the declarations
/// `declared`: the declarations with the new one, or a failure where the
/// label is declared already.
pub open spec fn declare(
    declared: Map<Seq<char>, DatabaseRefView>,
    label: Seq<char>,
    database: DatabaseRefView,
) -> Result<Map<Seq<char>, DatabaseRefView>, CommandErrorView> {
    if declared.contains_key(label) {
        Err(CommandErrorView::DuplicateDeclaration { label })
    } else {
        Ok(declared.insert(label, database))
    }
}

/// What a declared database means among `databases`: the existing one of
/// that name, or a new one to be created under it.
pub open spec fn declared_selection(database: DatabaseRefView, databases: Seq<DatabaseView>)
    -> DatabaseSelectionView {
    match database {
        DatabaseRefView::Named(name) => if has_database(databases, name) {
            DatabaseSelectionView::Existing(name)
        } else {
            DatabaseSelectionView::New(name)
        },
    }
}

/// The selection that the declarations `declared` give for `label`.
pub open spec fn scripted_selection(
    declared: Map<Seq<char>, DatabaseRefView>,
    label: Seq<char>,
    databases: Seq<DatabaseView>,
) -> Result<DatabaseSelectionView, CommandErrorView> {
    if declared.contains_key(label) {
        Ok(declared_selection(declared[label], databases))
    } else {
        Err(CommandErrorView::MissingDeclaration { label })
    }
}

impl Scripted {
    /// The position of the last entry for `label`.
    fn position(&self, label: &str) -> (found: Option<usize>)
        ensures
            found.is_some() == self@.contains_key(label@),
            found matches Some(i) ==> i < self.labels_to_dbs.len()
                && self.labels_to_dbs[i as int].1@ == self@[label@],
    {
        let ghost entries = self.labels_to_dbs.deep_view();
        let mut i: usize = self.labels_to_dbs.len();
        while i > 0
            invariant
                i <= self.labels_to_dbs.len(),
                entries == self.labels_to_dbs.deep_view(),
                forall|j: int| i <= j < entries.len() ==> (#[trigger] entries[j]).0 != label@,
            decreases i,
        {
            i -= 1;
            assert(entries[i as int] == self.labels_to_dbs[i as int].deep_view());
            if text_eq(self.labels_to_dbs[i].0.as_str(), label) {
                proof {
                    lemma_last_entry_wins(entries, label@, i as int);
                }
                return Some(i);
            }
        }
        proof {
            lemma_no_entry_no_declaration(entries, label@);
        }
        None
    }

    /// Declares `db` for `label`.
    ///
    /// Fails with `DuplicateDeclaration`, and changes nothing, where the
    /// label has a declaration already.
    pub fn set_label_action(&mut self, label: &str, db: DatabaseRef) -> (outcome: Result<
        (),
        CommandError,
    >)
        ensures
            match outcome {
                Ok(_) => declare(old(self)@, label@, db@) == Ok::<
                    Map<Seq<char>, DatabaseRefView>,
                    CommandErrorView,
                >(final(self)@),
                Err(error) => final(self)@ == old(self)@ && declare(old(self)@, label@, db@)
                    == Err::<Map<Seq<char>, DatabaseRefView>, CommandErrorView>(error@),
            },
    {
        if self.position(label).is_some() {
            return Err(CommandError::DuplicateDeclaration { label: String::from_str(label) });
        }
        let ghost before = self.labels_to_dbs.deep_view();
        self.labels_to_dbs.push((String::from_str(label), db));
        proof {
            let after = self.labels_to_dbs.deep_view();
            assert(after =~= before.push((label@, db@)));
            assert(after.drop_last() =~= before);
        }
        Ok(())
    }

    /// The database declared for `label`.
    ///
    /// Fails with `MissingDeclaration` where the label has none.
    pub fn db_ref_for(&self, label: &str) -> (outcome: Result<&DatabaseRef, CommandError>)
        ensures
            match outcome {
                Ok(database) => self@.contains_key(label@) && self@[label@] == database@,
                Err(error) => !self@.contains_key(label@) && error@
                    == (CommandErrorView::MissingDeclaration { label: label@ }),
            },
    {
        match self.position(label) {
            Some(i) => Ok(&self.labels_to_dbs[i].1),
            None => Err(CommandError::MissingDeclaration { label: String::from_str(label) }),
        }
    }

    /// The selection for `label` among `databases`: the declared database,
    /// as an existing one where `databases` has it and as a new one where
    /// not.
    pub fn select(&self, label: &str, databases: &Vec<Database>) -> (outcome: Result<
        DatabaseSelection,
        CommandError,
    >)
        ensures
            match outcome {
                Ok(selection) => scripted_selection(self@, label@, databases.deep_view()) == Ok::<
                    DatabaseSelectionView,
                    CommandErrorView,
                >(selection@),
                Err(error) => scripted_selection(self@, label@, databases.deep_view()) == Err::<
                    DatabaseSelectionView,
                    CommandErrorView,
                >(error@),
            },
    {
        match self.db_ref_for(label) {
            Err(error) => Err(error),
            Ok(DatabaseRef::Named(requested)) => {
                let name = requested.clone();
                if find_database(databases, name.as_str()).is_some() {
                    Ok(DatabaseSelection::Existing(name))
                } else {
                    Ok(DatabaseSelection::New(name))
                }
            },
        }
    }
}

/// The names of `databases`, in their order.
pub open spec fn names_of(databases: Seq<DatabaseView>) -> Seq<Seq<char>> {
    databases.map_values(|db: DatabaseView| db.name)
}

/// The names of `databases`, in their order.
pub fn database_names(databases: &Vec<Database>) -> (names: Vec<String>)
    ensures
        names.deep_view() == names_of(databases.deep_view()),
{
    let mut names: Vec<String> = Vec::new();
    let mut i: usize = 0;
    while i < databases.len()
        invariant
            i <= databases.len(),
            names.len() == i,
            forall|j: int| 0 <= j < i ==> (#[trigger] names[j])@ == databases[j]@.name,
        decreases databases.len() - i,
    {
        names.push(databases[i].name.clone());
        i += 1;
    }
    assert(names.deep_view() =~= names_of(databases.deep_view()));
    names
}

/// The choice that links an existing database.
pub const USE_EXISTING: &'static str = "Use an existing database and link app to it";

/// The choice that creates a database.
pub const CREATE_NEW: &'static str = "Create a new database and link the app to it";

/// The question whether to link an existing database or a new one.
pub open spec fn action_prompt(name: Seq<char>, label: Seq<char>) -> Seq<char> {
    "App \""@ + name + "\" accesses a database labeled \""@ + label
        + "\"\n    Would you like to link an existing database or create a new database?"@
}

/// The question which existing database to link.
pub open spec fn database_prompt(name: Seq<char>, label: Seq<char>) -> Seq<char> {
    "Which database would you like to link to "@ + name + " using the label \""@ + label
        + "\""@
}

/// The question what to call a new database.
pub open spec fn name_prompt(name: Seq<char>, label: Seq<char>) -> Seq<char> {
    "What would you like to name your database?\n    Note: This name is used when managing your database at the account level. The app \""@
        + name + "\" will refer to this database by the label \""@ + label
        + "\".\n    Other apps can use different labels to refer to the same database."@
}

/// A resolution by questions under way.
#[derive(Debug, PartialEq, Eq)]
pub enum Prompting {
    /// Waiting for the choice between an existing database and a new one.
    ChoosingAction { name: String, label: String, database_names: Vec<String> },
    /// Waiting for the choice among the existing databases.
    ChoosingDatabase { database_names: Vec<String> },
    /// Waiting for a proposal for the new database's default name.
    Naming { name: String, label: String, search: NameSearch },
    /// Waiting for the user to settle the new database's name.
    EnteringName,
}

/// The mathematical value of a [`Prompting`].
pub ghost enum PromptingView {
    ChoosingAction { name: Seq<char>, label: Seq<char>, database_names: Seq<Seq<char>> },
    ChoosingDatabase { database_names: Seq<Seq<char>> },
    Naming { name: Seq<char>, label: Seq<char>, search: NameSearchView },
    EnteringName,
}

impl View for Prompting {
    type V = PromptingView;

    open spec fn view(&self) -> PromptingView {
        match self {
            Prompting::ChoosingAction { name, label, database_names } => {
                PromptingView::ChoosingAction {
                    name: name@,
                    label: label@,
                    database_names: database_names.deep_view(),
                }
            },
            Prompting::ChoosingDatabase { database_names } => PromptingView::ChoosingDatabase {
                database_names: database_names.deep_view(),
            },
            Prompting::Naming { name, label, search } => PromptingView::Naming {
                name: name@,
                label: label@,
                search: search@,
            },
            Prompting::EnteringName => PromptingView::EnteringName,
        }
    }
}

impl DeepView for Prompting {
    type V = PromptingView;

    open spec fn deep_view(&self) -> PromptingView {
        self@
    }
}

/// A step of a resolution.
pub type Resolving = Progress<Prompting, DatabaseSelection>;

/// The mathematical value of a [`Resolving`].
pub type ResolvingView = ProgressView<PromptingView, DatabaseSelectionView>;

impl PromptingView {
    /// The first question: link an existing database, or create one? The
    /// second choice is the default.
    pub open spec fn start(name: Seq<char>, label: Seq<char>, databases: Seq<DatabaseView>)
        -> ResolvingView {
        ProgressView::Continue(
            PromptingView::ChoosingAction { name, label, database_names: names_of(databases) },
            RequestView::Select {
                prompt: action_prompt(name, label),
                items: seq![USE_EXISTING@, CREATE_NEW@],
                default: 1,
            },
        )
    }

    /// What a step of the search for a default name means for the
    /// resolution: the search goes on, or its name is put to the user, or
    /// its failure ends the resolution.
    pub open spec fn naming(
        name: Seq<char>,
        label: Seq<char>,
        step: ProgressView<NameSearchView, Seq<char>>,
    ) -> ResolvingView {
        match step {
            ProgressView::Continue(search, request) => ProgressView::Continue(
                PromptingView::Naming { name, label, search },
                request,
            ),
            ProgressView::Done(Ok(default_name)) => ProgressView::Continue(
                PromptingView::EnteringName,
                RequestView::Input {
                    prompt: name_prompt(name, label),
                    default: Some(default_name),
                },
            ),
            ProgressView::Done(Err(error)) => ProgressView::Done(Err(error)),
        }
    }

    /// The step that the resolution takes on `reply`.
    ///
    /// A cancelled question ends it with `Cancelled`. The first choice
    /// leads to the list of existing databases and the second to a name for
    /// a new one, with a default that no database has; the name entered is
    /// taken as it is. A choice that was not offered is a failure.
    pub open spec fn resume(self, reply: ReplyView) -> ResolvingView {
        match (self, reply) {
            (PromptingView::ChoosingAction { .. }, ReplyView::Selected(None)) => {
                ProgressView::Done(Ok(DatabaseSelectionView::Cancelled))
            },
            (PromptingView::ChoosingDatabase { .. }, ReplyView::Selected(None)) => {
                ProgressView::Done(Ok(DatabaseSelectionView::Cancelled))
            },
            (
                PromptingView::ChoosingAction { name, label, database_names },
                ReplyView::Selected(Some(index)),
            ) => {
                if index == 0 {
                    ProgressView::Continue(
                        PromptingView::ChoosingDatabase { database_names },
                        RequestView::Select {
                            prompt: database_prompt(name, label),
                            items: database_names,
                            default: 0,
                        },
                    )
                } else if index == 1 {
                    Self::naming(
                        name,
                        label,
                        NameSearchView::start(database_names, NAME_GENERATION_MAX_ATTEMPTS as nat),
                    )
                } else {
                    ProgressView::Done(Err(CommandErrorView::UnavailableOption))
                }
            },
            (
                PromptingView::ChoosingDatabase { database_names },
                ReplyView::Selected(Some(index)),
            ) => {
                if index < database_names.len() {
                    ProgressView::Done(
                        Ok(DatabaseSelectionView::Existing(database_names[index as int])),
                    )
                } else {
                    ProgressView::Done(Err(CommandErrorView::UnavailableOption))
                }
            },
            (PromptingView::Naming { name, label, search }, _) => Self::naming(
                name,
                label,
                search.resume(reply),
            ),
            (PromptingView::EnteringName, ReplyView::Entered(Some(name))) => ProgressView::Done(
                Ok(DatabaseSelectionView::New(name)),
            ),
            (PromptingView::EnteringName, ReplyView::Entered(None)) => ProgressView::Done(
                Ok(DatabaseSelectionView::Cancelled),
            ),
            _ => ProgressView::Done(Err(reply.rejection(None))),
        }
    }
}

/// The question whether to link an existing database or a new one.
fn make_action_prompt(name: &str, label: &str) -> (prompt: String)
    ensures
        prompt@ == action_prompt(name@, label@),
{
    let mut prompt = String::from_str("App \"");
    prompt.append(name);
    prompt.append("\" accesses a database labeled \"");
    prompt.append(label);
    prompt.append(
        "\"\n    Would you like to link an existing database or create a new database?",
    );
    prompt
}

/// The question which existing database to link.
fn make_database_prompt(name: &str, label: &str) -> (prompt: String)
    ensures
        prompt@ == database_prompt(name@, label@),
{
    let mut prompt = String::from_str("Which database would you like to link to ");
    prompt.append(name);
    prompt.append(" using the label \"");
    prompt.append(label);
    prompt.append("\"");
    prompt
}

/// The question what to call a new database.
fn make_name_prompt(name: &str, label: &str) -> (prompt: String)
    ensures
        prompt@ == name_prompt(name@, label@),
{
    let mut prompt = String::from_str(
        "What would you like to name your database?\n    Note: This name is used when managing your database at the account level. The app \"",
    );
    prompt.append(name);
    prompt.append("\" will refer to this database by the label \"");
    prompt.append(label);
    prompt.append(
        "\".\n    Other apps can use different labels to refer to the same database.",
    );
    prompt
}

impl Prompting {
    /// Starts a resolution by questions for the label `label` of the app
    /// `name`.
    pub fn start(name: &str, label: &str, databases: &Vec<Database>) -> (first: Resolving)
        ensures
            first.deep_view() == PromptingView::start(name@, label@, databases.deep_view()),
    {
        let mut items: Vec<String> = Vec::new();
        items.push(String::from_str(USE_EXISTING));
        items.push(String::from_str(CREATE_NEW));
        assert(items.deep_view() =~= seq![USE_EXISTING@, CREATE_NEW@]);
        Progress::Continue(
            Prompting::ChoosingAction {
                name: String::from_str(name),
                label: String::from_str(label),
                database_names: database_names(databases),
            },
            Request::Select { prompt: make_action_prompt(name, label), items, default: 1 },
        )
    }

    pub(crate) fn naming(name: String, label: String, step: Progress<NameSearch, String>) -> (next:
        Resolving)
        ensures
            next.deep_view() == PromptingView::naming(name@, label@, step.deep_view()),
    {
        match step {
            Progress::Continue(search, request) => Progress::Continue(
                Prompting::Naming { name, label, search },
                request,
            ),
            Progress::Done(Ok(default_name)) => {
                let prompt = make_name_prompt(name.as_str(), label.as_str());
                Progress::Continue(
                    Prompting::EnteringName,
                    Request::Input { prompt, default: Some(default_name) },
                )
            },
            Progress::Done(Err(error)) => Progress::Done(Err(error)),
        }
    }

    /// Takes the resolution one step further with the reply to its request.
    pub fn resume(self, reply: Reply) -> (next: Resolving)
        ensures
            next.deep_view() == self@.resume(reply@),
    {
        match self {
            Prompting::ChoosingAction { name, label, database_names } => match reply {
                Reply::Selected(None) => Progress::Done(Ok(DatabaseSelection::Cancelled)),
                Reply::Selected(Some(index)) => {
                    if index == 0 {
                        Interactive.prompt_for_existing_database(
                            name.as_str(),
                            label.as_str(),
                            database_names,
                        )
                    } else if index == 1 {
                        Interactive.prompt_link_to_new_database(name, label, database_names)
                    } else {
                        Progress::Done(Err(CommandError::UnavailableOption))
                    }
                },
                other => Progress::Done(Err(other.rejection(None))),
            },
            Prompting::ChoosingDatabase { database_names } => match reply {
                Reply::Selected(None) => Progress::Done(Ok(DatabaseSelection::Cancelled)),
                Reply::Selected(Some(index)) => {
                    if index < database_names.len() {
                        assert(database_names.deep_view()[index as int]
                            == database_names[index as int]@);
                        let picked = database_names[index].clone();
                        Progress::Done(Ok(DatabaseSelection::Existing(picked)))
                    } else {
                        Progress::Done(Err(CommandError::UnavailableOption))
                    }
                },
                other => Progress::Done(Err(other.rejection(None))),
            },
            Prompting::Naming { name, label, search } => Prompting::naming(
                name,
                label,
                search.resume(reply),
            ),
            Prompting::EnteringName => match reply {
                Reply::Entered(Some(name)) => Progress::Done(Ok(DatabaseSelection::New(name))),
                Reply::Entered(None) => Progress::Done(Ok(DatabaseSelection::Cancelled)),
                other => Progress::Done(Err(other.rejection(None))),
            },
        }
    }
}

impl PromptingView {
    /// The databases that the resolution has on offer are among
    /// `databases`.
    pub open spec fn offers_only(self, databases: Seq<DatabaseView>) -> bool {
        match self {
            PromptingView::ChoosingAction { database_names, .. } => forall|i: int|
                0 <= i < database_names.len() ==> has_database(
                    databases,
                    #[trigger] database_names[i],
                ),
            PromptingView::ChoosingDatabase { database_names } => forall|i: int|
                0 <= i < database_names.len() ==> has_database(
                    databases,
                    #[trigger] database_names[i],
                ),
            _ => true,
        }
    }
}

/// The step takes no database for existing that is not among `databases`,
/// and has none on offer that is not.
pub open spec fn picks_listed(step: ResolvingView, databases: Seq<DatabaseView>) -> bool {
    match step {
        ProgressView::Continue(prompting, _) => prompting.offers_only(databases),
        ProgressView::Done(Ok(DatabaseSelectionView::Existing(database))) => has_database(
            databases,
            database,
        ),
        _ => true,
    }
}

/// A resolution by questions takes no database for existing that was not
/// on offer.
pub proof fn lemma_prompting_picks_listed(
    prompting: PromptingView,
    reply: ReplyView,
    databases: Seq<DatabaseView>,
)
    requires
        prompting.offers_only(databases),
    ensures
        picks_listed(prompting.resume(reply), databases),
{
}

/// A way to resolve a label to a database.
pub trait InteractionStrategy {
    /// The first step of the resolution of `label` for the app `name`
    /// among `databases`.
    spec fn selection(&self, name: Seq<char>, label: Seq<char>, databases: Seq<DatabaseView>)
        -> ResolvingView;

    /// Sets out to resolve `label` for the app `name` among `databases`.
    fn prompt_database_selection(
        &self,
        name: &str,
        label: &str,
        databases: Vec<Database>,
    ) -> (first: Resolving)
        ensures
            first.deep_view() == self.selection(name@, label@, databases.deep_view()),
    ;

    /// A resolution changes nothing in the catalog: where it sets out
    /// with a request, the request is no mutation. And it takes no
    /// database for existing that is not among `databases`.
    proof fn lemma_selection_respects_catalog(
        &self,
        name: Seq<char>,
        label: Seq<char>,
        databases: Seq<DatabaseView>,
    )
        ensures
            self.selection(name, label, databases) matches ProgressView::Continue(_, request)
                ==> !request.is_mutation(),
            picks_listed(self.selection(name, label, databases), databases),
    ;
}

/// Resolution by asking the user.
#[derive(Clone, Copy, Debug, Default, PartialEq, Eq)]
pub struct Interactive;

impl Interactive {
    /// Asks which of the existing databases to link.
    pub fn prompt_for_existing_database(
        &self,
        name: &str,
        label: &str,
        database_names: Vec<String>,
    ) -> (step: Resolving)
        ensures
            step.deep_view() == ProgressView::<
                PromptingView,
                DatabaseSelectionView,
            >::Continue(
                PromptingView::ChoosingDatabase { database_names: database_names.deep_view() },
                RequestView::Select {
                    prompt: database_prompt(name@, label@),
                    items: database_names.deep_view(),
                    default: 0,
                },
            ),
    {
        let items = database_names.clone();
        Progress::Continue(
            Prompting::ChoosingDatabase { database_names },
            Request::Select { prompt: make_database_prompt(name, label), items, default: 0 },
        )
    }

    /// Sets out to name a new database: looks for a default name that none
    /// of `existing_names` is.
    pub fn prompt_link_to_new_database(
        &self,
        name: String,
        label: String,
        existing_names: Vec<String>,
    ) -> (step: Resolving)
        ensures
            step.deep_view() == PromptingView::naming(
                name@,
                label@,
                NameSearchView::start(
                    existing_names.deep_view(),
                    NAME_GENERATION_MAX_ATTEMPTS as nat,
                ),
            ),
    {
        let search = NameSearch::start(existing_names, NAME_GENERATION_MAX_ATTEMPTS);
        Prompting::naming(name, label, search)
    }
}

impl InteractionStrategy for Interactive {
    open spec fn selection(
        &self,
        name: Seq<char>,
        label: Seq<char>,
        databases: Seq<DatabaseView>,
    ) -> ResolvingView {
        PromptingView::start(name, label, databases)
    }

    fn prompt_database_selection(
        &self,
        name: &str,
        label: &str,
        databases: Vec<Database>,
    ) -> (first: Resolving) {
        Prompting::start(name, label, &databases)
    }

    proof fn lemma_selection_respects_catalog(
        &self,
        name: Seq<char>,
        label: Seq<char>,
        databases: Seq<DatabaseView>,
    ) {
        assert forall|i: int| 0 <= i < names_of(databases).len() implies has_database(
            databases,
            #[trigger] names_of(databases)[i],
        ) by {
            assert(databases[i].name == names_of(databases)[i]);
        }
    }
}

impl InteractionStrategy for Scripted {
    open spec fn selection(
        &self,
        name: Seq<char>,
        label: Seq<char>,
        databases: Seq<DatabaseView>,
    ) -> ResolvingView {
        ProgressView::Done(scripted_selection(self@, label, databases))
    }

    fn prompt_database_selection(
        &self,
        name: &str,
        label: &str,
        databases: Vec<Database>,
    ) -> (first: Resolving) {
        Progress::Done(self.select(label, &databases))
    }

    proof fn lemma_selection_respects_catalog(
        &self,
        name: Seq<char>,
        label: Seq<char>,
        databases: Seq<DatabaseView>,
    ) {
    }
}

/// A label can be declared once: after a declaration for it, one more is
/// refused as a duplicate, whichever database it names.
pub proof fn lemma_second_declaration_is_refused(
    declared: Map<Seq<char>, DatabaseRefView>,
    label: Seq<char>,
    first: DatabaseRefView,
    second: DatabaseRefView,
)
    ensures
        declare(declared, label, first) matches Ok(after) ==> declare(after, label, second)
            == Err::<Map<Seq<char>, DatabaseRefView>, CommandErrorView>(
            CommandErrorView::DuplicateDeclaration { label },
        ),
        declare(declared, label, first) is Err ==> declare(declared, label, second) == Err::<
            Map<Seq<char>, DatabaseRefView>,
            CommandErrorView,
        >(CommandErrorView::DuplicateDeclaration { label }),
{
}

/// A declaration leaves the declarations for other labels as they were.
pub proof fn lemma_declaration_keeps_the_others(
    declared: Map<Seq<char>, DatabaseRefView>,
    label: Seq<char>,
    database: DatabaseRefView,
    other: Seq<char>,
)
    requires
        other != label,
    ensures
        declare(declared, label, database) matches Ok(after) ==> {
            &&& after.contains_key(other) == declared.contains_key(other)
            &&& declared.contains_key(other) ==> after[other] == declared[other]
            &&& after[label] == database
        },
{
}

/// A label without a declaration cannot be resolved from declarations: the
/// resolution fails with `MissingDeclaration`, whatever databases there
/// are.
pub proof fn lemma_undeclared_label_is_missing(
    declared: Map<Seq<char>, DatabaseRefView>,
    label: Seq<char>,
    databases: Seq<DatabaseView>,
)
    requires
        !declared.contains_key(label),
    ensures
        scripted_selection(declared, label, databases) == Err::<
            DatabaseSelectionView,
            CommandErrorView,
        >(CommandErrorView::MissingDeclaration { label }),
{
}

/// A declared label resolves to its database: as an existing one exactly
/// when some database has that name, and as a new one otherwise.
pub proof fn lemma_declared_label_resolves(
    declared: Map<Seq<char>, DatabaseRefView>,
    label: Seq<char>,
    name: Seq<char>,
    databases: Seq<DatabaseView>,
)
    requires
        declared.contains_key(label),
        declared[label] == DatabaseRefView::Named(name),
    ensures
        has_database(databases, name) ==> scripted_selection(declared, label, databases) == Ok::<
            DatabaseSelectionView,
            CommandErrorView,
        >(DatabaseSelectionView::Existing(name)),
        !has_database(databases, name) ==> scripted_selection(declared, label, databases) == Ok::<
            DatabaseSelectionView,
            CommandErrorView,
        >(DatabaseSelectionView::New(name)),
{
}

impl PromptingView {
    /// A bound on the requests that the resolution may still make after
    /// the one it waits on.
    pub open spec fn remaining(self) -> nat {
        match self {
            PromptingView::ChoosingAction { .. } => (NAME_GENERATION_MAX_ATTEMPTS + 2) as nat,
            PromptingView::ChoosingDatabase { .. } => 0,
            PromptingView::Naming { search, .. } => search.attempts_left + 1,
            PromptingView::EnteringName => 0,
        }
    }
}

/// Every step of a resolution by questions brings it nearer to its end.
pub proof fn lemma_prompting_runs_out(prompting: PromptingView, reply: ReplyView)
    ensures
        prompting.resume(reply) matches ProgressView::Continue(next, _) ==> next.remaining()
            < prompting.remaining(),
{
}

/// A resolution by questions changes nothing in the catalog: none of its
/// requests is a mutation.
pub proof fn lemma_prompting_only_asks(prompting: PromptingView, reply: ReplyView)
    ensures
        prompting.resume(reply) matches ProgressView::Continue(_, request)
            ==> !request.is_mutation(),
{
}

/// The default that is put to the user for the name of a new database is
/// never the name of a database that exists.
pub proof fn lemma_default_name_is_free(prompting: PromptingView, reply: ReplyView)
    requires
        prompting is Naming,
    ensures
        prompting.resume(reply) matches ProgressView::Continue(
            _,
            RequestView::Input { default: Some(name), .. },
        ) ==> !prompting->search.taken.contains(name),
{
}

/// A cancelled question ends the resolution with `Cancelled`.
pub proof fn lemma_cancelled_question_cancels(prompting: PromptingView)
    ensures
        prompting is ChoosingAction || prompting is ChoosingDatabase ==> prompting.resume(
            ReplyView::Selected(None),
        ) == ProgressView::<PromptingView, DatabaseSelectionView>::Done(
            Ok(DatabaseSelectionView::Cancelled),
        ),
        prompting is EnteringName ==> prompting.resume(ReplyView::Entered(None))
            == ProgressView::<PromptingView, DatabaseSelectionView>::Done(
            Ok(DatabaseSelectionView::Cancelled),
        ),
{
}

} // verus!
