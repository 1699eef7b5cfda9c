use database_links::error::CommandError;
use database_links::model::Database;
use database_links::names::{generate_unique, NameGenerator, NameSearch, NAME_GENERATION_MAX_ATTEMPTS};
use database_links::protocol::{Progress, Reply, Request};
use database_links::strategy::{
    database_names, DatabaseRef, DatabaseSelection, DefaultLabelAction, InteractionStrategy,
    Interactive, Prompting, Scripted, CREATE_NEW, USE_EXISTING,
};

fn dbs(names: &[&str]) -> Vec<Database> {
    names.iter().map(|n| Database::new(n.to_string(), vec![])).collect()
}

fn named(name: &str) -> DatabaseRef {
    DatabaseRef::Named(name.to_string())
}

/// Proposes the names of a list over and over, and counts the proposals.
struct Cycle {
    names: Vec<&'static str>,
    calls: usize,
}

impl NameGenerator for Cycle {
    fn generate(&mut self) -> String {
        let name = self.names[self.calls % self.names.len()];
        self.calls += 1;
        name.to_string()
    }
}

fn taken(names: &[&str]) -> Vec<String> {
    names.iter().map(|n| n.to_string()).collect()
}

#[test]
fn scripted_rejects_a_label_declared_twice() {
    let mut scripted = Scripted::default();
    assert_eq!(scripted.set_label_action("email", named("db1")), Ok(()));
    let second = scripted.set_label_action("email", named("db2"));
    assert_eq!(
        second,
        Err(CommandError::DuplicateDeclaration { label: "email".to_string() })
    );
    assert_eq!(second.unwrap_err().message(), "Label email is linked more than once");
    assert_eq!(scripted.db_ref_for("email"), Ok(&named("db1")));
}

#[test]
fn scripted_keeps_each_declaration() {
    let mut scripted = Scripted::default();
    assert_eq!(scripted.set_label_action("email", named("db1")), Ok(()));
    assert_eq!(scripted.set_label_action("logs", named("db2")), Ok(()));
    assert_eq!(scripted.set_label_action("cache", named("db1")), Ok(()));
    assert_eq!(scripted.db_ref_for("email"), Ok(&named("db1")));
    assert_eq!(scripted.db_ref_for("logs"), Ok(&named("db2")));
    assert_eq!(scripted.db_ref_for("cache"), Ok(&named("db1")));
}

#[test]
fn scripted_fails_on_a_label_without_declaration() {
    let mut scripted = Scripted::default();
    assert_eq!(scripted.set_label_action("email", named("db1")), Ok(()));
    let outcome = scripted.db_ref_for("logs");
    assert_eq!(
        outcome,
        Err(CommandError::MissingDeclaration { label: "logs".to_string() })
    );
    assert_eq!(outcome.unwrap_err().message(), "No link specified for label 'logs'");
    assert_eq!(
        scripted.select("logs", &dbs(&["db1"])),
        Err(CommandError::MissingDeclaration { label: "logs".to_string() })
    );
    assert_eq!(
        Scripted::default().prompt_database_selection("app", "email", dbs(&["db1"])),
        Progress::Done(Err(CommandError::MissingDeclaration { label: "email".to_string() }))
    );
}

#[test]
fn scripted_uses_an_existing_database_and_creates_a_missing_one() {
    let mut scripted = Scripted::default();
    scripted.set_label_action("email", named("db1")).unwrap();
    scripted.set_label_action("logs", named("fresh")).unwrap();
    let there = dbs(&["db0", "db1"]);
    assert_eq!(
        scripted.select("email", &there),
        Ok(DatabaseSelection::Existing("db1".to_string()))
    );
    assert_eq!(scripted.select("logs", &there), Ok(DatabaseSelection::New("fresh".to_string())));
    assert_eq!(scripted.select("email", &dbs(&[])), Ok(DatabaseSelection::New("db1".to_string())));
    assert_eq!(
        scripted.prompt_database_selection("ignored", "email", there),
        Progress::Done(Ok(DatabaseSelection::Existing("db1".to_string())))
    );
}

#[test]
fn default_label_action_rejects() {
    assert_eq!(DefaultLabelAction::default(), DefaultLabelAction::Reject);
}

#[test]
fn interactive_first_asks_for_the_kind_of_database() {
    let first = Interactive.prompt_database_selection("app", "email", dbs(&["db1", "db2"]));
    match first {
        Progress::Continue(Prompting::ChoosingAction { name, label, database_names }, request) => {
            assert_eq!(name, "app");
            assert_eq!(label, "email");
            assert_eq!(database_names, vec!["db1".to_string(), "db2".to_string()]);
            assert_eq!(
                request,
                Request::Select {
                    prompt: "App \"app\" accesses a database labeled \"email\"\n    Would you like to link an existing database or create a new database?".to_string(),
                    items: vec![
                        "Use an existing database and link app to it".to_string(),
                        "Create a new database and link the app to it".to_string(),
                    ],
                    default: 1,
                }
            );
        }
        other => panic!("unexpected step: {:?}", other),
    }
    assert_eq!(USE_EXISTING, "Use an existing database and link app to it");
    assert_eq!(CREATE_NEW, "Create a new database and link the app to it");
}

fn choosing(names: &[&str]) -> Prompting {
    Prompting::ChoosingAction {
        name: "app".to_string(),
        label: "email".to_string(),
        database_names: taken(names),
    }
}

#[test]
fn interactive_cancelled_choice_is_a_cancellation() {
    assert_eq!(
        choosing(&["db1"]).resume(Reply::Selected(None)),
        Progress::Done(Ok(DatabaseSelection::Cancelled))
    );
}

#[test]
fn interactive_unknown_choice_is_refused() {
    let end = choosing(&["db1"]).resume(Reply::Selected(Some(2)));
    assert_eq!(end, Progress::Done(Err(CommandError::UnavailableOption)));
    assert_eq!(CommandError::UnavailableOption.message(), "Choose unavailable option");
}

#[test]
fn interactive_existing_database_is_picked_from_the_list() {
    let picking = match choosing(&["db1", "db2", "db3"]).resume(Reply::Selected(Some(0))) {
        Progress::Continue(picking, request) => {
            assert_eq!(
                request,
                Request::Select {
                    prompt:
                        "Which database would you like to link to app using the label \"email\""
                            .to_string(),
                    items: taken(&["db1", "db2", "db3"]),
                    default: 0,
                }
            );
            picking
        }
        other => panic!("unexpected step: {:?}", other),
    };
    assert_eq!(
        picking.resume(Reply::Selected(Some(1))),
        Progress::Done(Ok(DatabaseSelection::Existing("db2".to_string())))
    );
    let again = Prompting::ChoosingDatabase { database_names: taken(&["db1", "db2"]) };
    assert_eq!(
        again.resume(Reply::Selected(None)),
        Progress::Done(Ok(DatabaseSelection::Cancelled))
    );
    let beyond = Prompting::ChoosingDatabase { database_names: taken(&["db1", "db2"]) };
    assert_eq!(
        beyond.resume(Reply::Selected(Some(2))),
        Progress::Done(Err(CommandError::UnavailableOption))
    );
}

#[test]
fn interactive_new_database_gets_a_free_default_name() {
    let naming = match choosing(&["db1", "db2"]).resume(Reply::Selected(Some(1))) {
        Progress::Continue(naming, Request::ProposeName) => naming,
        other => panic!("unexpected step: {:?}", other),
    };
    let naming = match naming.resume(Reply::Name("db2".to_string())) {
        Progress::Continue(naming, Request::ProposeName) => naming,
        other => panic!("unexpected step: {:?}", other),
    };
    let entering = match naming.resume(Reply::Name("fresh".to_string())) {
        Progress::Continue(entering, request) => {
            assert_eq!(
                request,
                Request::Input {
                    prompt: "What would you like to name your database?\n    Note: This name is used when managing your database at the account level. The app \"app\" will refer to this database by the label \"email\".\n    Other apps can use different labels to refer to the same database.".to_string(),
                    default: Some("fresh".to_string()),
                }
            );
            entering
        }
        other => panic!("unexpected step: {:?}", other),
    };
    assert_eq!(entering, Prompting::EnteringName);
    assert_eq!(
        entering.resume(Reply::Entered(Some("db1".to_string()))),
        Progress::Done(Ok(DatabaseSelection::New("db1".to_string())))
    );
    assert_eq!(
        Prompting::EnteringName.resume(Reply::Entered(None)),
        Progress::Done(Ok(DatabaseSelection::Cancelled))
    );
}

#[test]
fn interactive_gives_up_on_the_default_name_after_the_attempts_allowed() {
    let mut step = choosing(&["db1"]).resume(Reply::Selected(Some(1)));
    let mut proposals = 0;
    let end = loop {
        match step {
            Progress::Continue(naming, Request::ProposeName) => {
                proposals += 1;
                step = naming.resume(Reply::Name("db1".to_string()));
            }
            other => break other,
        }
    };
    assert_eq!(proposals, 100);
    assert_eq!(end, Progress::Done(Err(CommandError::GenerationExhausted)));
    assert_eq!(
        CommandError::GenerationExhausted.message(),
        "could not generate unique database name"
    );
}

#[test]
fn interactive_failed_prompt_is_an_upstream_failure() {
    assert_eq!(
        choosing(&["db1"]).resume(Reply::Failed("no terminal".to_string())),
        Progress::Done(Err(CommandError::Upstream {
            context: None,
            cause: "no terminal".to_string()
        }))
    );
    assert_eq!(
        Prompting::EnteringName.resume(Reply::Completed),
        Progress::Done(Err(CommandError::UnexpectedReply))
    );
}

#[test]
fn database_names_keeps_the_order() {
    assert_eq!(database_names(&dbs(&["b", "a", "c"])), taken(&["b", "a", "c"]));
    assert_eq!(database_names(&dbs(&[])), Vec::<String>::new());
}

#[test]
fn generate_unique_returns_the_first_free_name() {
    let mut generator = Cycle { names: vec!["db1", "db2", "fresh", "other"], calls: 0 };
    let name = generate_unique(&mut generator, taken(&["db1", "db2"]), NAME_GENERATION_MAX_ATTEMPTS);
    assert_eq!(name, Ok("fresh".to_string()));
    assert_eq!(generator.calls, 3);
}

#[test]
fn generate_unique_gives_up_when_every_name_is_taken() {
    let mut generator = Cycle { names: vec!["db1", "db2"], calls: 0 };
    let outcome =
        generate_unique(&mut generator, taken(&["db1", "db2"]), NAME_GENERATION_MAX_ATTEMPTS);
    assert_eq!(outcome, Err(CommandError::GenerationExhausted));
    assert_eq!(generator.calls, 100);
    assert_eq!(NAME_GENERATION_MAX_ATTEMPTS, 100);
}

#[test]
fn generate_unique_counts_its_attempts() {
    let mut generator = Cycle { names: vec!["db1", "db1", "db1", "free"], calls: 0 };
    assert_eq!(
        generate_unique(&mut generator, taken(&["db1"]), 3),
        Err(CommandError::GenerationExhausted)
    );
    assert_eq!(generator.calls, 3);
    let mut generator = Cycle { names: vec!["db1", "db1", "db1", "free"], calls: 0 };
    assert_eq!(generate_unique(&mut generator, taken(&["db1"]), 4), Ok("free".to_string()));
    assert_eq!(generator.calls, 4);
}

#[test]
fn generate_unique_with_nothing_taken_returns_the_first_proposal() {
    let mut generator = Cycle { names: vec!["first", "second"], calls: 0 };
    assert_eq!(generate_unique(&mut generator, taken(&[]), 1), Ok("first".to_string()));
    assert_eq!(generator.calls, 1);
    let mut generator = Cycle { names: vec![""], calls: 0 };
    assert_eq!(
        generate_unique(&mut generator, taken(&[]), NAME_GENERATION_MAX_ATTEMPTS),
        Ok(String::new())
    );
    assert_eq!(generator.calls, 1);
}

#[test]
fn generate_unique_without_attempts_asks_for_no_name() {
    let mut generator = Cycle { names: vec!["free"], calls: 0 };
    assert_eq!(
        generate_unique(&mut generator, taken(&[]), 0),
        Err(CommandError::GenerationExhausted)
    );
    assert_eq!(generator.calls, 0);
}

#[test]
fn name_search_accepts_any_name_when_none_is_taken() {
    let search = match NameSearch::start(taken(&[]), 1) {
        Progress::Continue(search, Request::ProposeName) => search,
        other => panic!("unexpected step: {:?}", other),
    };
    assert_eq!(search.offer(String::new()), Progress::Done(Ok(String::new())));
}

#[test]
fn name_search_takes_only_names_for_an_answer() {
    let search = NameSearch { taken: taken(&["a"]), attempts_left: 5 };
    assert_eq!(
        search.resume(Reply::Entered(Some("b".to_string()))),
        Progress::Done(Err(CommandError::UnexpectedReply))
    );
    let search = NameSearch { taken: taken(&["a"]), attempts_left: 5 };
    assert_eq!(
        search.resume(Reply::Name("a".to_string())),
        Progress::Continue(NameSearch { taken: taken(&["a"]), attempts_left: 4 }, Request::ProposeName)
    );
}
