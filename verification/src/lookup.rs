//! Lookups among the databases of an account and their links.

use crate::model::{Database, DatabaseView, Link, LinkView, ResourceLabelView};
use crate::search::{first_where, lemma_first_where_absent, lemma_first_where_found};
use crate::text::text_eq;
use vstd::prelude::*;

verus! {

/// The links that carry `label`.
pub open spec fn labeled(label: Seq<char>) -> spec_fn(ResourceLabelView) -> bool {
    |link: ResourceLabelView| link.label == label
}

/// The first link of `db` that carries `label`, with the database's name.
pub open spec fn database_link(db: DatabaseView, label: Seq<char>) -> Option<LinkView> {
    match first_where(db.links, labeled(label)) {
        Some(i) => Some(LinkView { resource_label: db.links[i], resource: db.name }),
        None => None,
    }
}

/// The first link of `db` under `label`, whichever application it belongs
/// to, or `None` where the database has no link under that label.
pub fn find_database_link(db: &Database, label: &str) -> (found: Option<Link>)
    ensures
        found.deep_view() == database_link(db@, label@),
{
    let mut i: usize = 0;
    while i < db.links.len()
        invariant
            i <= db.links.len(),
            forall|j: int| 0 <= j < i ==> !labeled(label@)(#[trigger] db@.links[j]),
        decreases db.links.len() - i,
    {
        let link = &db.links[i];
        assert(db@.links[i as int] == link@);
        if text_eq(link.label.as_str(), label) {
            proof {
                lemma_first_where_found(db@.links, labeled(label@), i as int);
            }
            return Some(Link::new(link.clone(), db.name.clone()));
        }
        i += 1;
    }
    proof {
        lemma_first_where_absent(db@.links, labeled(label@));
    }
    None
}

/// The link is the one that `app` has under `label`.
pub open spec fn names_link(link: ResourceLabelView, label: Seq<char>, app: Option<Seq<char>>)
    -> bool {
    link.label == label && link.app_name == app
}

/// `database` has a link under `label` for the application displayed as `app`.
pub open spec fn has_link(database: DatabaseView, label: Seq<char>, app: Option<Seq<char>>)
    -> bool {
    exists|i: int|
        0 <= i < database.links.len() && names_link(#[trigger] database.links[i], label, app)
}

/// Whether `database` has a link under `label` whose application is
/// displayed as `app`; with `None`, one whose application has no display
/// name.
pub fn database_has_link(database: &Database, label: &str, app: Option<&str>) -> (linked: bool)
    ensures
        linked == has_link(database@, label@, app.deep_view()),
{
    let mut i: usize = 0;
    while i < database.links.len()
        invariant
            i <= database.links.len(),
            forall|j: int|
                0 <= j < i ==> !names_link(#[trigger] database@.links[j], label@, app.deep_view()),
        decreases database.links.len() - i,
    {
        let link = &database.links[i];
        assert(database@.links[i as int] == link@);
        let same_app = match (&link.app_name, app) {
            (Some(a), Some(b)) => text_eq(a.as_str(), b),
            (None, None) => true,
            _ => false,
        };
        if text_eq(link.label.as_str(), label) && same_app {
            return true;
        }
        i += 1;
    }
    false
}

/// The links that `app` has under `label`.
pub open spec fn named_by(label: Seq<char>, app: Option<Seq<char>>) -> spec_fn(
    ResourceLabelView,
) -> bool {
    |link: ResourceLabelView| names_link(link, label, app)
}

/// The first link of `db` that `app` has under `label`, with the database's
/// name.
pub open spec fn named_link(db: DatabaseView, label: Seq<char>, app: Option<Seq<char>>) -> Option<
    LinkView,
> {
    match first_where(db.links, named_by(label, app)) {
        Some(i) => Some(LinkView { resource_label: db.links[i], resource: db.name }),
        None => None,
    }
}

/// The databases with a link of `app` under `label`.
pub open spec fn linking(label: Seq<char>, app: Option<Seq<char>>) -> spec_fn(
    DatabaseView,
) -> bool {
    |db: DatabaseView| has_link(db, label, app)
}

/// Some database of `databases` has a link of `app` under `label`.
pub open spec fn is_linked(databases: Seq<DatabaseView>, label: Seq<char>, app: Option<Seq<char>>)
    -> bool {
    exists|i: int| 0 <= i < databases.len() && has_link(#[trigger] databases[i], label, app)
}

/// The link that `app` has under `label`: the first such link of the first
/// database that has one.
pub open spec fn linked(databases: Seq<DatabaseView>, label: Seq<char>, app: Option<Seq<char>>)
    -> Option<LinkView> {
    match first_where(databases, linking(label, app)) {
        Some(i) => named_link(databases[i], label, app),
        None => None,
    }
}

/// The first link of `db` that `app` has under `label`.
pub fn find_named_link(db: &Database, label: &str, app: Option<&str>) -> (found: Option<Link>)
    ensures
        found.deep_view() == named_link(db@, label@, app.deep_view()),
        found.is_some() == has_link(db@, label@, app.deep_view()),
{
    let ghost wanted = named_by(label@, app.deep_view());
    let mut i: usize = 0;
    while i < db.links.len()
        invariant
            i <= db.links.len(),
            wanted == named_by(label@, app.deep_view()),
            forall|j: int| 0 <= j < i ==> !wanted(#[trigger] db@.links[j]),
        decreases db.links.len() - i,
    {
        let link = &db.links[i];
        assert(db@.links[i as int] == link@);
        let same_app = match (&link.app_name, app) {
            (Some(a), Some(b)) => text_eq(a.as_str(), b),
            (None, None) => true,
            _ => false,
        };
        if text_eq(link.label.as_str(), label) && same_app {
            proof {
                lemma_first_where_found(db@.links, wanted, i as int);
            }
            return Some(Link::new(link.clone(), db.name.clone()));
        }
        i += 1;
    }
    proof {
        lemma_first_where_absent(db@.links, wanted);
    }
    None
}

/// The link that `app` has under `label` among `databases`, and the
/// position of the database that holds it.
pub fn find_linked(databases: &Vec<Database>, label: &str, app: Option<&str>) -> (found: Option<
    (usize, Link),
>)
    ensures
        found.is_some() == is_linked(databases.deep_view(), label@, app.deep_view()),
        match found {
            Some((i, link)) => {
                &&& first_where(databases.deep_view(), linking(label@, app.deep_view())) == Some(
                    i as int,
                )
                &&& linked(databases.deep_view(), label@, app.deep_view()) == Some(link@)
            },
            None => linked(databases.deep_view(), label@, app.deep_view()) is None,
        },
{
    let ghost wanted = linking(label@, app.deep_view());
    let mut i: usize = 0;
    while i < databases.len()
        invariant
            i <= databases.len(),
            wanted == linking(label@, app.deep_view()),
            forall|j: int| 0 <= j < i ==> !wanted(#[trigger] databases.deep_view()[j]),
        decreases databases.len() - i,
    {
        let db = &databases[i];
        assert(databases.deep_view()[i as int] == db@);
        match find_named_link(db, label, app) {
            Some(link) => {
                proof {
                    lemma_first_where_found(databases.deep_view(), wanted, i as int);
                }
                return Some((i, link));
            },
            None => {},
        }
        i += 1;
    }
    proof {
        lemma_first_where_absent(databases.deep_view(), wanted);
    }
    None
}

/// The databases called `name`.
pub open spec fn named(name: Seq<char>) -> spec_fn(DatabaseView) -> bool {
    |db: DatabaseView| db.name == name
}

/// Some database of `databases` is called `name`.
pub open spec fn has_database(databases: Seq<DatabaseView>, name: Seq<char>) -> bool {
    exists|i: int| 0 <= i < databases.len() && (#[trigger] databases[i]).name == name
}

/// The position of the first database called `name`.
pub fn find_database(databases: &Vec<Database>, name: &str) -> (found: Option<usize>)
    ensures
        found.is_some() == has_database(databases.deep_view(), name@),
        match found {
            Some(i) => first_where(databases.deep_view(), named(name@)) == Some(i as int),
            None => first_where(databases.deep_view(), named(name@)) is None,
        },
{
    let mut i: usize = 0;
    while i < databases.len()
        invariant
            i <= databases.len(),
            forall|j: int| 0 <= j < i ==> !named(name@)(#[trigger] databases.deep_view()[j]),
        decreases databases.len() - i,
    {
        assert(databases.deep_view()[i as int] == databases[i as int]@);
        if text_eq(databases[i].name.as_str(), name) {
            proof {
                lemma_first_where_found(databases.deep_view(), named(name@), i as int);
            }
            return Some(i);
        }
        i += 1;
    }
    proof {
        lemma_first_where_absent(databases.deep_view(), named(name@));
    }
    None
}

} // verus!
