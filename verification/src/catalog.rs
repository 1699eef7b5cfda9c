//! A model of the catalog, and what the workflows achieve in it.
//!
//! The model says what a request that succeeds does to the databases and
//! their links, and what a host that is faithful to the catalog answers.
//! Against it stand the reasons for which the workflows exist: a link
//! command and an unlink command keep each label of an application bound
//! to one database at most; a reconciliation that ends well has bound
//! every label it was given; and a provisioning that ends well has settled
//! on databases that exist.

use crate::link::{
    app_link, binding, binds, existing_link, link_steps, unlink_steps, LinkCheckView,
    SqliteLinkCommandView, SqliteUnlinkCommandView,
};
use crate::deploy::{
    ExistingAppFlowView, ExistingAppStageView, NewAppFlowView, NewAppStageView, PairsView,
};
use crate::error::CommandErrorView;
use crate::lookup::{has_database, has_link, is_linked, linked, named, names_link};
use crate::model::{AppId, DatabaseView, ResourceLabelView};
use crate::protocol::{mutations_made, ProgressView, ReplyView, RequestView};
use crate::strategy::{
    lemma_prompting_only_asks, lemma_prompting_picks_listed, picks_listed, DatabaseSelectionView,
    InteractionStrategy, ResolvingView,
};
use crate::search::{first_where, lemma_first_where_found, lemma_first_where_sound};
use vstd::prelude::*;

verus! {

/// The links equal to `link`.
pub open spec fn same_as(link: ResourceLabelView) -> spec_fn(ResourceLabelView) -> bool {
    |other: ResourceLabelView| other == link
}

/// `links` without the first link equal to `link`.
pub open spec fn without(links: Seq<ResourceLabelView>, link: ResourceLabelView) -> Seq<
    ResourceLabelView,
> {
    match first_where(links, same_as(link)) {
        Some(k) => links.remove(k),
        None => links,
    }
}

/// `links` with `link` behind them, where there is one.
pub open spec fn with_link(links: Seq<ResourceLabelView>, link: Option<ResourceLabelView>) -> Seq<
    ResourceLabelView,
> {
    match link {
        Some(link) => links.push(link),
        None => links,
    }
}

/// The databases once `request` is carried out. A link is created on, and
/// removed from, the first database of the name given. The creation of a
/// database whose name is taken comes to the linking of the database that
/// has the name. A request that names no database, or that is no
/// mutation, leaves the databases as they are.
pub open spec fn applied(catalog: Seq<DatabaseView>, request: RequestView) -> Seq<DatabaseView> {
    match request {
        RequestView::CreateDatabase { name, link } => match first_where(catalog, named(name)) {
            Some(i) => catalog.update(
                i,
                DatabaseView { name, links: with_link(catalog[i].links, link) },
            ),
            None => catalog.push(DatabaseView { name, links: with_link(Seq::empty(), link) }),
        },
        RequestView::CreateLink { database, link } => match first_where(catalog, named(database)) {
            Some(i) => catalog.update(
                i,
                DatabaseView { name: catalog[i].name, links: catalog[i].links.push(link) },
            ),
            None => catalog,
        },
        RequestView::RemoveLink { database, link } => match first_where(catalog, named(database)) {
            Some(i) => catalog.update(
                i,
                DatabaseView { name: catalog[i].name, links: without(catalog[i].links, link) },
            ),
            None => catalog,
        },
        RequestView::DeleteDatabase { name } => match first_where(catalog, named(name)) {
            Some(i) => catalog.remove(i),
            None => catalog,
        },
        RequestView::RenameDatabase { name, new_name } => match first_where(catalog, named(name)) {
            Some(i) => catalog.update(i, DatabaseView { name: new_name, links: catalog[i].links }),
            None => catalog,
        },
        _ => catalog,
    }
}

/// The databases once `requests` are carried out, one after the other.
pub open spec fn applied_all(catalog: Seq<DatabaseView>, requests: Seq<RequestView>) -> Seq<
    DatabaseView,
>
    decreases requests.len(),
{
    if requests.len() == 0 {
        catalog
    } else {
        applied_all(applied(catalog, requests[0]), requests.drop_first())
    }
}

/// The databases with a link of the application `app_id`.
pub open spec fn linked_to(app_id: AppId) -> spec_fn(DatabaseView) -> bool {
    |db: DatabaseView|
        exists|at: int| 0 <= at < db.links.len() && (#[trigger] db.links[at]).app_id == app_id
}

/// What a listing shows of `catalog`: all databases, or those with a link
/// of the application asked for.
pub open spec fn listed(catalog: Seq<DatabaseView>, app_id: Option<AppId>) -> Seq<DatabaseView> {
    match app_id {
        Some(app_id) => catalog.filter(linked_to(app_id)),
        None => catalog,
    }
}

/// No two databases have the same name.
pub open spec fn distinct_names(catalog: Seq<DatabaseView>) -> bool {
    forall|i: int, j: int|
        0 <= i < j < catalog.len() ==> (#[trigger] catalog[i]).name != (#[trigger] catalog[j]).name
}

/// The link at `at` of the database at `db` binds `label` for `app_id`.
pub open spec fn binds_at(
    catalog: Seq<DatabaseView>,
    app_id: AppId,
    label: Seq<char>,
    db: int,
    at: int,
) -> bool {
    &&& 0 <= db < catalog.len()
    &&& 0 <= at < catalog[db].links.len()
    &&& binds(app_id, label)(catalog[db].links[at])
}

/// No link binds `label` for `app_id`.
pub open spec fn unbound(catalog: Seq<DatabaseView>, app_id: AppId, label: Seq<char>) -> bool {
    forall|db: int, at: int| !binds_at(catalog, app_id, label, db, at)
}

/// One link at most binds `label` for `app_id`.
pub open spec fn bound_once(catalog: Seq<DatabaseView>, app_id: AppId, label: Seq<char>) -> bool {
    forall|db: int, at: int, other: int, there: int|
        binds_at(catalog, app_id, label, db, at) && binds_at(catalog, app_id, label, other, there)
            ==> db == other && at == there
}

/// A link on the database called `database` binds `label` for `app_id`.
pub open spec fn bound_to(
    catalog: Seq<DatabaseView>,
    app_id: AppId,
    label: Seq<char>,
    database: Seq<char>,
) -> bool {
    exists|db: int, at: int|
        binds_at(catalog, app_id, label, db, at) && catalog[db].name == database
}

/// A database without a link for the application under the label has no
/// link that binds the label.
proof fn lemma_no_app_link(db: DatabaseView, app_id: AppId, label: Seq<char>)
    requires
        app_link(db, app_id, label) is None,
    ensures
        forall|at: int| 0 <= at < db.links.len() ==> !binds(app_id, label)(#[trigger] db.links[at]),
{
    lemma_first_where_sound(db.links, binds(app_id, label));
}

/// Where neither the database asked for nor any other has the
/// application's link under the label, the label is not bound.
proof fn lemma_free_label_is_unbound(
    command: SqliteLinkCommandView,
    app_id: AppId,
    catalog: Seq<DatabaseView>,
)
    requires
        existing_link(catalog, app_id, command.label, command.database, true) is None,
        existing_link(catalog, app_id, command.label, command.database, false) is None,
    ensures
        unbound(catalog, app_id, command.label),
{
    let here = binding(app_id, command.label, command.database, true);
    let elsewhere = binding(app_id, command.label, command.database, false);
    lemma_first_where_sound(catalog, here);
    lemma_first_where_sound(catalog, elsewhere);
    assert forall|db: int, at: int| !binds_at(catalog, app_id, command.label, db, at) by {
        if binds_at(catalog, app_id, command.label, db, at) {
            if first_where(catalog, here) is Some {
                let i = first_where(catalog, here)->Some_0;
                assert(here(catalog[i]));
            }
            if first_where(catalog, elsewhere) is Some {
                let i = first_where(catalog, elsewhere)->Some_0;
                assert(elsewhere(catalog[i]));
            }
            assert(!here(catalog[db]));
            assert(!elsewhere(catalog[db]));
            lemma_no_app_link(catalog[db], app_id, command.label);
        }
    }
}

/// A link created for an unbound label binds it once, to the database it
/// is created on.
proof fn lemma_creation_binds_once(
    catalog: Seq<DatabaseView>,
    app_id: AppId,
    label: Seq<char>,
    database: Seq<char>,
    link: ResourceLabelView,
)
    requires
        unbound(catalog, app_id, label),
        has_database(catalog, database),
        binds(app_id, label)(link),
    ensures
        bound_once(applied(catalog, RequestView::CreateLink { database, link }), app_id, label),
        bound_to(
            applied(catalog, RequestView::CreateLink { database, link }),
            app_id,
            label,
            database,
        ),
{
    lemma_first_where_sound(catalog, named(database));
    let i = first_where(catalog, named(database))->Some_0;
    let after = applied(catalog, RequestView::CreateLink { database, link });
    let last = catalog[i].links.len() as int;
    assert forall|db: int, at: int| binds_at(after, app_id, label, db, at) implies db == i && at
        == last by {
        if db != i {
            assert(after[db] == catalog[db]);
            assert(binds_at(catalog, app_id, label, db, at));
        } else if at != last {
            assert(after[db].links[at] == catalog[db].links[at]);
            assert(binds_at(catalog, app_id, label, db, at));
        }
    }
    assert(binds_at(after, app_id, label, i, last));
    assert(after[i].name == database);
}

/// The removal of the one link that binds a label leaves the label
/// unbound, and the databases with their names.
proof fn lemma_removal_unbinds(
    catalog: Seq<DatabaseView>,
    app_id: AppId,
    label: Seq<char>,
    db: int,
    at: int,
)
    requires
        distinct_names(catalog),
        bound_once(catalog, app_id, label),
        binds_at(catalog, app_id, label, db, at),
    ensures
        ({
            let after = applied(
                catalog,
                RequestView::RemoveLink {
                    database: catalog[db].name,
                    link: catalog[db].links[at],
                },
            );
            &&& unbound(after, app_id, label)
            &&& after.len() == catalog.len()
            &&& forall|i: int|
                0 <= i < after.len() ==> (#[trigger] after[i]).name == catalog[i].name
        }),
{
    let link = catalog[db].links[at];
    let links = catalog[db].links;
    assert(named(catalog[db].name)(catalog[db]));
    assert forall|j: int| 0 <= j < db implies !named(catalog[db].name)(#[trigger] catalog[j]) by {}
    lemma_first_where_found(catalog, named(catalog[db].name), db);
    lemma_first_where_sound(links, same_as(link));
    assert(same_as(link)(links[at]));
    let k = first_where(links, same_as(link))->Some_0;
    assert(binds_at(catalog, app_id, label, db, k));
    assert(k == at);
    let after = applied(
        catalog,
        RequestView::RemoveLink { database: catalog[db].name, link },
    );
    assert forall|i: int, a: int| !binds_at(after, app_id, label, i, a) by {
        if binds_at(after, app_id, label, i, a) {
            if i != db {
                assert(after[i] == catalog[i]);
                assert(binds_at(catalog, app_id, label, i, a));
            } else {
                let b = if a < at { a } else { a + 1 };
                assert(after[i].links[a] == links[b]);
                assert(binds_at(catalog, app_id, label, db, b));
            }
        }
    }
}

/// The removal of a link binds nothing: a label that one link at most
/// binds before it is bound by one link at most after it.
pub proof fn lemma_removal_binds_nothing(
    catalog: Seq<DatabaseView>,
    database: Seq<char>,
    link: ResourceLabelView,
    app_id: AppId,
    label: Seq<char>,
)
    requires
        bound_once(catalog, app_id, label),
    ensures
        bound_once(applied(catalog, RequestView::RemoveLink { database, link }), app_id, label),
        unbound(catalog, app_id, label) ==> unbound(
            applied(catalog, RequestView::RemoveLink { database, link }),
            app_id,
            label,
        ),
{
    let after = applied(catalog, RequestView::RemoveLink { database, link });
    lemma_first_where_sound(catalog, named(database));
    if let Some(i) = first_where(catalog, named(database)) {
        let links = catalog[i].links;
        lemma_first_where_sound(links, same_as(link));
        // where a link of `after` stood in `catalog`
        let origin = |db: int, at: int|
            if db == i && first_where(links, same_as(link)) is Some && at >= first_where(
                links,
                same_as(link),
            )->Some_0 {
                at + 1
            } else {
                at
            };
        assert forall|db: int, at: int| binds_at(after, app_id, label, db, at) implies binds_at(
            catalog,
            app_id,
            label,
            db,
            origin(db, at),
        ) by {
            if db != i {
                assert(after[db] == catalog[db]);
            } else {
                assert(after[db].links[at] == links[origin(db, at)]);
            }
        }
        assert forall|db: int, at: int, other: int, there: int|
            binds_at(after, app_id, label, db, at) && binds_at(
                after,
                app_id,
                label,
                other,
                there,
            ) implies db == other && at == there by {
            assert(binds_at(catalog, app_id, label, db, origin(db, at)));
            assert(binds_at(catalog, app_id, label, other, origin(other, there)));
        }
    }
}

/// The link that a link command finds on another database is in the
/// catalog.
proof fn lemma_conflict_is_in_the_catalog(
    command: SqliteLinkCommandView,
    app_id: AppId,
    catalog: Seq<DatabaseView>,
) -> (place: (int, int))
    requires
        existing_link(catalog, app_id, command.label, command.database, false) is Some,
    ensures
        binds_at(catalog, app_id, command.label, place.0, place.1),
        ({
            let current = existing_link(
                catalog,
                app_id,
                command.label,
                command.database,
                false,
            )->Some_0;
            current.resource == catalog[place.0].name && current.resource_label
                == catalog[place.0].links[place.1]
        }),
{
    let elsewhere = binding(app_id, command.label, command.database, false);
    lemma_first_where_sound(catalog, elsewhere);
    let db = first_where(catalog, elsewhere)->Some_0;
    assert(elsewhere(catalog[db]));
    lemma_first_where_sound(catalog[db].links, binds(app_id, command.label));
    let at = first_where(catalog[db].links, binds(app_id, command.label))->Some_0;
    (db, at)
}

/// A link command keeps the label bound to one database at most.
///
/// Let the databases have distinct names and let one link at most bind
/// the command's label for the application. Then, however the command is
/// answered once it has seen these databases, the same holds after each
/// of the changes that it asks for, taken in order. Once the command has
/// asked for the new link, that link binds the label to the database
/// asked for.
pub proof fn lemma_link_keeps_one_binding(
    command: SqliteLinkCommandView,
    app_id: AppId,
    catalog: Seq<DatabaseView>,
    replies: Seq<ReplyView>,
    done: int,
)
    requires
        distinct_names(catalog),
        bound_once(catalog, app_id, command.label),
        replies.len() > 0,
        replies[0] == ReplyView::Databases(catalog),
        0 <= done <= mutations_made(link_steps(), command.link(app_id), replies).len(),
    ensures
        ({
            let made = mutations_made(link_steps(), command.link(app_id), replies);
            let creation = RequestView::CreateLink {
                database: command.database,
                link: command.resource_label(app_id),
            };
            &&& bound_once(applied_all(catalog, made.take(done)), app_id, command.label)
            &&& made.len() > 0 && made.last() == creation ==> bound_to(
                applied_all(catalog, made),
                app_id,
                command.label,
                command.database,
            )
        }),
{
    reveal_with_fuel(applied_all, 3);
    let label = command.label;
    let made = mutations_made(link_steps(), command.link(app_id), replies);
    let creation = RequestView::CreateLink {
        database: command.database,
        link: command.resource_label(app_id),
    };
    assert(made.take(0) =~= Seq::<RequestView>::empty());
    match command.check(catalog, app_id) {
        Err(_) => {
            crate::link::lemma_link_refused(command, app_id, catalog, replies);
        },
        Ok(LinkCheckView::Free) => {
            crate::link::lemma_link_free_label(command, app_id, catalog, replies);
            assert(made =~= seq![creation]);
            lemma_free_label_is_unbound(command, app_id, catalog);
            lemma_creation_binds_once(
                catalog,
                app_id,
                label,
                command.database,
                command.resource_label(app_id),
            );
            assert(made.take(1) =~= made);
            assert(made.drop_first() =~= Seq::<RequestView>::empty());
        },
        Ok(LinkCheckView::Conflict(current)) => {
            let removal = RequestView::RemoveLink {
                database: current.resource,
                link: current.resource_label,
            };
            if replies.len() > 1 && replies[1] == ReplyView::Confirmed(Some(true)) {
                crate::link::lemma_relink_confirmed(command, app_id, catalog, current, replies);
                let place = lemma_conflict_is_in_the_catalog(command, app_id, catalog);
                lemma_removal_unbinds(catalog, app_id, label, place.0, place.1);
                let unbound_catalog = applied(catalog, removal);
                // the database asked for is still there
                assert(has_database(unbound_catalog, command.database)) by {
                    let i = choose|i: int|
                        0 <= i < catalog.len() && (#[trigger] catalog[i]).name == command.database;
                    assert(unbound_catalog[i].name == command.database);
                }
                lemma_creation_binds_once(
                    unbound_catalog,
                    app_id,
                    label,
                    command.database,
                    command.resource_label(app_id),
                );
                assert(made.take(1) =~= seq![removal]);
                assert(seq![removal].drop_first() =~= Seq::<RequestView>::empty());
                if made.len() == 2 {
                    assert(made =~= seq![removal, creation]);
                    assert(made.take(2) =~= made);
                    assert(made.drop_first() =~= seq![creation]);
                    assert(seq![creation].drop_first() =~= Seq::<RequestView>::empty());
                } else {
                    assert(made =~= seq![removal]);
                }
            } else {
                if replies.len() > 1 {
                    crate::link::lemma_relink_declined(command, app_id, catalog, current, replies);
                } else {
                    reveal_with_fuel(mutations_made, 3);
                    assert(made =~= Seq::<RequestView>::empty());
                }
            }
        },
    }
}

/// An unlink command binds nothing: whatever it is shown and however it is
/// answered, a label that one link at most binds is bound by one link at
/// most after the changes that the command asks for.
pub proof fn lemma_unlink_keeps_one_binding(
    command: SqliteUnlinkCommandView,
    app_id: AppId,
    shown: Seq<DatabaseView>,
    replies: Seq<ReplyView>,
    catalog: Seq<DatabaseView>,
    bound: AppId,
    label: Seq<char>,
)
    requires
        bound_once(catalog, bound, label),
        replies.len() > 0,
        replies[0] == ReplyView::Databases(shown),
    ensures
        bound_once(
            applied_all(
                catalog,
                mutations_made(unlink_steps(), command.unlink(app_id), replies),
            ),
            bound,
            label,
        ),
{
    reveal_with_fuel(applied_all, 2);
    let made = mutations_made(unlink_steps(), command.unlink(app_id), replies);
    match linked(shown, command.label, Some(command.app)) {
        Some(link) => {
            crate::link::lemma_unlink_removes_one_link(command, app_id, shown, link, replies);
            assert(made.drop_first() =~= Seq::<RequestView>::empty());
            lemma_removal_binds_nothing(
                catalog,
                link.resource,
                link.resource_label,
                bound,
                label,
            );
        },
        None => {
            crate::link::lemma_unlink_without_link(command, app_id, shown, replies);
        },
    }
}

/// The host is faithful: it answers `request` with `reply` as a catalog
/// that holds `before` would, and leaves it holding `after`.
///
/// A listing shows the databases as they are. A mutation that is
/// answered as completed was carried out, and a link can only be created
/// on a database that exists; a mutation that failed changed nothing.
/// Questions and output do not touch the catalog.
pub open spec fn faithful(
    before: Seq<DatabaseView>,
    request: RequestView,
    reply: ReplyView,
    after: Seq<DatabaseView>,
) -> bool {
    if request is ListDatabases {
        after == before && (reply is Failed || reply == ReplyView::Databases(
            listed(before, request->app_id),
        ))
    } else if request.is_mutation() {
        ||| reply is Failed && after == before
        ||| {
            &&& reply == ReplyView::Completed
            &&& after == applied(before, request)
            &&& request matches RequestView::CreateLink { database, .. } ==> has_database(
                before,
                database,
            )
        }
    } else {
        after == before
    }
}

/// Each of `labels` is bound for the application shown as `app`.
pub open spec fn settled(catalog: Seq<DatabaseView>, app: Seq<char>, labels: Seq<Seq<char>>)
    -> bool {
    forall|i: int| 0 <= i < labels.len() ==> is_linked(catalog, #[trigger] labels[i], Some(app))
}

/// The request creates `link`, on a database that exists or with a new
/// one.
pub open spec fn creates(request: RequestView, link: ResourceLabelView) -> bool {
    ||| request matches RequestView::CreateLink { link: created, .. } && created == link
    ||| request matches RequestView::CreateDatabase { link: created, .. } && created == Some(link)
}

/// The request leaves every link where it is.
pub open spec fn removes_nothing(request: RequestView) -> bool {
    !request.is_mutation() || request is CreateLink || request is CreateDatabase
}

/// A request that removes nothing leaves every label bound that was.
proof fn lemma_links_stay(
    catalog: Seq<DatabaseView>,
    request: RequestView,
    label: Seq<char>,
    app: Option<Seq<char>>,
)
    requires
        removes_nothing(request),
        is_linked(catalog, label, app),
    ensures
        is_linked(applied(catalog, request), label, app),
{
    let after = applied(catalog, request);
    let db = choose|db: int|
        0 <= db < catalog.len() && has_link(#[trigger] catalog[db], label, app);
    let links = catalog[db].links;
    let at = choose|at: int| 0 <= at < links.len() && names_link(#[trigger] links[at], label, app);
    match request {
        RequestView::CreateLink { database, .. } => {
            lemma_first_where_sound(catalog, named(database));
        },
        RequestView::CreateDatabase { name, .. } => {
            lemma_first_where_sound(catalog, named(name));
        },
        _ => {},
    }
    assert(after[db].links[at] == catalog[db].links[at]);
    assert(has_link(after[db], label, app));
}

/// A link that is created binds its label for its application.
proof fn lemma_creation_links(
    catalog: Seq<DatabaseView>,
    request: RequestView,
    link: ResourceLabelView,
)
    requires
        creates(request, link),
        request matches RequestView::CreateLink { database, .. } ==> has_database(
            catalog,
            database,
        ),
    ensures
        is_linked(applied(catalog, request), link.label, link.app_name),
{
    let after = applied(catalog, request);
    match request {
        RequestView::CreateLink { database, .. } => {
            lemma_first_where_sound(catalog, named(database));
            let i = first_where(catalog, named(database))->Some_0;
            let last = catalog[i].links.len() as int;
            assert(names_link(after[i].links[last], link.label, link.app_name));
            assert(has_link(after[i], link.label, link.app_name));
        },
        RequestView::CreateDatabase { name, .. } => {
            lemma_first_where_sound(catalog, named(name));
            match first_where(catalog, named(name)) {
                Some(i) => {
                    assert(names_link(
                        after[i].links[catalog[i].links.len() as int],
                        link.label,
                        link.app_name,
                    ));
                    assert(has_link(after[i], link.label, link.app_name));
                },
                None => {
                    let i = catalog.len() as int;
                    assert(names_link(after[i].links[0], link.label, link.app_name));
                    assert(has_link(after[i], link.label, link.app_name));
                },
            }
        },
        _ => {},
    }
}

/// A reconciliation is on its way with the catalog holding what it
/// should: the labels `done` are bound, and the request that the
/// reconciliation waits on is a listing, or a question of the resolution,
/// or the creation of the link for the label at hand.
pub open spec fn on_its_way<S: InteractionStrategy>(
    flow: ExistingAppFlowView<S>,
    request: RequestView,
    catalog: Seq<DatabaseView>,
    done: Seq<Seq<char>>,
) -> bool {
    &&& settled(catalog, flow.app_name, done)
    &&& match flow.stage {
        ExistingAppStageView::Listing => request == (RequestView::ListDatabases { app_id: None }),
        ExistingAppStageView::Resolving(_) => !request.is_mutation(),
        ExistingAppStageView::Applying { .. } => creates(request, flow.resource_label()),
    }
}

/// The labels that are done once the reconciliation has taken the step
/// from `flow` to `next`.
pub open spec fn done_after<S: InteractionStrategy>(
    flow: ExistingAppFlowView<S>,
    next: ExistingAppFlowView<S>,
    done: Seq<Seq<char>>,
) -> Seq<Seq<char>> {
    if next.rest.len() < flow.rest.len() {
        done.push(flow.label)
    } else {
        done
    }
}

/// What the resolution of a label comes to leaves the reconciliation on
/// its way.
proof fn lemma_resolved_stays_on_its_way<S: InteractionStrategy>(
    flow: ExistingAppFlowView<S>,
    step: ResolvingView,
    catalog: Seq<DatabaseView>,
    done: Seq<Seq<char>>,
)
    requires
        settled(catalog, flow.app_name, done),
        step matches ProgressView::Continue(_, request) ==> !request.is_mutation(),
    ensures
        match flow.resolved(step) {
            ProgressView::Continue(next, request) => on_its_way(next, request, catalog, done)
                && next.label == flow.label && next.rest == flow.rest && next.app_name
                == flow.app_name,
            ProgressView::Done(outcome) => outcome != Ok::<Option<()>, CommandErrorView>(
                Some(()),
            ),
        },
{
}

/// A reconciliation sets out on its way, with no label done, whatever the
/// catalog holds.
pub proof fn lemma_reconciliation_sets_out<S: InteractionStrategy>(
    strategy: S,
    app_name: Seq<char>,
    app_id: AppId,
    labels: Seq<Seq<char>>,
    catalog: Seq<DatabaseView>,
)
    ensures
        match ExistingAppFlowView::proceed(strategy, app_name, app_id, labels) {
            ProgressView::Continue(flow, request) => {
                &&& on_its_way(flow, request, catalog, Seq::empty())
                &&& Seq::<Seq<char>>::empty() + seq![flow.label] + flow.rest == labels
                &&& flow.app_name == app_name
            },
            ProgressView::Done(_) => labels.len() == 0,
        },
{
    if labels.len() > 0 {
        assert(Seq::<Seq<char>>::empty() + seq![labels[0]] + labels.drop_first() =~= labels);
    }
}

/// A reconciliation does what it is for.
///
/// Let the host be faithful and the reconciliation on its way with the
/// labels `done`. Then its next step leaves it on its way, with the label
/// at hand done as well once it leaves that label; and where the step
/// ends the reconciliation well, every label that it was started on is
/// bound for the application.
pub proof fn lemma_reconciliation_binds_its_labels<S: InteractionStrategy>(
    flow: ExistingAppFlowView<S>,
    request: RequestView,
    reply: ReplyView,
    before: Seq<DatabaseView>,
    after: Seq<DatabaseView>,
    done: Seq<Seq<char>>,
)
    requires
        on_its_way(flow, request, before, done),
        faithful(before, request, reply, after),
    ensures
        match flow.resume(reply) {
            ProgressView::Continue(next, asked) => {
                &&& on_its_way(next, asked, after, done_after(flow, next, done))
                &&& done_after(flow, next, done) + seq![next.label] + next.rest == done + seq![
                    flow.label,
                ] + flow.rest
                &&& next.app_name == flow.app_name
            },
            ProgressView::Done(Ok(Some(_))) => settled(
                after,
                flow.app_name,
                done + seq![flow.label] + flow.rest,
            ),
            ProgressView::Done(_) => true,
        },
{
    let app = flow.app_name;
    let all = done + seq![flow.label] + flow.rest;
    // what was bound stays bound
    assert(settled(after, app, done)) by {
        assert forall|i: int| 0 <= i < done.len() implies is_linked(
            after,
            #[trigger] done[i],
            Some(app),
        ) by {
            if after != before {
                lemma_links_stay(before, request, done[i], Some(app));
            }
        }
    }
    // once the label at hand is bound, so are all up to it
    let through = done.push(flow.label);
    if is_linked(after, flow.label, Some(app)) {
        assert(settled(after, app, through)) by {
            assert forall|i: int| 0 <= i < through.len() implies is_linked(
                after,
                #[trigger] through[i],
                Some(app),
            ) by {
                if i < done.len() {
                    assert(through[i] == done[i]);
                }
            }
        }
        if flow.rest.len() == 0 {
            assert(through =~= all);
        } else {
            assert(through + seq![flow.rest[0]] + flow.rest.drop_first() =~= all);
        }
    }
    assert(done + seq![flow.label] + flow.rest =~= all);
    match flow.stage {
        ExistingAppStageView::Listing => {
            if let ReplyView::Databases(databases) = reply {
                if !is_linked(databases, flow.label, Some(app)) {
                    let step = flow.strategy.selection(app, flow.label, databases);
                    flow.strategy.lemma_selection_respects_catalog(app, flow.label, databases);
                    lemma_resolved_stays_on_its_way(flow, step, after, done);
                }
            }
        },
        ExistingAppStageView::Resolving(prompting) => {
            lemma_prompting_only_asks(prompting, reply);
            let step = prompting.resume(reply);
            lemma_resolved_stays_on_its_way(flow, step, after, done);
        },
        ExistingAppStageView::Applying { .. } => {
            if reply == ReplyView::Completed {
                lemma_creation_links(before, request, flow.resource_label());
            }
        },
    }
}

/// Each of `pairs` names a database that exists.
pub open spec fn all_exist(catalog: Seq<DatabaseView>, pairs: PairsView) -> bool {
    forall|i: int| 0 <= i < pairs.len() ==> has_database(catalog, (#[trigger] pairs[i]).0)
}

/// A provisioning is on course with the catalog holding what it should:
/// the databases settled on exist, and the request that the provisioning
/// waits on is a listing, or a question of a resolution that offers only
/// databases that exist, or the creation of the database chosen.
pub open spec fn on_course<S: InteractionStrategy>(
    flow: NewAppFlowView<S>,
    request: RequestView,
    catalog: Seq<DatabaseView>,
) -> bool {
    &&& all_exist(catalog, flow.linked)
    &&& match flow.stage {
        NewAppStageView::Listing => request == (RequestView::ListDatabases { app_id: None }),
        NewAppStageView::Resolving(prompting) => !request.is_mutation() && prompting.offers_only(
            catalog,
        ),
        NewAppStageView::Creating { database } => request == (RequestView::CreateDatabase {
            name: database,
            link: None,
        }),
    }
}

/// The creation of a database leaves every database in the catalog, and
/// the one created is in it.
proof fn lemma_creation_keeps_databases(
    catalog: Seq<DatabaseView>,
    name: Seq<char>,
    link: Option<ResourceLabelView>,
    other: Seq<char>,
)
    ensures
        has_database(applied(catalog, RequestView::CreateDatabase { name, link }), name),
        has_database(catalog, other) ==> has_database(
            applied(catalog, RequestView::CreateDatabase { name, link }),
            other,
        ),
{
    let after = applied(catalog, RequestView::CreateDatabase { name, link });
    lemma_first_where_sound(catalog, named(name));
    match first_where(catalog, named(name)) {
        Some(i) => {
            assert(after[i].name == name);
        },
        None => {
            assert(after[catalog.len() as int].name == name);
        },
    }
    if has_database(catalog, other) {
        let j = choose|j: int| 0 <= j < catalog.len() && (#[trigger] catalog[j]).name == other;
        assert(after[j].name == other);
    }
}

/// What the resolution of a label comes to leaves the provisioning on
/// course.
proof fn lemma_resolved_stays_on_course<S: InteractionStrategy>(
    flow: NewAppFlowView<S>,
    step: ResolvingView,
    catalog: Seq<DatabaseView>,
)
    requires
        all_exist(catalog, flow.linked),
        step matches ProgressView::Continue(_, request) ==> !request.is_mutation(),
        picks_listed(step, catalog),
    ensures
        match flow.resolved(step) {
            ProgressView::Continue(next, request) => on_course(next, request, catalog),
            ProgressView::Done(Ok(Some(pairs))) => all_exist(catalog, pairs),
            ProgressView::Done(_) => true,
        },
{
    if let ProgressView::Done(Ok(DatabaseSelectionView::Existing(database))) = step {
        lemma_record_stays_on_course(flow, database, catalog);
    }
}

/// Settling a label on a database that exists leaves the provisioning on
/// course.
proof fn lemma_record_stays_on_course<S: InteractionStrategy>(
    flow: NewAppFlowView<S>,
    database: Seq<char>,
    catalog: Seq<DatabaseView>,
)
    requires
        all_exist(catalog, flow.linked),
        has_database(catalog, database),
    ensures
        match flow.record(database) {
            ProgressView::Continue(next, request) => on_course(next, request, catalog),
            ProgressView::Done(Ok(Some(pairs))) => all_exist(catalog, pairs),
            ProgressView::Done(_) => true,
        },
{
    let pairs = flow.linked.push((database, flow.label));
    assert forall|i: int| 0 <= i < pairs.len() implies has_database(
        catalog,
        (#[trigger] pairs[i]).0,
    ) by {
        if i < flow.linked.len() {
            assert(pairs[i] == flow.linked[i]);
        }
    }
}

/// A provisioning settles on databases that exist.
///
/// Let the host be faithful and the provisioning on course. Then its next
/// step leaves it on course; and where the step ends the provisioning with
/// pairs to link, each pair names a database that is in the catalog.
pub proof fn lemma_provisioning_settles_on_databases<S: InteractionStrategy>(
    flow: NewAppFlowView<S>,
    request: RequestView,
    reply: ReplyView,
    before: Seq<DatabaseView>,
    after: Seq<DatabaseView>,
)
    requires
        on_course(flow, request, before),
        faithful(before, request, reply, after),
    ensures
        match flow.resume(reply) {
            ProgressView::Continue(next, asked) => on_course(next, asked, after),
            ProgressView::Done(Ok(Some(pairs))) => all_exist(after, pairs),
            ProgressView::Done(_) => true,
        },
{
    // the databases settled on are still there
    assert(all_exist(after, flow.linked)) by {
        assert forall|i: int| 0 <= i < flow.linked.len() implies has_database(
            after,
            (#[trigger] flow.linked[i]).0,
        ) by {
            if let RequestView::CreateDatabase { name, link } = request {
                lemma_creation_keeps_databases(before, name, link, flow.linked[i].0);
            }
        }
    }
    match flow.stage {
        NewAppStageView::Listing => {
            if let ReplyView::Databases(databases) = reply {
                flow.strategy.lemma_selection_respects_catalog(flow.name, flow.label, databases);
                lemma_resolved_stays_on_course(
                    flow,
                    flow.strategy.selection(flow.name, flow.label, databases),
                    after,
                );
            }
        },
        NewAppStageView::Resolving(prompting) => {
            lemma_prompting_only_asks(prompting, reply);
            lemma_prompting_picks_listed(prompting, reply, after);
            lemma_resolved_stays_on_course(flow, prompting.resume(reply), after);
        },
        NewAppStageView::Creating { database } => {
            if reply == ReplyView::Completed {
                lemma_creation_keeps_databases(before, database, None, database);
                lemma_record_stays_on_course(flow, database, after);
            }
        },
    }
}

} // verus!
