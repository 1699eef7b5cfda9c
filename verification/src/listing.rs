//! The list command, and what a listing of the databases shows: as JSON,
//! the databases with their links; in tables, the links of all databases
//! put in order by application or grouped by database.

use crate::lookup::named;
use crate::model::{
    display_name, shown_name, Database, DatabaseView, Link, LinkView, ResourceLabelView,
};
use crate::order::{precedes, text_lt};
use crate::error::{CommandError, CommandErrorView};
use crate::protocol::{
    DatabasesListJson, DatabasesListJsonView, Progress, ProgressView, Reply, ReplyView, Request,
    RequestView, ResourceLabelJson, ResourceLabelJsonView,
};
use crate::search::{first_where, lemma_first_where_absent, lemma_first_where_found};
use crate::table::{draw_table, drawable, table_text, CONDENSED_BORDERS, FULL_BORDERS};
use crate::text::{lowercase, text_eq, to_lowercase, trim, trimmed};
use vstd::prelude::*;
use vstd::string::*;

verus! {

/// The links of `db`, each with the database's name.
pub open spec fn links_of(db: DatabaseView) -> Seq<LinkView> {
    db.links.map_values(
        |link: ResourceLabelView| LinkView { resource_label: link, resource: db.name },
    )
}

/// The links of `databases`: those of the first database, then those of
/// the second, and so on.
pub open spec fn all_links(databases: Seq<DatabaseView>) -> Seq<LinkView>
    decreases databases.len(),
{
    if databases.len() == 0 {
        Seq::empty()
    } else {
        all_links(databases.drop_last()) + links_of(databases.last())
    }
}

/// The links of `databases`: those of the first database, then those of
/// the second, and so on.
pub fn collect_links(databases: &Vec<Database>) -> (links: Vec<Link>)
    ensures
        links.deep_view() == all_links(databases.deep_view()),
{
    let ghost all = databases.deep_view();
    let mut links: Vec<Link> = Vec::new();
    assert(links.deep_view() =~= all_links(all.take(0)));
    let mut i: usize = 0;
    while i < databases.len()
        invariant
            i <= databases.len(),
            all == databases.deep_view(),
            links.deep_view() == all_links(all.take(i as int)),
        decreases databases.len() - i,
    {
        let db = &databases[i];
        let ghost before = links.deep_view();
        assert(all.take(i + 1).drop_last() =~= all.take(i as int));
        assert(all.take(i + 1).last() == db@);
        let mut j: usize = 0;
        while j < db.links.len()
            invariant
                j <= db.links.len(),
                links.deep_view() == before + links_of(db@).take(j as int),
            decreases db.links.len() - j,
        {
            let ghost so_far = links.deep_view();
            links.push(Link::new(db.links[j].clone(), db.name.clone()));
            assert(links.deep_view() =~= so_far.push(links_of(db@)[j as int]));
            assert(links_of(db@).take(j + 1) =~= links_of(db@).take(j as int).push(
                links_of(db@)[j as int],
            ));
            j += 1;
        }
        assert(links_of(db@).take(j as int) =~= links_of(db@));
        i += 1;
    }
    assert(all.take(i as int) =~= all);
    links
}

/// The links whose application is shown as `app`.
pub open spec fn of_app(app: Seq<char>) -> spec_fn(LinkView) -> bool {
    |link: LinkView| link.app_name() == app
}

/// Those of `links` whose application is shown as `app`, in their order.
pub fn links_of_app(links: Vec<Link>, app: &str) -> (kept: Vec<Link>)
    ensures
        kept.deep_view() == links.deep_view().filter(of_app(app@)),
{
    let ghost all = links.deep_view();
    let mut kept: Vec<Link> = Vec::new();
    let mut links = links;
    let mut done: Ghost<Seq<LinkView>> = Ghost(Seq::empty());
    proof {
        reveal(Seq::filter);
        assert(kept.deep_view() =~= done@.filter(of_app(app@)));
    }
    while links.len() > 0
        invariant
            done@ + links.deep_view() == all,
            kept.deep_view() == done@.filter(of_app(app@)),
        decreases links.len(),
    {
        let ghost pending = links.deep_view();
        let ghost before = kept.deep_view();
        let link = links.remove(0);
        assert(links.deep_view() =~= pending.drop_first());
        proof {
            done@.lemma_filter_push(link@, of_app(app@));
            assert(done@.push(link@) + links.deep_view() =~= done@ + pending);
        }
        if text_eq(link.app_name(), app) {
            kept.push(link);
            assert(kept.deep_view() =~= before.push(link@));
        }
        proof {
            done@ = done@.push(pending[0]);
        }
    }
    assert(done@ =~= all);
    kept
}

/// The databases without links.
pub open spec fn unlinked() -> spec_fn(DatabaseView) -> bool {
    |db: DatabaseView| db.links.len() == 0
}

/// The name of a database.
pub open spec fn name_of() -> spec_fn(DatabaseView) -> Seq<char> {
    |db: DatabaseView| db.name
}

/// The names of those of `databases` that have no link, in their order.
pub fn unlinked_names(databases: &Vec<Database>) -> (names: Vec<String>)
    ensures
        names.deep_view() == databases.deep_view().filter(unlinked()).map_values(name_of()),
{
    let ghost all = databases.deep_view();
    let mut names: Vec<String> = Vec::new();
    proof {
        reveal(Seq::filter);
        assert(names.deep_view() =~= all.take(0).filter(unlinked()).map_values(name_of()));
    }
    let mut i: usize = 0;
    while i < databases.len()
        invariant
            i <= databases.len(),
            all == databases.deep_view(),
            names.deep_view() == all.take(i as int).filter(unlinked()).map_values(name_of()),
        decreases databases.len() - i,
    {
        let db = &databases[i];
        let ghost before = names.deep_view();
        proof {
            assert(all[i as int] == db@);
            assert(all.take(i + 1) =~= all.take(i as int).push(db@));
            all.take(i as int).lemma_filter_push(db@, unlinked());
        }
        if db.links.len() == 0 {
            names.push(db.name.clone());
            assert(names.deep_view() =~= before.push(db@.name));
            assert(all.take(i as int).filter(unlinked()).push(db@).map_values(name_of())
                =~= before.push(db@.name));
        }
        i += 1;
    }
    assert(all.take(i as int) =~= all);
    names
}

/// The databases with a link of an application shown as `app`.
pub open spec fn used_by(app: Seq<char>) -> spec_fn(DatabaseView) -> bool {
    |db: DatabaseView|
        exists|i: int| 0 <= i < db.links.len() && display_name(#[trigger] db.links[i]) == app
}

/// Whether `db` has a link of an application shown as `app`.
pub fn is_used_by(db: &Database, app: &str) -> (used: bool)
    ensures
        used == used_by(app@)(db@),
{
    let mut i: usize = 0;
    while i < db.links.len()
        invariant
            i <= db.links.len(),
            forall|j: int| 0 <= j < i ==> display_name(#[trigger] db@.links[j]) != app@,
        decreases db.links.len() - i,
    {
        assert(db@.links[i as int] == db.links[i as int]@);
        if text_eq(shown_name(&db.links[i]), app) {
            return true;
        }
        i += 1;
    }
    false
}

/// What to keep of the databases of a listing.
#[derive(Debug, PartialEq, Eq)]
pub enum Keep {
    /// The databases of this name.
    Called(String),
    /// The databases with a link of an application shown under this name.
    UsedBy(String),
}

/// The mathematical value of a [`Keep`].
pub ghost enum KeepView {
    Called(Seq<char>),
    UsedBy(Seq<char>),
}

impl View for Keep {
    type V = KeepView;

    open spec fn view(&self) -> KeepView {
        match self {
            Keep::Called(name) => KeepView::Called(name@),
            Keep::UsedBy(app) => KeepView::UsedBy(app@),
        }
    }
}

impl KeepView {
    /// The databases to keep.
    pub open spec fn wanted(self) -> spec_fn(DatabaseView) -> bool {
        match self {
            KeepView::Called(name) => named(name),
            KeepView::UsedBy(app) => used_by(app),
        }
    }
}

/// Those of `databases` that `keep` asks for, in their order.
pub fn keep_databases(databases: Vec<Database>, keep: &Keep) -> (kept: Vec<Database>)
    ensures
        kept.deep_view() == databases.deep_view().filter(keep@.wanted()),
{
    let ghost all = databases.deep_view();
    let ghost wanted = keep@.wanted();
    let mut kept: Vec<Database> = Vec::new();
    let mut databases = databases;
    let mut done: Ghost<Seq<DatabaseView>> = Ghost(Seq::empty());
    proof {
        reveal(Seq::filter);
        assert(kept.deep_view() =~= done@.filter(wanted));
    }
    while databases.len() > 0
        invariant
            wanted == keep@.wanted(),
            done@ + databases.deep_view() == all,
            kept.deep_view() == done@.filter(wanted),
        decreases databases.len(),
    {
        let ghost pending = databases.deep_view();
        let ghost before = kept.deep_view();
        let db = databases.remove(0);
        assert(databases.deep_view() =~= pending.drop_first());
        proof {
            done@.lemma_filter_push(db@, wanted);
            assert(done@.push(db@) + databases.deep_view() =~= done@ + pending);
        }
        let keep_it = match keep {
            Keep::Called(name) => text_eq(db.name.as_str(), name.as_str()),
            Keep::UsedBy(app) => is_used_by(&db, app.as_str()),
        };
        if keep_it {
            kept.push(db);
            assert(kept.deep_view() =~= before.push(pending[0]));
        }
        proof {
            done@ = done@.push(pending[0]);
        }
    }
    assert(done@ =~= all);
    kept
}

/// How a link is shown in JSON.
pub open spec fn json_link() -> spec_fn(ResourceLabelView) -> ResourceLabelJsonView {
    |link: ResourceLabelView| ResourceLabelJsonView { label: link.label, app: display_name(link) }
}

/// How a database is shown in JSON.
pub open spec fn json_database() -> spec_fn(DatabaseView) -> DatabasesListJsonView {
    |db: DatabaseView|
        DatabasesListJsonView { database: db.name, links: db.links.map_values(json_link()) }
}

/// The database as a listing in JSON shows it: its name, and each link
/// with its label and the name shown for its application.
pub fn json_list_format(database: &Database) -> (shown: DatabasesListJson)
    ensures
        shown@ == json_database()(database@),
{
    let mut links: Vec<ResourceLabelJson> = Vec::new();
    let mut i: usize = 0;
    while i < database.links.len()
        invariant
            i <= database.links.len(),
            links.len() == i,
            forall|j: int| 0 <= j < i ==> (#[trigger] links[j])@ == json_link()(database@.links[j]),
        decreases database.links.len() - i,
    {
        let link = &database.links[i];
        assert(database@.links[i as int] == link@);
        links.push(
            ResourceLabelJson {
                label: link.label.clone(),
                app: String::from_str(shown_name(link)),
            },
        );
        i += 1;
    }
    assert(links.deep_view() =~= database@.links.map_values(json_link()));
    DatabasesListJson { database: database.name.clone(), links }
}

/// The databases as a listing in JSON shows them.
pub fn json_list(databases: &Vec<Database>) -> (shown: Vec<DatabasesListJson>)
    ensures
        shown.deep_view() == databases.deep_view().map_values(json_database()),
{
    let mut shown: Vec<DatabasesListJson> = Vec::new();
    let mut i: usize = 0;
    while i < databases.len()
        invariant
            i <= databases.len(),
            shown.len() == i,
            forall|j: int|
                0 <= j < i ==> (#[trigger] shown[j])@ == json_database()(databases.deep_view()[j]),
        decreases databases.len() - i,
    {
        assert(databases.deep_view()[i as int] == databases[i as int]@);
        shown.push(json_list_format(&databases[i]));
        i += 1;
    }
    assert(shown.deep_view() =~= databases.deep_view().map_values(json_database()));
    shown
}

/// What the links of a listing are grouped by.
#[derive(Clone, Copy, Debug, PartialEq, Eq)]
pub enum GroupBy {
    /// The application: one row for each link, in the order of the names
    /// shown for the applications.
    App,
    /// The database: one row for each database, in the order of their
    /// names.
    Database,
}

impl Default for GroupBy {
    fn default() -> (by: Self)
        ensures
            by == GroupBy::App,
    {
        GroupBy::App
    }
}

impl GroupBy {
    /// The word for the grouping on the command line.
    pub fn name(&self) -> (word: &'static str)
        ensures
            word@ == match self {
                GroupBy::App => "app"@,
                GroupBy::Database => "database"@,
            },
    {
        match self {
            GroupBy::App => "app",
            GroupBy::Database => "database",
        }
    }
}

/// The grouping that `word` names. Both `"app"` and `"database"` name the
/// grouping by app; any other word is refused.
pub open spec fn grouping_of(word: Seq<char>) -> Result<GroupBy, Seq<char>> {
    if word == "app"@ || word == "database"@ {
        Ok(GroupBy::App)
    } else {
        Err("Unrecognized group-by option: '"@ + word + "'"@)
    }
}

impl GroupBy {
    /// The grouping that `word` names: see [`grouping_of`].
    pub fn from_word(word: &str) -> (outcome: Result<GroupBy, String>)
        ensures
            match outcome {
                Ok(by) => grouping_of(word@) == Ok::<GroupBy, Seq<char>>(by),
                Err(text) => grouping_of(word@) == Err::<GroupBy, Seq<char>>(text@),
            },
    {
        if text_eq(word, "app") || text_eq(word, "database") {
            Ok(GroupBy::App)
        } else {
            let mut text = String::from_str("Unrecognized group-by option: '");
            text.append(word);
            text.append("'");
            Err(text)
        }
    }

    /// The grouping that `s` names, whatever its case and the blanks round
    /// it: that of `s` trimmed and in lower case.
    pub fn from_str(s: &str) -> (outcome: Result<GroupBy, String>)
        ensures
            match outcome {
                Ok(by) => grouping_of(lowercase(trimmed(s@))) == Ok::<GroupBy, Seq<char>>(by),
                Err(text) => grouping_of(lowercase(trimmed(s@))) == Err::<GroupBy, Seq<char>>(
                    text@,
                ),
            },
    {
        let word = to_lowercase(trim(s));
        GroupBy::from_word(word.as_str())
    }
}

/// The text that links are put in order by.
pub open spec fn group_key(by: GroupBy) -> spec_fn(LinkView) -> Seq<char> {
    |link: LinkView|
        match by {
            GroupBy::App => link.app_name(),
            GroupBy::Database => link.resource,
        }
}

/// The links that come after `link` in the order of `by`.
pub open spec fn comes_after(by: GroupBy, link: LinkView) -> spec_fn(LinkView) -> bool {
    |other: LinkView| precedes(group_key(by)(link), group_key(by)(other))
}

/// `sorted` with `link` put in: before the first link that comes after
/// it, and at the end where there is none.
pub open spec fn placed(sorted: Seq<LinkView>, link: LinkView, by: GroupBy) -> Seq<LinkView> {
    match first_where(sorted, comes_after(by, link)) {
        Some(i) => sorted.insert(i, link),
        None => sorted.push(link),
    }
}

/// `links` in the order of `by`; links that `by` does not tell apart stay
/// in the order they were in.
pub open spec fn sorted_links(links: Seq<LinkView>, by: GroupBy) -> Seq<LinkView>
    decreases links.len(),
{
    if links.len() == 0 {
        Seq::empty()
    } else {
        placed(sorted_links(links.drop_last(), by), links.last(), by)
    }
}

/// No link of `sorted` comes after a link behind it.
pub open spec fn in_order(sorted: Seq<LinkView>, by: GroupBy) -> bool {
    forall|i: int, j: int|
        0 <= i < j < sorted.len() ==> !precedes(
            group_key(by)(#[trigger] sorted[j]),
            group_key(by)(#[trigger] sorted[i]),
        )
}

/// Putting a link into links that are in order leaves them in order.
proof fn lemma_placed_in_order(sorted: Seq<LinkView>, link: LinkView, by: GroupBy)
    requires
        in_order(sorted, by),
    ensures
        in_order(placed(sorted, link, by), by),
{
    let key = group_key(by);
    let result = placed(sorted, link, by);
    crate::search::lemma_first_where_sound(sorted, comes_after(by, link));
    match first_where(sorted, comes_after(by, link)) {
        Some(at) => {
            assert forall|i: int, j: int| 0 <= i < j < result.len() implies !precedes(
                key(#[trigger] result[j]),
                key(#[trigger] result[i]),
            ) by {
                if i == at {
                    // `link` stands before `result[j]`, which does not come before `sorted[at]`
                    assert(result[j] == sorted[j - 1]);
                    if precedes(key(result[j]), key(link)) {
                        crate::order::lemma_precedes_transitive(
                            key(sorted[j - 1]),
                            key(link),
                            key(sorted[at]),
                        );
                        if j - 1 == at {
                            crate::order::lemma_precedes_irreflexive(key(sorted[at]));
                        }
                    }
                } else if j == at {
                    assert(result[i] == sorted[i]);
                    assert(!comes_after(by, link)(sorted[i]));
                } else {
                    let a = if i < at { i } else { i - 1 };
                    let b = if j < at { j } else { j - 1 };
                    assert(result[i] == sorted[a] && result[j] == sorted[b]);
                }
            }
        },
        None => {
            assert forall|i: int, j: int| 0 <= i < j < result.len() implies !precedes(
                key(#[trigger] result[j]),
                key(#[trigger] result[i]),
            ) by {
                if j == sorted.len() {
                    assert(!comes_after(by, link)(sorted[i]));
                }
            }
        },
    }
}

/// Sorted links are in order.
pub proof fn lemma_sorted_links_in_order(links: Seq<LinkView>, by: GroupBy)
    ensures
        in_order(sorted_links(links, by), by),
    decreases links.len(),
{
    if links.len() > 0 {
        lemma_sorted_links_in_order(links.drop_last(), by);
        lemma_placed_in_order(sorted_links(links.drop_last(), by), links.last(), by);
    }
}

/// Sorting neither loses a link nor makes one up: the sorted links are the
/// links, each as often as it was there.
pub proof fn lemma_sorted_links_are_the_links(links: Seq<LinkView>, by: GroupBy)
    ensures
        sorted_links(links, by).to_multiset() == links.to_multiset(),
        sorted_links(links, by).len() == links.len(),
    decreases links.len(),
{
    broadcast use vstd::seq_lib::group_to_multiset_ensures;

    if links.len() == 0 {
        assert(sorted_links(links, by) =~= links);
    } else {
        let front = links.drop_last();
        let sorted = sorted_links(front, by);
        lemma_sorted_links_are_the_links(front, by);
        crate::search::lemma_first_where_sound(sorted, comes_after(by, links.last()));
        assert(front.push(links.last()) =~= links);
        match first_where(sorted, comes_after(by, links.last())) {
            Some(at) => {
                vstd::seq_lib::to_multiset_insert(sorted, at, links.last());
            },
            None => {},
        }
    }
}

/// The links whose key is `key`.
pub open spec fn keyed(by: GroupBy, key: Seq<char>) -> spec_fn(LinkView) -> bool {
    |link: LinkView| group_key(by)(link) == key
}

/// Where no link is wanted, none is kept.
proof fn lemma_none_kept(links: Seq<LinkView>, wanted: spec_fn(LinkView) -> bool)
    requires
        forall|k: int| 0 <= k < links.len() ==> !wanted(#[trigger] links[k]),
    ensures
        links.filter(wanted) == Seq::<LinkView>::empty(),
    decreases links.len(),
{
    reveal(Seq::filter);
    if links.len() > 0 {
        let front = links.drop_last();
        assert forall|k: int| 0 <= k < front.len() implies !wanted(#[trigger] front[k]) by {
            assert(front[k] == links[k]);
        }
        lemma_none_kept(front, wanted);
        assert(!wanted(links[links.len() - 1]));
    }
}

/// Putting a link into links that are in order puts it behind the links
/// with its key.
proof fn lemma_placed_behind_its_like(
    sorted: Seq<LinkView>,
    link: LinkView,
    by: GroupBy,
    key: Seq<char>,
)
    requires
        in_order(sorted, by),
    ensures
        placed(sorted, link, by).filter(keyed(by, key)) == if group_key(by)(link) == key {
            sorted.filter(keyed(by, key)).push(link)
        } else {
            sorted.filter(keyed(by, key))
        },
{
    let like = keyed(by, key);
    crate::search::lemma_first_where_sound(sorted, comes_after(by, link));
    match first_where(sorted, comes_after(by, link)) {
        Some(at) => {
            let before = sorted.take(at);
            let behind = sorted.skip(at);
            assert(sorted =~= before + behind);
            assert(sorted.insert(at, link) =~= before.push(link) + behind);
            Seq::filter_distributes_over_add(before, behind, like);
            Seq::filter_distributes_over_add(before.push(link), behind, like);
            before.lemma_filter_push(link, like);
            if group_key(by)(link) == key {
                // what stands behind `link` comes after it, so none of it has the key
                assert forall|k: int| 0 <= k < behind.len() implies !like(#[trigger] behind[k]) by {
                    assert(behind[k] == sorted[at + k]);
                    if like(behind[k]) {
                        if k == 0 {
                            crate::order::lemma_precedes_irreflexive(key);
                        } else {
                            assert(!precedes(
                                group_key(by)(sorted[at + k]),
                                group_key(by)(sorted[at]),
                            ));
                        }
                    }
                }
                lemma_none_kept(behind, like);
                assert(before.filter(like).push(link) + behind.filter(like) =~= (before.filter(like)
                    + behind.filter(like)).push(link));
            }
        },
        None => {
            sorted.lemma_filter_push(link, like);
        },
    }
}

/// Sorting is stable: links with the same key stay in the order they were
/// in.
pub proof fn lemma_sorted_links_keep_their_order(links: Seq<LinkView>, by: GroupBy, key: Seq<char>)
    ensures
        sorted_links(links, by).filter(keyed(by, key)) == links.filter(keyed(by, key)),
    decreases links.len(),
{
    if links.len() == 0 {
        assert(sorted_links(links, by) =~= links);
    } else {
        let front = links.drop_last();
        lemma_sorted_links_keep_their_order(front, by, key);
        lemma_sorted_links_in_order(front, by);
        lemma_placed_behind_its_like(sorted_links(front, by), links.last(), by, key);
        front.lemma_filter_push(links.last(), keyed(by, key));
        assert(front.push(links.last()) =~= links);
    }
}

/// The text that `link` is put in order by.
fn link_key(link: &Link, by: GroupBy) -> (key: &str)
    ensures
        key@ == group_key(by)(link@),
{
    match by {
        GroupBy::App => link.app_name(),
        GroupBy::Database => link.resource.as_str(),
    }
}

/// `links` in the order of `by`; links that `by` does not tell apart stay
/// in the order they were in.
pub fn sort_links(links: Vec<Link>, by: GroupBy) -> (sorted: Vec<Link>)
    ensures
        sorted.deep_view() == sorted_links(links.deep_view(), by),
        in_order(sorted.deep_view(), by),
        sorted.deep_view().to_multiset() == links.deep_view().to_multiset(),
{
    let ghost all = links.deep_view();
    proof {
        lemma_sorted_links_in_order(all, by);
        lemma_sorted_links_are_the_links(all, by);
    }
    let mut sorted: Vec<Link> = Vec::new();
    let mut links = links;
    let mut done: Ghost<Seq<LinkView>> = Ghost(Seq::empty());
    assert(sorted.deep_view() =~= sorted_links(done@, by));
    while links.len() > 0
        invariant
            done@ + links.deep_view() == all,
            sorted.deep_view() == sorted_links(done@, by),
        decreases links.len(),
    {
        let ghost pending = links.deep_view();
        let ghost before = sorted.deep_view();
        let link = links.remove(0);
        assert(links.deep_view() =~= pending.drop_first());
        let ghost later = comes_after(by, link@);
        let mut at: usize = 0;
        while at < sorted.len() && !text_lt(link_key(&link, by), link_key(&sorted[at], by))
            invariant
                at <= sorted.len(),
                before == sorted.deep_view(),
                later == comes_after(by, link@),
                forall|k: int| 0 <= k < at ==> !later(#[trigger] before[k]),
            decreases sorted.len() - at,
        {
            assert(before[at as int] == sorted[at as int]@);
            at += 1;
        }
        proof {
            if at < sorted.len() {
                assert(before[at as int] == sorted[at as int]@);
                lemma_first_where_found(before, later, at as int);
            } else {
                lemma_first_where_absent(before, later);
            }
            assert(done@.push(link@).drop_last() =~= done@);
        }
        sorted.insert(at, link);
        proof {
            assert(sorted.deep_view() =~= before.insert(at as int, pending[0]));
            assert(before.insert(before.len() as int, pending[0]) =~= before.push(pending[0]));
            assert(done@.push(pending[0]) + links.deep_view() =~= done@ + pending);
            done@ = done@.push(pending[0]);
        }
    }
    assert(done@ =~= all);
    sorted
}

/// How a link is shown in the row of its database.
pub open spec fn link_entry(link: LinkView) -> Seq<char> {
    link.app_name() + ":"@ + link.resource_label.label
}

/// One row for each run of links on one database: the database's name,
/// and the links of the run with `", "` between them.
pub open spec fn grouped(links: Seq<LinkView>) -> Seq<(Seq<char>, Seq<char>)>
    decreases links.len(),
{
    if links.len() == 0 {
        Seq::empty()
    } else {
        let groups = grouped(links.drop_last());
        let link = links.last();
        if groups.len() > 0 && groups.last().0 == link.resource {
            groups.drop_last().push(
                (link.resource, groups.last().1 + ", "@ + link_entry(link)),
            )
        } else {
            groups.push((link.resource, link_entry(link)))
        }
    }
}

/// One row for each run of links on one database: the database's name,
/// and the links of the run with `", "` between them.
pub fn group_links(links: &Vec<Link>) -> (groups: Vec<(String, String)>)
    ensures
        groups.deep_view() == grouped(links.deep_view()),
{
    let ghost all = links.deep_view();
    let mut groups: Vec<(String, String)> = Vec::new();
    assert(groups.deep_view() =~= grouped(all.take(0)));
    let mut i: usize = 0;
    while i < links.len()
        invariant
            i <= links.len(),
            all == links.deep_view(),
            groups.deep_view() == grouped(all.take(i as int)),
        decreases links.len() - i,
    {
        let link = &links[i];
        let ghost before = groups.deep_view();
        proof {
            assert(all[i as int] == link@);
            assert(all.take(i + 1).drop_last() =~= all.take(i as int));
            assert(all.take(i + 1).last() == link@);
        }
        let mut entry = String::from_str(link.app_name());
        entry.append(":");
        entry.append(link.resource_label.label.as_str());
        let same = groups.len() > 0 && groups[groups.len() - 1].0 == link.resource;
        proof {
            if groups.len() > 0 {
                assert(before.last() == groups[groups.len() - 1].deep_view());
            }
        }
        if same {
            let last = groups.pop().unwrap();
            assert(groups.deep_view() =~= before.drop_last());
            let ghost shortened = groups.deep_view();
            let mut text = last.1;
            text.append(", ");
            text.append(entry.as_str());
            groups.push((last.0, text));
            assert(groups.deep_view() =~= shortened.push(
                (link@.resource, before.last().1 + ", "@ + link_entry(link@)),
            ));
        } else {
            groups.push((link.resource.clone(), entry));
            assert(groups.deep_view() =~= before.push((link@.resource, link_entry(link@))));
        }
        i += 1;
    }
    assert(all.take(i as int) =~= all);
    groups
}

/// The row of a link in a listing by application.
pub open spec fn app_row() -> spec_fn(LinkView) -> Seq<Seq<char>> {
    |link: LinkView| seq![link.app_name(), link.resource_label.label, link.resource]
}

/// The row of a database without links in a listing by application.
pub open spec fn name_row() -> spec_fn(Seq<char>) -> Seq<Seq<char>> {
    |name: Seq<char>| seq![name]
}

/// The row of a database without links in a listing by database.
pub open spec fn bare_row() -> spec_fn(Seq<char>) -> Seq<Seq<char>> {
    |name: Seq<char>| seq![name, "-"@]
}

/// The row of a database with links in a listing by database.
pub open spec fn group_row() -> spec_fn((Seq<char>, Seq<char>)) -> Seq<Seq<char>> {
    |group: (Seq<char>, Seq<char>)| seq![group.0, group.1]
}

/// The rows of `links` in a listing by application.
pub fn app_rows(links: &Vec<Link>) -> (rows: Vec<Vec<String>>)
    ensures
        rows.deep_view() == links.deep_view().map_values(app_row()),
{
    let mut rows: Vec<Vec<String>> = Vec::new();
    let mut i: usize = 0;
    while i < links.len()
        invariant
            i <= links.len(),
            rows.len() == i,
            forall|j: int|
                0 <= j < i ==> (#[trigger] rows[j]).deep_view() == app_row()(links.deep_view()[j]),
        decreases links.len() - i,
    {
        let link = &links[i];
        assert(links.deep_view()[i as int] == link@);
        let mut row: Vec<String> = Vec::new();
        row.push(String::from_str(link.app_name()));
        row.push(link.resource_label.label.clone());
        row.push(link.resource.clone());
        assert(row.deep_view() =~= app_row()(link@));
        rows.push(row);
        i += 1;
    }
    assert(rows.deep_view() =~= links.deep_view().map_values(app_row()));
    rows
}

/// One row for each of `names`: the name, and `filler` behind it where
/// there is one.
pub fn name_rows(names: &Vec<String>, filler: Option<&str>) -> (rows: Vec<Vec<String>>)
    ensures
        rows.deep_view() == names.deep_view().map_values(
            |name: Seq<char>|
                match filler {
                    Some(text) => seq![name, text@],
                    None => seq![name],
                },
        ),
{
    let ghost shape = |name: Seq<char>|
        match filler {
            Some(text) => seq![name, text@],
            None => seq![name],
        };
    let mut rows: Vec<Vec<String>> = Vec::new();
    let mut i: usize = 0;
    while i < names.len()
        invariant
            i <= names.len(),
            rows.len() == i,
            shape == (|name: Seq<char>|
                match filler {
                    Some(text) => seq![name, text@],
                    None => seq![name],
                }),
            forall|j: int|
                0 <= j < i ==> (#[trigger] rows[j]).deep_view() == shape(names.deep_view()[j]),
        decreases names.len() - i,
    {
        assert(names.deep_view()[i as int] == names[i as int]@);
        let mut row: Vec<String> = Vec::new();
        row.push(names[i].clone());
        match filler {
            Some(text) => {
                row.push(String::from_str(text));
            },
            None => {},
        }
        assert(row.deep_view() =~= shape(names[i as int]@));
        rows.push(row);
        i += 1;
    }
    assert(rows.deep_view() =~= names.deep_view().map_values(shape));
    rows
}

/// The rows of `groups` in a listing by database.
pub fn group_rows(groups: Vec<(String, String)>) -> (rows: Vec<Vec<String>>)
    ensures
        rows.deep_view() == groups.deep_view().map_values(group_row()),
{
    let mut rows: Vec<Vec<String>> = Vec::new();
    let mut i: usize = 0;
    while i < groups.len()
        invariant
            i <= groups.len(),
            rows.len() == i,
            forall|j: int|
                0 <= j < i ==> (#[trigger] rows[j]).deep_view() == group_row()(
                    groups.deep_view()[j],
                ),
        decreases groups.len() - i,
    {
        assert(groups.deep_view()[i as int] == groups[i as int].deep_view());
        let mut row: Vec<String> = Vec::new();
        row.push(groups[i].0.clone());
        row.push(groups[i].1.clone());
        assert(row.deep_view() =~= group_row()(groups[i as int].deep_view()));
        rows.push(row);
        i += 1;
    }
    assert(rows.deep_view() =~= groups.deep_view().map_values(group_row()));
    rows
}

/// The title of the table of the databases without links.
pub const UNLINKED_TITLE: &'static str = "Databases not linked to any app";

/// The line shown where the account has no database.
pub const NO_DATABASES: &'static str = "No databases";

/// What was being done when the listing of the databases failed.
pub const LISTING_CONTEXT: &'static str = "Problem listing databases";

/// The header of a listing by application.
pub open spec fn apps_header() -> Seq<Seq<char>> {
    seq!["App"@, "Label"@, "Database"@]
}

/// The header of the table of the databases without links.
pub open spec fn unlinked_header() -> Seq<Seq<char>> {
    seq!["Database"@]
}

/// The header of a listing by database.
pub open spec fn databases_header() -> Seq<Seq<char>> {
    seq!["Database"@, "Links"@]
}

/// The outputs of a listing, or the failure to draw it.
pub type Outputs = Result<Vec<Request>, CommandError>;

/// The mathematical value of an [`Outputs`].
pub type OutputsView = Result<Seq<RequestView>, CommandErrorView>;

/// The mathematical value of `outputs`.
pub open spec fn outputs_view(outputs: Outputs) -> OutputsView {
    match outputs {
        Ok(requests) => Ok(requests.deep_view()),
        Err(error) => Err(error@),
    }
}

/// What a listing by application shows: the table of the links and, where
/// some database has no link, the table of those databases under its
/// title. A name that is too long for a table makes the listing fail.
pub open spec fn apps_output(links: Seq<LinkView>, databases_without_links: Seq<Seq<char>>)
    -> OutputsView {
    let rows = sorted_links(links, GroupBy::App).map_values(app_row());
    let unlinked = databases_without_links.map_values(name_row());
    if !drawable(apps_header(), rows) {
        Err(CommandErrorView::Undrawable)
    } else if databases_without_links.len() == 0 {
        Ok(seq![RequestView::Say { line: table_text(CONDENSED_BORDERS@, apps_header(), rows) }])
    } else if !drawable(unlinked_header(), unlinked) {
        Err(CommandErrorView::Undrawable)
    } else {
        Ok(
            seq![
                RequestView::Say { line: table_text(CONDENSED_BORDERS@, apps_header(), rows) },
                RequestView::Say { line: UNLINKED_TITLE@ },
                RequestView::Say { line: table_text(FULL_BORDERS@, unlinked_header(), unlinked) },
            ],
        )
    }
}

/// What a listing by database shows: one table, with the databases
/// without links first and then one row for each database with links. A
/// name that is too long for a table makes the listing fail.
pub open spec fn databases_output(links: Seq<LinkView>, databases_without_links: Seq<Seq<char>>)
    -> OutputsView {
    let rows = databases_without_links.map_values(bare_row()) + grouped(
        sorted_links(links, GroupBy::Database),
    ).map_values(group_row());
    if !drawable(databases_header(), rows) {
        Err(CommandErrorView::Undrawable)
    } else {
        Ok(
            seq![
                RequestView::Say { line: table_text(CONDENSED_BORDERS@, databases_header(), rows) },
            ],
        )
    }
}

/// The header with the titles given.
fn header_of(titles: &[&str]) -> (header: Vec<String>)
    ensures
        header.deep_view() == titles@.map_values(|title: &str| title@),
{
    let mut header: Vec<String> = Vec::new();
    let mut i: usize = 0;
    while i < titles.len()
        invariant
            i <= titles.len(),
            header.len() == i,
            forall|j: int| 0 <= j < i ==> (#[trigger] header[j])@ == titles[j]@,
        decreases titles.len() - i,
    {
        header.push(String::from_str(titles[i]));
        i += 1;
    }
    assert(header.deep_view() =~= titles@.map_values(|title: &str| title@));
    header
}

/// The requests that show `links` by application, and below them the
/// databases without links.
pub fn print_apps(links: Vec<Link>, databases_without_links: Vec<String>) -> (output: Outputs)
    ensures
        outputs_view(output) == apps_output(
            links.deep_view(),
            databases_without_links.deep_view(),
        ),
{
    let sorted = sort_links(links, GroupBy::App);
    let header = header_of(&["App", "Label", "Database"]);
    assert(header.deep_view() =~= apps_header());
    let rows = app_rows(&sorted);
    let linked = match draw_table(CONDENSED_BORDERS, &header, &rows) {
        Some(text) => text,
        None => {
            return Err(CommandError::Undrawable);
        },
    };
    let mut output: Vec<Request> = Vec::new();
    output.push(Request::Say { line: linked });
    let title = header_of(&["Database"]);
    assert(title.deep_view() =~= unlinked_header());
    let unlinked = name_rows(&databases_without_links, None);
    assert(unlinked.deep_view() =~= databases_without_links.deep_view().map_values(name_row()));
    if databases_without_links.len() > 0 {
        match draw_table(FULL_BORDERS, &title, &unlinked) {
            Some(text) => {
                output.push(Request::Say { line: String::from_str(UNLINKED_TITLE) });
                output.push(Request::Say { line: text });
            },
            None => {
                return Err(CommandError::Undrawable);
            },
        }
    }
    assert(outputs_view(Ok(output)) =~= apps_output(
        links.deep_view(),
        databases_without_links.deep_view(),
    )) by {
        let wanted = apps_output(links.deep_view(), databases_without_links.deep_view());
        assert(wanted is Ok);
        assert(output.deep_view() =~= wanted->Ok_0);
    }
    Ok(output)
}

/// The requests that show `links` by database, with the databases without
/// links first.
pub fn print_databases(links: Vec<Link>, databases_without_links: Vec<String>) -> (output: Outputs)
    ensures
        outputs_view(output) == databases_output(
            links.deep_view(),
            databases_without_links.deep_view(),
        ),
{
    let sorted = sort_links(links, GroupBy::Database);
    let header = header_of(&["Database", "Links"]);
    assert(header.deep_view() =~= databases_header());
    let mut rows = name_rows(&databases_without_links, Some("-"));
    assert(rows.deep_view() =~= databases_without_links.deep_view().map_values(bare_row()));
    let mut more = group_rows(group_links(&sorted));
    let ghost first = rows.deep_view();
    let ghost second = more.deep_view();
    rows.append(&mut more);
    assert(rows.deep_view() =~= first + second);
    match draw_table(CONDENSED_BORDERS, &header, &rows) {
        Some(text) => {
            let mut output: Vec<Request> = Vec::new();
            output.push(Request::Say { line: text });
            assert(output.deep_view() =~= seq![
                RequestView::Say {
                    line: table_text(CONDENSED_BORDERS@, databases_header(), first + second),
                },
            ]);
            Ok(output)
        },
        None => Err(CommandError::Undrawable),
    }
}

/// The format of a listing.
#[derive(Clone, Copy, Debug, PartialEq, Eq)]
pub enum ListFormat {
    /// Tables.
    Table,
    /// JSON.
    Json,
}

/// List all your SQLite databases.
#[derive(Debug, PartialEq, Eq)]
pub struct ListCommand {
    /// Filter list by an app.
    pub app: Option<String>,
    /// Filter list by a database.
    pub database: Option<String>,
    /// Grouping strategy of tabular list; by app where none is given.
    pub group_by: Option<GroupBy>,
    /// Format of list.
    pub format: ListFormat,
}

/// The mathematical value of a [`ListCommand`].
pub ghost struct ListCommandView {
    pub app: Option<Seq<char>>,
    pub database: Option<Seq<char>>,
    pub group_by: Option<GroupBy>,
    pub format: ListFormat,
}

impl View for ListCommand {
    type V = ListCommandView;

    open spec fn view(&self) -> ListCommandView {
        ListCommandView {
            app: self.app.deep_view(),
            database: self.database.deep_view(),
            group_by: self.group_by,
            format: self.format,
        }
    }
}

/// A list command under way.
#[derive(Debug, PartialEq, Eq)]
pub enum ListFlow {
    /// Waiting for the databases of the account.
    Listing { command: ListCommand },
    /// Waiting for a part of the listing to be shown; `pending` holds the
    /// parts that follow.
    Showing { pending: Vec<Request> },
}

/// The mathematical value of a [`ListFlow`].
pub ghost enum ListFlowView {
    Listing { command: ListCommandView },
    Showing { pending: Seq<RequestView> },
}

impl View for ListFlow {
    type V = ListFlowView;

    open spec fn view(&self) -> ListFlowView {
        match self {
            ListFlow::Listing { command } => ListFlowView::Listing { command: command@ },
            ListFlow::Showing { pending } => ListFlowView::Showing { pending: pending.deep_view() },
        }
    }
}

impl DeepView for ListFlow {
    type V = ListFlowView;

    open spec fn deep_view(&self) -> ListFlowView {
        self@
    }
}

impl ListCommandView {
    /// What the command shows of `databases` as JSON: the databases,
    /// without those that the application asked for does not use.
    pub open spec fn print_json(self, databases: Seq<DatabaseView>) -> OutputsView {
        let kept = match self.app {
            Some(app) => databases.filter(used_by(app)),
            None => databases,
        };
        Ok(seq![RequestView::Json { databases: kept.map_values(json_database()) }])
    }

    /// What the command shows of `databases` in tables: the links, without
    /// those of other applications than the one asked for, by application
    /// or by database; or one line where no link is left.
    pub open spec fn print_table(self, databases: Seq<DatabaseView>) -> OutputsView {
        let databases_without_links = databases.filter(unlinked()).map_values(name_of());
        let links = match self.app {
            Some(app) => all_links(databases).filter(of_app(app)),
            None => all_links(databases),
        };
        if self.app is Some && links.len() == 0 {
            Ok(
                seq![
                    RequestView::Say {
                        line: "No databases linked to an app named '"@ + self.app->Some_0 + "'"@,
                    },
                ],
            )
        } else {
            match self.group_by {
                Some(GroupBy::Database) => databases_output(links, databases_without_links),
                _ => apps_output(links, databases_without_links),
            }
        }
    }

    /// What the command shows of `databases`, part by part.
    pub open spec fn outputs(self, databases: Seq<DatabaseView>) -> OutputsView {
        let kept = match self.database {
            Some(name) => databases.filter(named(name)),
            None => databases,
        };
        if databases.len() == 0 {
            Ok(seq![RequestView::Say { line: NO_DATABASES@ }])
        } else if self.database is Some && kept.len() == 0 {
            Ok(
                seq![
                    RequestView::Say {
                        line: "No database with name '"@ + self.database->Some_0 + "'"@,
                    },
                ],
            )
        } else {
            match self.format {
                ListFormat::Json => self.print_json(kept),
                ListFormat::Table => self.print_table(kept),
            }
        }
    }

    /// The first step: a grouped listing in JSON is refused, and any other
    /// asks for the databases of the account.
    pub open spec fn run(self) -> ProgressView<ListFlowView, ()> {
        if self.format == ListFormat::Json && self.group_by is Some {
            ProgressView::Done(Err(CommandErrorView::GroupedJson))
        } else {
            ProgressView::Continue(
                ListFlowView::Listing { command: self },
                RequestView::ListDatabases { app_id: None },
            )
        }
    }
}

impl ListFlowView {
    /// The step that shows the first of `outputs`, or ends the command
    /// where nothing is left to show.
    pub open spec fn show(outputs: Seq<RequestView>) -> ProgressView<ListFlowView, ()> {
        if outputs.len() == 0 {
            ProgressView::Done(Ok(()))
        } else {
            ProgressView::Continue(
                ListFlowView::Showing { pending: outputs.drop_first() },
                outputs[0],
            )
        }
    }

    /// The step that the command takes on `reply`.
    pub open spec fn resume(self, reply: ReplyView) -> ProgressView<ListFlowView, ()> {
        match (self, reply) {
            (ListFlowView::Listing { command }, ReplyView::Databases(databases)) => {
                match command.outputs(databases) {
                    Ok(outputs) => Self::show(outputs),
                    Err(error) => ProgressView::Done(Err(error)),
                }
            },
            (ListFlowView::Listing { .. }, _) => ProgressView::Done(
                Err(reply.rejection(Some(LISTING_CONTEXT@))),
            ),
            (ListFlowView::Showing { pending }, ReplyView::Completed) => Self::show(pending),
            _ => ProgressView::Done(Err(reply.rejection(None))),
        }
    }
}

/// The line `head`, `name`, `tail`, as the only part of a listing.
fn one_line(head: &str, name: &str, tail: &str) -> (output: Vec<Request>)
    ensures
        output.deep_view() == seq![RequestView::Say { line: head@ + name@ + tail@ }],
        outputs_view(Ok(output)) == Ok::<Seq<RequestView>, CommandErrorView>(
            seq![RequestView::Say { line: head@ + name@ + tail@ }],
        ),
{
    let mut line = String::from_str(head);
    line.append(name);
    line.append(tail);
    let mut output: Vec<Request> = Vec::new();
    output.push(Request::Say { line });
    assert(output.deep_view() =~= seq![RequestView::Say { line: head@ + name@ + tail@ }]);
    output
}

impl ListCommand {
    /// Starts the command: unless it asks for a grouped listing in JSON,
    /// the workflow asks for the databases of the account.
    pub fn run(self) -> (first: Progress<ListFlow, ()>)
        ensures
            first.deep_view() == self@.run(),
    {
        let grouped_json = match (&self.format, &self.group_by) {
            (ListFormat::Json, Some(_)) => true,
            _ => false,
        };
        if grouped_json {
            Progress::Done(Err(CommandError::GroupedJson))
        } else {
            Progress::Continue(
                ListFlow::Listing { command: self },
                Request::ListDatabases { app_id: None },
            )
        }
    }

    /// The request that shows `databases` as JSON, without those that the
    /// application asked for does not use.
    pub fn print_json(&self, databases: Vec<Database>) -> (output: Outputs)
        ensures
            outputs_view(output) == self@.print_json(databases.deep_view()),
    {
        let kept = match &self.app {
            Some(app) => keep_databases(databases, &Keep::UsedBy(app.clone())),
            None => databases,
        };
        let mut output: Vec<Request> = Vec::new();
        output.push(Request::Json { databases: json_list(&kept) });
        assert(output.deep_view() =~= self@.print_json(databases.deep_view())->Ok_0);
        Ok(output)
    }

    /// The requests that show `databases` in tables.
    pub fn print_table(&self, databases: Vec<Database>) -> (output: Outputs)
        ensures
            outputs_view(output) == self@.print_table(databases.deep_view()),
    {
        let databases_without_links = unlinked_names(&databases);
        let links = collect_links(&databases);
        let links = match &self.app {
            Some(name) => {
                let kept = links_of_app(links, name.as_str());
                if kept.len() == 0 {
                    return Ok(
                        one_line("No databases linked to an app named '", name.as_str(), "'"),
                    );
                }
                kept
            },
            None => links,
        };
        match self.group_by {
            Some(GroupBy::Database) => print_databases(links, databases_without_links),
            _ => print_apps(links, databases_without_links),
        }
    }

    /// The requests that show `databases`, part by part: one line where
    /// there is no database, or none of the name asked for, and else the
    /// listing in the format asked for.
    pub fn outputs(&self, databases: Vec<Database>) -> (output: Outputs)
        ensures
            outputs_view(output) == self@.outputs(databases.deep_view()),
    {
        if databases.len() == 0 {
            let mut output: Vec<Request> = Vec::new();
            output.push(Request::Say { line: String::from_str(NO_DATABASES) });
            assert(output.deep_view() =~= seq![RequestView::Say { line: NO_DATABASES@ }]);
            return Ok(output);
        }
        let kept = match &self.database {
            Some(name) => {
                let kept = keep_databases(databases, &Keep::Called(name.clone()));
                if kept.len() == 0 {
                    return Ok(one_line("No database with name '", name.as_str(), "'"));
                }
                kept
            },
            None => databases,
        };
        match self.format {
            ListFormat::Json => self.print_json(kept),
            ListFormat::Table => self.print_table(kept),
        }
    }
}

impl ListFlow {
    fn show(outputs: Vec<Request>) -> (step: Progress<ListFlow, ()>)
        ensures
            step.deep_view() == ListFlowView::show(outputs.deep_view()),
    {
        let mut pending = outputs;
        if pending.len() == 0 {
            Progress::Done(Ok(()))
        } else {
            let request = pending.remove(0);
            assert(pending.deep_view() =~= outputs.deep_view().drop_first());
            Progress::Continue(ListFlow::Showing { pending }, request)
        }
    }

    /// Takes the command one step further with the reply to its request.
    pub fn resume(self, reply: Reply) -> (next: Progress<ListFlow, ()>)
        ensures
            next.deep_view() == self@.resume(reply@),
    {
        match self {
            ListFlow::Listing { command } => match reply {
                Reply::Databases(databases) => match command.outputs(databases) {
                    Ok(outputs) => ListFlow::show(outputs),
                    Err(error) => Progress::Done(Err(error)),
                },
                other => Progress::Done(Err(other.rejection(Some(LISTING_CONTEXT)))),
            },
            ListFlow::Showing { pending } => match reply {
                Reply::Completed => ListFlow::show(pending),
                other => Progress::Done(Err(other.rejection(None))),
            },
        }
    }
}

impl ListFlowView {
    /// The most requests that the command may still make after the one it
    /// waits on.
    pub open spec fn remaining(self) -> nat {
        match self {
            ListFlowView::Listing { command } => 4,
            ListFlowView::Showing { pending } => pending.len(),
        }
    }
}

/// A listing shows three parts at most, and changes nothing in the
/// catalog.
pub proof fn lemma_listing_has_few_parts(command: ListCommandView, databases: Seq<DatabaseView>)
    ensures
        command.outputs(databases) matches Ok(outputs) ==> {
            &&& 1 <= outputs.len() <= 3
            &&& forall|i: int| 0 <= i < outputs.len() ==> !(#[trigger] outputs[i]).is_mutation()
        },
{
}

/// Every step of a list command brings it nearer to its end, and none of
/// its requests changes the catalog.
pub proof fn lemma_list_steps_run_out(flow: ListFlowView, reply: ReplyView)
    requires
        flow matches ListFlowView::Showing { pending } ==> forall|i: int|
            0 <= i < pending.len() ==> !(#[trigger] pending[i]).is_mutation(),
    ensures
        flow.resume(reply) matches ProgressView::Continue(next, request) ==> {
            &&& next.remaining() < flow.remaining()
            &&& !request.is_mutation()
            &&& next matches ListFlowView::Showing { pending } && forall|i: int|
                0 <= i < pending.len() ==> !(#[trigger] pending[i]).is_mutation()
        },
{
    match (flow, reply) {
        (ListFlowView::Listing { command }, ReplyView::Databases(databases)) => {
            lemma_listing_has_few_parts(command, databases);
            if let Ok(outputs) = command.outputs(databases) {
                assert forall|i: int| 0 <= i < outputs.drop_first().len() implies !(
                #[trigger] outputs.drop_first()[i]).is_mutation() by {
                    assert(outputs.drop_first()[i] == outputs[i + 1]);
                }
            }
        },
        (ListFlowView::Showing { pending }, ReplyView::Completed) => {
            if pending.len() > 0 {
                assert forall|i: int| 0 <= i < pending.drop_first().len() implies !(
                #[trigger] pending.drop_first()[i]).is_mutation() by {
                    assert(pending.drop_first()[i] == pending[i + 1]);
                }
            }
        },
        _ => {},
    }
}

} // verus!
