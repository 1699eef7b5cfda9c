//! Whole runs of a provisioning and of a reconciliation: what they ask of
//! the catalog from their first request to their end, and what they leave
//! in it when the host is faithful.

use crate::catalog::{
    all_exist, creates, done_after, faithful, lemma_provisioning_settles_on_databases,
    lemma_reconciliation_binds_its_labels, on_course, on_its_way, settled,
};
use crate::deploy::{
    labels_of, lemma_provisioning_keeps_its_labels, ExistingAppFlowView, ExistingAppProgressView,
    ExistingAppStageView, NewAppFlowView, NewAppProgressView, NewAppStageView, PairsView,
};
use crate::model::{DatabaseView, ResourceLabelView};
use crate::protocol::{after, mutations_made, ProgressView, ReplyView, RequestView};
use crate::strategy::{lemma_prompting_only_asks, InteractionStrategy};
use vstd::prelude::*;

verus! {

/// The host is faithful all along a run: the workflow that stands at
/// `start`, with the catalog holding `catalog`, is given `replies` one
/// after the other, and `catalogs` are what the catalog holds after each.
pub open spec fn faithful_run<M, T>(
    steps: spec_fn(M, ReplyView) -> ProgressView<M, T>,
    start: ProgressView<M, T>,
    catalog: Seq<DatabaseView>,
    replies: Seq<ReplyView>,
    catalogs: Seq<Seq<DatabaseView>>,
) -> bool
    decreases replies.len(),
{
    &&& catalogs.len() == replies.len()
    &&& match start {
        ProgressView::Continue(machine, request) if replies.len() > 0 => {
            &&& faithful(catalog, request, replies[0], catalogs[0])
            &&& faithful_run(
                steps,
                steps(machine, replies[0]),
                catalogs[0],
                replies.drop_first(),
                catalogs.drop_first(),
            )
        },
        _ => true,
    }
}

/// What the catalog holds once the run is over: when the workflow has
/// ended, or the replies have run out.
pub open spec fn held_after<M, T>(
    steps: spec_fn(M, ReplyView) -> ProgressView<M, T>,
    start: ProgressView<M, T>,
    catalog: Seq<DatabaseView>,
    replies: Seq<ReplyView>,
    catalogs: Seq<Seq<DatabaseView>>,
) -> Seq<DatabaseView>
    decreases replies.len(),
{
    match start {
        ProgressView::Continue(machine, _) if replies.len() > 0 && catalogs.len() > 0 => held_after(
            steps,
            steps(machine, replies[0]),
            catalogs[0],
            replies.drop_first(),
            catalogs.drop_first(),
        ),
        _ => catalog,
    }
}

/// The steps of a reconciliation.
pub open spec fn reconciliation_steps<S: InteractionStrategy>() -> spec_fn(
    ExistingAppFlowView<S>,
    ReplyView,
) -> ExistingAppProgressView<S> {
    |flow: ExistingAppFlowView<S>, reply: ReplyView| flow.resume(reply)
}

/// The steps of a provisioning.
pub open spec fn provisioning_steps<S: InteractionStrategy>() -> spec_fn(
    NewAppFlowView<S>,
    ReplyView,
) -> NewAppProgressView<S> {
    |flow: NewAppFlowView<S>, reply: ReplyView| flow.resume(reply)
}

/// The labels that a reconciliation, or a provisioning, has still to see
/// to: the one at hand and those to come.
pub open spec fn ahead(label: Seq<char>, rest: Seq<Seq<char>>) -> Seq<Seq<char>> {
    seq![label] + rest
}

/// A reconciliation that ends well against a faithful host has bound every
/// label, the done ones and those that were ahead, in what the catalog
/// holds at its end.
pub proof fn lemma_reconciliation_run_binds_its_labels<S: InteractionStrategy>(
    flow: ExistingAppFlowView<S>,
    request: RequestView,
    catalog: Seq<DatabaseView>,
    done: Seq<Seq<char>>,
    replies: Seq<ReplyView>,
    catalogs: Seq<Seq<DatabaseView>>,
)
    requires
        on_its_way(flow, request, catalog, done),
        faithful_run(
            reconciliation_steps::<S>(),
            ProgressView::Continue(flow, request),
            catalog,
            replies,
            catalogs,
        ),
    ensures
        after(
            reconciliation_steps::<S>(),
            ProgressView::Continue(flow, request),
            replies,
        ) matches ProgressView::Done(Ok(Some(_))) ==> settled(
            held_after(
                reconciliation_steps::<S>(),
                ProgressView::Continue(flow, request),
                catalog,
                replies,
                catalogs,
            ),
            flow.app_name,
            done + ahead(flow.label, flow.rest),
        ),
    decreases replies.len(),
{
    reveal_with_fuel(after, 2);
    reveal_with_fuel(held_after, 2);
    reveal_with_fuel(faithful_run, 2);
    if replies.len() > 0 {
        lemma_reconciliation_binds_its_labels(
            flow,
            request,
            replies[0],
            catalog,
            catalogs[0],
            done,
        );
        assert(done + ahead(flow.label, flow.rest) =~= done + seq![flow.label] + flow.rest);
        if let ProgressView::Continue(next, asked) = flow.resume(replies[0]) {
            let through = done_after(flow, next, done);
            lemma_reconciliation_run_binds_its_labels(
                next,
                asked,
                catalogs[0],
                through,
                replies.drop_first(),
                catalogs.drop_first(),
            );
            assert(through + ahead(next.label, next.rest) =~= through + seq![next.label]
                + next.rest);
        }
    }
}

/// A reconciliation waits on the request that goes with its stage: a
/// listing, a question of the resolution, or the creation of the link for
/// the label at hand.
pub open spec fn reconciling<S: InteractionStrategy>(
    flow: ExistingAppFlowView<S>,
    request: RequestView,
) -> bool {
    match flow.stage {
        ExistingAppStageView::Listing => !request.is_mutation(),
        ExistingAppStageView::Resolving(_) => !request.is_mutation(),
        ExistingAppStageView::Applying { .. } => creates(request, flow.resource_label()),
    }
}

/// The request creates the application's link under one of `labels`.
pub open spec fn links_one_of<S: InteractionStrategy>(
    request: RequestView,
    flow: ExistingAppFlowView<S>,
    labels: Seq<Seq<char>>,
) -> bool {
    exists|k: int|
        0 <= k < labels.len() && creates(
            request,
            ResourceLabelView {
                app_id: flow.app_id,
                label: #[trigger] labels[k],
                app_name: Some(flow.app_name),
            },
        )
}

/// The step of a reconciliation stays with its label, or goes on to the
/// next; a change that it has asked for is behind it either way.
proof fn lemma_reconciliation_step<S: InteractionStrategy>(
    flow: ExistingAppFlowView<S>,
    request: RequestView,
    reply: ReplyView,
)
    requires
        reconciling(flow, request),
    ensures
        flow.resume(reply) matches ProgressView::Continue(next, asked) ==> {
            &&& reconciling(next, asked)
            &&& next.app_id == flow.app_id && next.app_name == flow.app_name
            &&& {
                ||| next.label == flow.label && next.rest == flow.rest && !(flow.stage is Applying)
                ||| flow.rest.len() > 0 && next.label == flow.rest[0] && next.rest
                    == flow.rest.drop_first() && next.stage is Listing
            }
        },
{
    match flow.stage {
        ExistingAppStageView::Listing => {
            if let ReplyView::Databases(databases) = reply {
                flow.strategy.lemma_selection_respects_catalog(
                    flow.app_name,
                    flow.label,
                    databases,
                );
            }
        },
        ExistingAppStageView::Resolving(prompting) => {
            lemma_prompting_only_asks(prompting, reply);
        },
        ExistingAppStageView::Applying { .. } => {},
    }
}

/// A reconciliation changes the catalog once for each label at most,
/// however it is answered: the changes it asks for are no more than the
/// labels ahead, and each creates the application's link under one of
/// them.
pub proof fn lemma_reconciliation_changes_once_a_label<S: InteractionStrategy>(
    flow: ExistingAppFlowView<S>,
    request: RequestView,
    replies: Seq<ReplyView>,
)
    requires
        reconciling(flow, request),
    ensures
        ({
            let made = mutations_made(
                reconciliation_steps::<S>(),
                ProgressView::Continue(flow, request),
                replies,
            );
            &&& made.len() <= ahead(flow.label, flow.rest).len()
            &&& forall|i: int|
                0 <= i < made.len() ==> links_one_of(
                    #[trigger] made[i],
                    flow,
                    ahead(flow.label, flow.rest),
                )
        }),
    decreases replies.len(),
{
    reveal_with_fuel(mutations_made, 2);
    let steps = reconciliation_steps::<S>();
    let start = ProgressView::Continue(flow, request);
    let made = mutations_made(steps, start, replies);
    let labels = ahead(flow.label, flow.rest);
    let first = if request.is_mutation() {
        seq![request]
    } else {
        Seq::empty()
    };
    assert(labels[0] == flow.label);
    if request.is_mutation() {
        assert(links_one_of(request, flow, labels));
    }
    if replies.len() == 0 {
        assert(made =~= first);
    } else {
        lemma_reconciliation_step(flow, request, replies[0]);
        match flow.resume(replies[0]) {
            ProgressView::Continue(next, asked) => {
                let later = mutations_made(
                    steps,
                    ProgressView::Continue(next, asked),
                    replies.drop_first(),
                );
                lemma_reconciliation_changes_once_a_label(next, asked, replies.drop_first());
                assert(made =~= first + later);
                let ahead_then = ahead(next.label, next.rest);
                let shift: int = if next.rest.len() < flow.rest.len() {
                    1
                } else {
                    0
                };
                assert forall|k: int| 0 <= k < ahead_then.len() implies ahead_then[k]
                    == labels[k + shift] by {}
                assert forall|i: int| 0 <= i < made.len() implies links_one_of(
                    #[trigger] made[i],
                    flow,
                    labels,
                ) by {
                    if i >= first.len() {
                        let request_i = later[i - first.len()];
                        assert(links_one_of(request_i, next, ahead_then));
                        let k = choose|k: int|
                            0 <= k < ahead_then.len() && creates(
                                request_i,
                                ResourceLabelView {
                                    app_id: next.app_id,
                                    label: #[trigger] ahead_then[k],
                                    app_name: Some(next.app_name),
                                },
                            );
                        assert(labels[k + shift] == ahead_then[k]);
                    }
                }
            },
            ProgressView::Done(_) => {
                assert(made =~= first);
            },
        }
    }
}

/// A provisioning that ends with pairs against a faithful host has
/// settled each of its labels, in their order, on a database that is in
/// what the catalog holds at its end.
pub proof fn lemma_provisioning_run_settles_on_databases<S: InteractionStrategy>(
    flow: NewAppFlowView<S>,
    request: RequestView,
    catalog: Seq<DatabaseView>,
    replies: Seq<ReplyView>,
    catalogs: Seq<Seq<DatabaseView>>,
)
    requires
        on_course(flow, request, catalog),
        faithful_run(
            provisioning_steps::<S>(),
            ProgressView::Continue(flow, request),
            catalog,
            replies,
            catalogs,
        ),
    ensures
        after(
            provisioning_steps::<S>(),
            ProgressView::Continue(flow, request),
            replies,
        ) matches ProgressView::Done(Ok(Some(pairs))) ==> {
            &&& labels_of(pairs) == labels_of(flow.linked) + ahead(flow.label, flow.rest)
            &&& all_exist(
                held_after(
                    provisioning_steps::<S>(),
                    ProgressView::Continue(flow, request),
                    catalog,
                    replies,
                    catalogs,
                ),
                pairs,
            )
        },
    decreases replies.len(),
{
    reveal_with_fuel(after, 2);
    reveal_with_fuel(held_after, 2);
    reveal_with_fuel(faithful_run, 2);
    let labels = labels_of(flow.linked) + ahead(flow.label, flow.rest);
    assert(labels =~= labels_of(flow.linked) + seq![flow.label] + flow.rest);
    if replies.len() > 0 {
        lemma_provisioning_settles_on_databases(flow, request, replies[0], catalog, catalogs[0]);
        lemma_provisioning_keeps_its_labels(flow, replies[0], labels);
        if let ProgressView::Continue(next, asked) = flow.resume(replies[0]) {
            lemma_provisioning_run_settles_on_databases(
                next,
                asked,
                catalogs[0],
                replies.drop_first(),
                catalogs.drop_first(),
            );
            assert(labels_of(next.linked) + ahead(next.label, next.rest) =~= labels_of(
                next.linked,
            ) + seq![next.label] + next.rest);
        }
    }
}

/// A provisioning waits on the request that goes with its stage: a
/// listing, a question of the resolution, or the creation, unlinked, of
/// the database chosen for the label at hand.
pub open spec fn provisioning<S: InteractionStrategy>(
    flow: NewAppFlowView<S>,
    request: RequestView,
) -> bool {
    match flow.stage {
        NewAppStageView::Listing => !request.is_mutation(),
        NewAppStageView::Resolving(_) => !request.is_mutation(),
        NewAppStageView::Creating { database } => request == (RequestView::CreateDatabase {
            name: database,
            link: None,
        }),
    }
}

/// The step of a provisioning stays with its label and its pairs, or
/// settles the label and goes on to the next, or ends with the pairs; a
/// database that it has asked for is the one it settles the label on.
proof fn lemma_provisioning_step<S: InteractionStrategy>(
    flow: NewAppFlowView<S>,
    request: RequestView,
    reply: ReplyView,
)
    requires
        provisioning(flow, request),
    ensures
        match flow.resume(reply) {
            ProgressView::Continue(next, asked) => {
                &&& provisioning(next, asked)
                &&& {
                    ||| next.label == flow.label && next.rest == flow.rest && next.linked
                        == flow.linked && !(flow.stage is Creating)
                    ||| flow.rest.len() > 0 && next.label == flow.rest[0] && next.rest
                        == flow.rest.drop_first() && next.linked.len() == flow.linked.len() + 1
                        && next.linked.drop_last() == flow.linked && next.linked.last().1
                        == flow.label && (flow.stage matches NewAppStageView::Creating {
                        database,
                    } ==> next.linked.last().0 == database)
                }
            },
            ProgressView::Done(Ok(Some(pairs))) => {
                &&& flow.rest.len() == 0
                &&& pairs.len() == flow.linked.len() + 1
                &&& pairs.drop_last() == flow.linked
                &&& pairs.last().1 == flow.label
                &&& flow.stage matches NewAppStageView::Creating { database } ==> pairs.last().0
                    == database
            },
            ProgressView::Done(_) => true,
        },
{
    match flow.stage {
        NewAppStageView::Listing => {
            if let ReplyView::Databases(databases) = reply {
                flow.strategy.lemma_selection_respects_catalog(flow.name, flow.label, databases);
            }
        },
        NewAppStageView::Resolving(prompting) => {
            lemma_prompting_only_asks(prompting, reply);
        },
        NewAppStageView::Creating { .. } => {},
    }
    assert forall|database: Seq<char>| #[trigger]
        flow.linked.push((database, flow.label)).drop_last() == flow.linked by {
        assert(flow.linked.push((database, flow.label)).drop_last() =~= flow.linked);
    }
}

/// The request creates a database without a link.
pub open spec fn creates_unlinked(request: RequestView) -> bool {
    match request {
        RequestView::CreateDatabase { link: None, .. } => true,
        _ => false,
    }
}

/// The request creates, unlinked, the database that stands in `pairs` at
/// `at`.
pub open spec fn creates_database_at(request: RequestView, pairs: PairsView, at: int) -> bool {
    0 <= at < pairs.len() && request == (RequestView::CreateDatabase {
        name: pairs[at].0,
        link: None,
    })
}

/// The database that the request creates, unlinked, stands in `pairs`, no
/// sooner than at `from`, beside the label that `ahead` has for its place.
pub open spec fn settled_on(
    request: RequestView,
    pairs: PairsView,
    from: int,
    ahead: Seq<Seq<char>>,
) -> bool {
    exists|at: int|
        from <= at && #[trigger] creates_database_at(request, pairs, at) && pairs[at].1
            == ahead[at - from]
}

/// A provisioning changes the catalog once for each label at most, however
/// it is answered, and by nothing but the creation of a database that has
/// no link. Where it ends with pairs, these are the pairs it had with one
/// more for each label that was ahead, and each database that it created
/// stands in them beside the label that it was created for.
pub proof fn lemma_provisioning_creates_what_it_settles_on<S: InteractionStrategy>(
    flow: NewAppFlowView<S>,
    request: RequestView,
    replies: Seq<ReplyView>,
)
    requires
        provisioning(flow, request),
    ensures
        ({
            let start = ProgressView::Continue(flow, request);
            let made = mutations_made(provisioning_steps::<S>(), start, replies);
            &&& made.len() <= ahead(flow.label, flow.rest).len()
            &&& forall|i: int| 0 <= i < made.len() ==> creates_unlinked(#[trigger] made[i])
            &&& match after(provisioning_steps::<S>(), start, replies) {
                ProgressView::Done(Ok(Some(pairs))) => {
                    &&& pairs.len() == flow.linked.len() + ahead(flow.label, flow.rest).len()
                    &&& pairs.take(flow.linked.len() as int) == flow.linked
                    &&& forall|i: int|
                        0 <= i < made.len() ==> settled_on(
                            #[trigger] made[i],
                            pairs,
                            flow.linked.len() as int,
                            ahead(flow.label, flow.rest),
                        )
                },
                _ => true,
            }
        }),
    decreases replies.len(),
{
    reveal_with_fuel(mutations_made, 2);
    reveal_with_fuel(after, 2);
    let steps = provisioning_steps::<S>();
    let start = ProgressView::Continue(flow, request);
    let made = mutations_made(steps, start, replies);
    let labels = ahead(flow.label, flow.rest);
    let had = flow.linked.len() as int;
    let first = if request.is_mutation() {
        seq![request]
    } else {
        Seq::empty()
    };
    if replies.len() == 0 {
        assert(made =~= first);
    } else {
        lemma_provisioning_step(flow, request, replies[0]);
        match flow.resume(replies[0]) {
            ProgressView::Continue(next, asked) => {
                let later = mutations_made(
                    steps,
                    ProgressView::Continue(next, asked),
                    replies.drop_first(),
                );
                lemma_provisioning_creates_what_it_settles_on(next, asked, replies.drop_first());
                assert(made =~= first + later);
                let ahead_then = ahead(next.label, next.rest);
                let shift: int = next.linked.len() - had;
                assert forall|k: int| 0 <= k < ahead_then.len() implies ahead_then[k]
                    == labels[k + shift] by {}
                if let ProgressView::Done(Ok(Some(pairs))) = after(steps, start, replies) {
                    assert(pairs.take(had) =~= flow.linked) by {
                        assert(pairs.take(next.linked.len() as int) == next.linked);
                        if shift == 1 {
                            assert(pairs.take(had) =~= pairs.take(had + 1).drop_last());
                        }
                    }
                    assert forall|i: int| 0 <= i < made.len() implies settled_on(
                        #[trigger] made[i],
                        pairs,
                        had,
                        labels,
                    ) by {
                        if i < first.len() {
                            // the database asked for is settled on by the next step
                            assert(shift == 1);
                            assert(pairs.take(had + 1)[had] == next.linked[had]);
                            assert(creates_database_at(made[i], pairs, had));
                        } else {
                            let request_i = later[i - first.len()];
                            assert(settled_on(
                                request_i,
                                pairs,
                                next.linked.len() as int,
                                ahead_then,
                            ));
                            let at = choose|at: int|
                                next.linked.len() <= at && #[trigger] creates_database_at(
                                    request_i,
                                    pairs,
                                    at,
                                ) && pairs[at].1 == ahead_then[at - next.linked.len()];
                            assert(creates_database_at(made[i], pairs, at));
                            assert(labels[at - had] == ahead_then[at - next.linked.len()]);
                        }
                    }
                }
            },
            ProgressView::Done(outcome) => {
                assert(made =~= first);
                if let Ok(Some(pairs)) = outcome {
                    assert(pairs.take(had) =~= pairs.drop_last());
                    assert forall|i: int| 0 <= i < made.len() implies settled_on(
                        #[trigger] made[i],
                        pairs,
                        had,
                        labels,
                    ) by {
                        assert(creates_database_at(made[i], pairs, had));
                    }
                }
            },
        }
    }
}

/// A reconciliation and a provisioning set out as the theorems on whole
/// runs ask: waiting on a listing, with all their labels ahead and, for a
/// provisioning, no pair yet.
pub proof fn lemma_runs_set_out<S: InteractionStrategy>(
    strategy: S,
    name: Seq<char>,
    app_id: crate::model::AppId,
    labels: Seq<Seq<char>>,
    catalog: Seq<DatabaseView>,
)
    ensures
        match ExistingAppFlowView::proceed(strategy, name, app_id, labels) {
            ProgressView::Continue(flow, request) => {
                &&& reconciling(flow, request)
                &&& on_its_way(flow, request, catalog, Seq::empty())
                &&& ahead(flow.label, flow.rest) == labels
            },
            ProgressView::Done(_) => labels.len() == 0,
        },
        match NewAppFlowView::proceed(strategy, name, labels, Seq::empty()) {
            ProgressView::Continue(flow, request) => {
                &&& provisioning(flow, request)
                &&& on_course(flow, request, catalog)
                &&& flow.linked.len() == 0
                &&& ahead(flow.label, flow.rest) == labels
            },
            ProgressView::Done(_) => labels.len() == 0,
        },
{
    if labels.len() > 0 {
        assert(ahead(labels[0], labels.drop_first()) =~= labels);
    }
}

} // verus!
