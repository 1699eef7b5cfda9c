//! Finding a name that no database has yet.
//!
//! Names come from outside, one proposal at a time. A search accepts the
//! first proposal that is not taken and gives up after a fixed number of
//! attempts.

use crate::error::{CommandError, CommandErrorView};
use crate::protocol::{Progress, ProgressView, Reply, ReplyView, Request, RequestView};
use crate::text::text_eq;
use vstd::prelude::*;

verus! {

/// The number of proposals that a default database name may take.
pub const NAME_GENERATION_MAX_ATTEMPTS: usize = 100;

/// Whether `name` is one of `taken`.
pub fn is_taken(taken: &Vec<String>, name: &str) -> (found: bool)
    ensures
        found == taken.deep_view().contains(name@),
{
    let mut i: usize = 0;
    while i < taken.len()
        invariant
            i <= taken.len(),
            forall|j: int| 0 <= j < i ==> taken.deep_view()[j] != name@,
        decreases taken.len() - i,
    {
        assert(taken.deep_view()[i as int] == taken[i as int]@);
        if text_eq(taken[i].as_str(), name) {
            return true;
        }
        i += 1;
    }
    false
}

/// A search for a name outside `taken` that may look at `attempts_left`
/// more proposals.
#[derive(Debug, PartialEq, Eq)]
pub struct NameSearch {
    pub taken: Vec<String>,
    pub attempts_left: usize,
}

/// The mathematical value of a [`NameSearch`].
pub ghost struct NameSearchView {
    pub taken: Seq<Seq<char>>,
    pub attempts_left: nat,
}

impl View for NameSearch {
    type V = NameSearchView;

    open spec fn view(&self) -> NameSearchView {
        NameSearchView { taken: self.taken.deep_view(), attempts_left: self.attempts_left as nat }
    }
}

impl DeepView for NameSearch {
    type V = NameSearchView;

    open spec fn deep_view(&self) -> NameSearchView {
        self@
    }
}

impl NameSearchView {
    /// The first step of a search: with no attempt allowed it has failed,
    /// and else it asks for a proposal.
    pub open spec fn start(taken: Seq<Seq<char>>, max_attempts: nat) -> ProgressView<
        NameSearchView,
        Seq<char>,
    > {
        if max_attempts == 0 {
            ProgressView::Done(Err(CommandErrorView::GenerationExhausted))
        } else {
            ProgressView::Continue(
                NameSearchView { taken, attempts_left: max_attempts },
                RequestView::ProposeName,
            )
        }
    }

    /// The step that the search takes on a proposed `name`: a free name is
    /// the result; a taken one costs an attempt, and the last attempt ends
    /// the search.
    pub open spec fn offer(self, name: Seq<char>) -> ProgressView<NameSearchView, Seq<char>> {
        if !self.taken.contains(name) {
            ProgressView::Done(Ok(name))
        } else if self.attempts_left <= 1 {
            ProgressView::Done(Err(CommandErrorView::GenerationExhausted))
        } else {
            ProgressView::Continue(
                NameSearchView {
                    taken: self.taken,
                    attempts_left: (self.attempts_left - 1) as nat,
                },
                RequestView::ProposeName,
            )
        }
    }

    /// The step that the search takes on `reply`.
    pub open spec fn resume(self, reply: ReplyView) -> ProgressView<NameSearchView, Seq<char>> {
        match reply {
            ReplyView::Name(name) => self.offer(name),
            _ => ProgressView::Done(Err(reply.rejection(None))),
        }
    }

    /// Where the search stands after the proposals `names`, taken in order
    /// for as long as it goes on.
    pub open spec fn offer_all(self, names: Seq<Seq<char>>) -> ProgressView<
        NameSearchView,
        Seq<char>,
    >
        decreases names.len(),
    {
        if names.len() == 0 {
            ProgressView::Continue(self, RequestView::ProposeName)
        } else {
            match self.offer(names[0]) {
                ProgressView::Continue(search, _) => search.offer_all(names.drop_first()),
                done => done,
            }
        }
    }
}

impl NameSearch {
    /// Starts a search for a name outside `taken` that looks at no more
    /// than `max_attempts` proposals.
    pub fn start(taken: Vec<String>, max_attempts: usize) -> (first: Progress<NameSearch, String>)
        ensures
            first.deep_view() == NameSearchView::start(taken.deep_view(), max_attempts as nat),
    {
        if max_attempts == 0 {
            Progress::Done(Err(CommandError::GenerationExhausted))
        } else {
            Progress::Continue(
                NameSearch { taken, attempts_left: max_attempts },
                Request::ProposeName,
            )
        }
    }

    /// Takes the search one step further with a proposed `name`.
    pub fn offer(self, name: String) -> (next: Progress<NameSearch, String>)
        ensures
            next.deep_view() == self@.offer(name@),
    {
        if !is_taken(&self.taken, name.as_str()) {
            Progress::Done(Ok(name))
        } else if self.attempts_left <= 1 {
            Progress::Done(Err(CommandError::GenerationExhausted))
        } else {
            Progress::Continue(
                NameSearch { taken: self.taken, attempts_left: self.attempts_left - 1 },
                Request::ProposeName,
            )
        }
    }

    /// Takes the search one step further with the reply to its request.
    pub fn resume(self, reply: Reply) -> (next: Progress<NameSearch, String>)
        ensures
            next.deep_view() == self@.resume(reply@),
    {
        match reply {
            Reply::Name(name) => self.offer(name),
            other => Progress::Done(Err(other.rejection(None))),
        }
    }
}

/// A source of proposed names.
pub trait NameGenerator {
    /// The next proposal.
    fn generate(&mut self) -> String;
}

/// A name from `generator` that is none of `taken`.
///
/// Proposals are drawn until one is free, `max_attempts` of them at most.
/// Where no name is taken and an attempt is allowed, the first proposal is
/// free and a name is returned. Otherwise the generator decides, and the
/// result says what holds of every run: a name returned is never taken,
/// and the only failure is `GenerationExhausted`, which is certain where
/// no attempt is allowed.
pub fn generate_unique<G: NameGenerator>(
    generator: &mut G,
    taken: Vec<String>,
    max_attempts: usize,
) -> (outcome: Result<String, CommandError>)
    ensures
        match outcome {
            Ok(name) => !taken.deep_view().contains(name@) && max_attempts > 0,
            Err(error) => error@ == CommandErrorView::GenerationExhausted,
        },
        taken.deep_view().len() == 0 && max_attempts > 0 ==> outcome is Ok,
        max_attempts == 0 ==> outcome is Err,
{
    let ghost names = taken.deep_view();
    let mut step = NameSearch::start(taken, max_attempts);
    loop
        invariant
            names == taken.deep_view(),
            match step {
                Progress::Continue(search, _) => search@.taken == names && search@.attempts_left
                    > 0,
                Progress::Done(Ok(name)) => !names.contains(name@) && max_attempts > 0,
                Progress::Done(Err(error)) => error@ == CommandErrorView::GenerationExhausted,
            },
            max_attempts > 0 || step is Done,
            names.len() == 0 && max_attempts > 0 ==> !(step matches Progress::Done(Err(_))),
        decreases
            match step {
                Progress::Continue(search, _) => search.attempts_left + 1,
                Progress::Done(_) => 0,
            },
    {
        match step {
            Progress::Continue(search, _) => {
                let name = generator.generate();
                step = search.offer(name);
            },
            Progress::Done(outcome) => {
                return outcome;
            },
        }
    }
}

/// A search that is offered only taken names fails once its attempts are
/// used up, and not before.
pub proof fn lemma_only_taken_names_exhaust(search: NameSearchView, names: Seq<Seq<char>>)
    requires
        search.attempts_left > 0,
        forall|i: int| 0 <= i < names.len() ==> search.taken.contains(#[trigger] names[i]),
    ensures
        names.len() >= search.attempts_left ==> search.offer_all(names) == ProgressView::<
            NameSearchView,
            Seq<char>,
        >::Done(Err(CommandErrorView::GenerationExhausted)),
        names.len() < search.attempts_left ==> search.offer_all(names) == ProgressView::<
            NameSearchView,
            Seq<char>,
        >::Continue(
            NameSearchView {
                taken: search.taken,
                attempts_left: (search.attempts_left - names.len()) as nat,
            },
            RequestView::ProposeName,
        ),
    decreases names.len(),
{
    if names.len() > 0 {
        assert(search.taken.contains(names[0]));
        if search.attempts_left > 1 {
            let rest = NameSearchView {
                taken: search.taken,
                attempts_left: (search.attempts_left - 1) as nat,
            };
            assert forall|i: int| 0 <= i < names.drop_first().len() implies search.taken.contains(
                #[trigger] names.drop_first()[i],
            ) by {
                assert(names.drop_first()[i] == names[i + 1]);
            }
            lemma_only_taken_names_exhaust(rest, names.drop_first());
        }
    }
}

/// A name that a search accepts is never one of the taken names.
pub proof fn lemma_accepted_name_is_free(search: NameSearchView, names: Seq<Seq<char>>)
    ensures
        search.offer_all(names) matches ProgressView::Done(Ok(name)) ==> !search.taken.contains(
            name,
        ),
        search.offer_all(names) matches ProgressView::Done(Err(error)) ==> error
            == CommandErrorView::GenerationExhausted,
    decreases names.len(),
{
    if names.len() > 0 {
        match search.offer(names[0]) {
            ProgressView::Continue(next, _) => {
                lemma_accepted_name_is_free(next, names.drop_first());
            },
            _ => {},
        }
    }
}

} // verus!
