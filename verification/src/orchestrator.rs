//! The run: one search, the choice of the targets, one fetch per target, and
//! the merge of what came back, in rank order.
//!
//! The orchestrator decides and keeps the state. It does no I/O: its caller
//! sends the requests and hands back what became of each.

use vstd::prelude::*;
use crate::content::{extract_content, join_lines, lines, page_fragments, paragraphs_of, PageContent};
use crate::error::{FetchError, FetchFailure, NetworkError};
use crate::fetch::{into_outcome, outcome_of, Exchange, ExchangeModel};
use crate::query::{prepare_search, request_for, SearchRequest};
use crate::results::{
    extract_results,
    lemma_validated_keeps_anchor_order,
    ranks_rise,
    result_anchors,
    validated,
    RankedUrl,
    ValidatedUrl,
};
use crate::throttle::{sample_delay, MAX_DELAY_SECS, MIN_DELAY_SECS};

verus! {

/// The most target pages that are fetched at a time.
pub const MAX_WORKERS: usize = 5;

/// How many targets a run fetches unless the caller says otherwise.
pub const DEFAULT_TOP_K: usize = 3;

/// How far the search request has come.
pub enum Search {
    /// No answer yet.
    Awaited,
    /// The result page is in.
    Answered,
    /// The request failed, for this cause.
    Failed(Seq<char>),
}

/// What is known of the page of one target.
pub enum Page {
    /// No answer yet.
    Pending,
    /// The page is in: these are its accepted fragments.
    Fetched(Seq<Seq<char>>),
    /// The fetch failed, for this cause.
    Failed(Seq<char>),
}

/// The mathematical model of a run.
pub struct Run {
    /// How many targets are fetched at most.
    pub top_k: nat,
    /// How many fetches the caller allows at a time.
    pub limit: nat,
    pub search: Search,
    /// The targets, in rank order.
    pub targets: Seq<RankedUrl>,
    /// One entry for each target, in the same order.
    pub pages: Seq<Page>,
}

/// What one page adds to the result.
pub open spec fn contribution(page: Page) -> Seq<Seq<char>> {
    match page {
        Page::Fetched(fragments) => fragments,
        _ => Seq::empty(),
    }
}

/// The fragments of the first `n` pages, page after page.
pub open spec fn aggregated_before(pages: Seq<Page>, n: int) -> Seq<Seq<char>>
    decreases n,
{
    if n <= 0 {
        Seq::empty()
    } else {
        aggregated_before(pages, n - 1) + contribution(pages[n - 1])
    }
}

/// The fragments of all the pages that are in, in the order of the pages.
pub open spec fn aggregated(pages: Seq<Page>) -> Seq<Seq<char>> {
    aggregated_before(pages, pages.len() as int)
}

/// The failures among the first `n` pages, in the order of the pages, each
/// with the destination of its target.
pub open spec fn failures_before(targets: Seq<RankedUrl>, pages: Seq<Page>, n: int) -> Seq<
    FetchFailure,
>
    decreases n,
{
    if n <= 0 {
        Seq::empty()
    } else {
        let earlier = failures_before(targets, pages, n - 1);
        match pages[n - 1] {
            Page::Failed(cause) => earlier.push(FetchFailure { url: targets[n - 1].url, cause }),
            _ => earlier,
        }
    }
}

/// As many pages, all waited for.
pub open spec fn all_pending(n: nat) -> Seq<Page> {
    Seq::new(n, |i: int| Page::Pending)
}

/// The first `top_k` of the validated destinations of a result page.
pub open spec fn selected(top_k: nat, document: Seq<char>) -> Seq<RankedUrl> {
    let all = validated(result_anchors(document));
    if top_k < all.len() {
        all.take(top_k as int)
    } else {
        all
    }
}

impl Run {
    /// A run that has sent nothing yet.
    pub open spec fn begin(top_k: nat, limit: nat) -> Run {
        Run { top_k, limit, search: Search::Awaited, targets: Seq::empty(), pages: Seq::empty() }
    }

    /// There is one page entry for each target.
    pub open spec fn wf(self) -> bool {
        self.pages.len() == self.targets.len()
    }

    /// The run after the result page `document` came in.
    pub open spec fn search_succeeded(self, document: Seq<char>) -> Run {
        if self.search is Awaited {
            let targets = selected(self.top_k, document);
            Run {
                search: Search::Answered,
                targets,
                pages: all_pending(targets.len()),
                ..self
            }
        } else {
            self
        }
    }

    /// The run after the search request failed.
    pub open spec fn search_failed(self, cause: Seq<char>) -> Run {
        if self.search is Awaited {
            Run { search: Search::Failed(cause), ..self }
        } else {
            self
        }
    }

    /// The run after the search request ended in `exchange`.
    pub open spec fn search_ended(self, exchange: ExchangeModel) -> Run {
        match outcome_of(exchange) {
            Ok(document) => self.search_succeeded(document),
            Err(cause) => self.search_failed(cause),
        }
    }

    /// The run still waits for the page of the target at `index`.
    pub open spec fn awaits(self, index: int) -> bool {
        0 <= index < self.pages.len() && self.pages[index] is Pending
    }

    /// The run after `page` became known of the target at `index`. The
    /// first answer for a target stands; an answer for no target changes
    /// nothing.
    pub open spec fn page_known(self, index: int, page: Page) -> Run {
        if self.awaits(index) {
            Run { pages: self.pages.update(index, page), ..self }
        } else {
            self
        }
    }

    /// The run after the page `document` of the target at `index` came in.
    pub open spec fn page_fetched(self, index: int, document: Seq<char>) -> Run {
        self.page_known(index, Page::Fetched(page_fragments(paragraphs_of(document))))
    }

    /// The run after the fetch of the target at `index` failed.
    pub open spec fn page_failed(self, index: int, cause: Seq<char>) -> Run {
        self.page_known(index, Page::Failed(cause))
    }

    /// The run after the fetch of the target at `index` ended in `exchange`.
    pub open spec fn page_ended(self, index: int, exchange: ExchangeModel) -> Run {
        match outcome_of(exchange) {
            Ok(document) => self.page_fetched(index, document),
            Err(cause) => self.page_failed(index, cause),
        }
    }

    /// The search is answered and no page is waited for.
    pub open spec fn is_complete(self) -> bool {
        &&& !(self.search is Awaited)
        &&& forall|i: int| 0 <= i < self.pages.len() ==> !(#[trigger] self.pages[i] is Pending)
    }

    /// How many pages the caller fetches at a time: as many as there are
    /// targets, but no more than the caller's limit (at least one) and no
    /// more than [`MAX_WORKERS`].
    pub open spec fn workers(self) -> nat {
        let cap: nat = if self.limit == 0 {
            1
        } else if self.limit > MAX_WORKERS {
            MAX_WORKERS as nat
        } else {
            self.limit
        };
        if self.targets.len() < cap {
            self.targets.len()
        } else {
            cap
        }
    }

    /// What the run returns: the failure of the search, or else the
    /// fragments of the pages that are in, in rank order.
    pub open spec fn outcome(self) -> Result<Seq<Seq<char>>, Seq<char>> {
        match self.search {
            Search::Failed(cause) => Err(cause),
            _ => Ok(aggregated(self.pages)),
        }
    }
}

/// Pages that are not in add nothing: where none is in, the result is empty.
pub proof fn lemma_nothing_fetched_nothing_aggregated(pages: Seq<Page>, n: int)
    requires
        0 <= n <= pages.len(),
        forall|i: int| 0 <= i < n ==> !(#[trigger] pages[i] is Fetched),
    ensures
        aggregated_before(pages, n) == Seq::<Seq<char>>::empty(),
    decreases n,
{
    if n > 0 {
        lemma_nothing_fetched_nothing_aggregated(pages, n - 1);
        assert(aggregated_before(pages, n) =~= Seq::empty());
    }
}

/// A run whose search was answered and whose fetches all failed returns an
/// empty result, and no error.
pub proof fn lemma_all_fetches_failed(run: Run)
    requires
        run.search is Answered,
        forall|i: int| 0 <= i < run.pages.len() ==> #[trigger] run.pages[i] is Failed,
    ensures
        run.outcome() == Ok::<Seq<Seq<char>>, Seq<char>>(Seq::empty()),
{
    lemma_nothing_fetched_nothing_aggregated(run.pages, run.pages.len() as int);
}

/// A fetch that was not answered in time, that failed, or that was answered
/// with a status of no success: each leaves the result of the run as it
/// was.
pub proof fn lemma_failed_fetch_adds_nothing(run: Run, index: int, exchange: ExchangeModel)
    requires
        outcome_of(exchange) is Err,
    ensures
        run.page_ended(index, exchange).outcome() == run.outcome(),
{
    let after = run.page_ended(index, exchange);
    if run.awaits(index) {
        lemma_unfetched_page_adds_nothing(run.pages, after.pages, index, run.pages.len() as int);
    }
}

/// Two lists of pages that differ at one place only, where neither has a
/// fetched page, add up to the same.
pub proof fn lemma_unfetched_page_adds_nothing(a: Seq<Page>, b: Seq<Page>, index: int, n: int)
    requires
        a.len() == b.len(),
        0 <= n <= a.len(),
        0 <= index < a.len(),
        !(a[index] is Fetched),
        !(b[index] is Fetched),
        forall|i: int| 0 <= i < a.len() && i != index ==> a[i] == b[i],
    ensures
        aggregated_before(a, n) == aggregated_before(b, n),
    decreases n,
{
    if n > 0 {
        lemma_unfetched_page_adds_nothing(a, b, index, n - 1);
        assert(contribution(a[n - 1]) == contribution(b[n - 1]));
    }
}

/// The result of a run is an error exactly where the search failed.
pub proof fn lemma_only_the_search_is_fatal(run: Run)
    ensures
        run.outcome() is Err <==> run.search is Failed,
{
}

/// The answers for two different targets may come in either order: the run
/// ends up the same.
pub proof fn lemma_answers_commute(run: Run, i: int, first: Page, j: int, second: Page)
    requires
        i != j,
    ensures
        run.page_known(i, first).page_known(j, second) == run.page_known(j, second).page_known(
            i,
            first,
        ),
{
    let a = run.page_known(i, first).page_known(j, second);
    let b = run.page_known(j, second).page_known(i, first);
    assert(a.pages =~= b.pages);
}

/// The targets of a run are the first validated destinations of the
/// result page: no more than `top_k`, in rank order, each waited for.
pub proof fn lemma_targets_are_the_first(run: Run, document: Seq<char>)
    requires
        run.search is Awaited,
    ensures
        run.search_succeeded(document).targets.len() <= run.top_k,
        run.search_succeeded(document).targets.is_prefix_of(validated(result_anchors(document))),
        ranks_rise(run.search_succeeded(document).targets),
        run.search_succeeded(document).wf(),
        forall|i: int|
            0 <= i < run.search_succeeded(document).pages.len() ==> run.search_succeeded(
                document,
            ).awaits(i),
{
    let all = validated(result_anchors(document));
    let targets = run.search_succeeded(document).targets;
    lemma_validated_keeps_anchor_order(result_anchors(document));
    assert(all.is_prefix_of(all)) by {
        assert(all.subrange(0, all.len() as int) =~= all);
    }
    assert forall|j: int, k: int| 0 <= j < k < targets.len() implies (#[trigger] targets[j]).rank < (
    #[trigger] targets[k]).rank by {
        assert(targets[j] == all[j] && targets[k] == all[k]);
    }
}

/// The first step of a run: the one search request, and the pause that
/// goes with it.
#[derive(Debug, PartialEq, Eq)]
pub struct SearchPlan {
    /// The request to send.
    pub request: SearchRequest,
    /// How long to pause around the request, in seconds.
    pub delay_secs: u64,
}

/// Plans the first step of a run for `query`: the search request under an
/// identity drawn from `pool`, and a drawn pause. There is no plan where
/// the pool is empty.
pub fn plan_search(query: &str, pool: &Vec<String>) -> (plan: Option<SearchPlan>)
    ensures
        pool@.len() == 0 ==> plan is None,
        pool@.len() > 0 ==> plan is Some && MIN_DELAY_SECS <= plan->0.delay_secs <= MAX_DELAY_SECS
            && exists|i: int|
            0 <= i < pool@.len() && plan->0.request@ == request_for(query@, (#[trigger] pool@[i])@),
{
    match prepare_search(query, pool) {
        Some(request) => Some(SearchPlan { request, delay_secs: sample_delay() }),
        None => None,
    }
}

/// How far the search request has come, with the failure where it failed.
enum SearchState {
    Awaited,
    Answered,
    Failed(NetworkError),
}

/// What is known of the page of one target.
enum PageState {
    /// No answer yet.
    Pending,
    /// The page is in.
    Fetched(PageContent),
    /// The fetch failed, for this cause.
    Failed(String),
}

impl DeepView for PageState {
    type V = Page;

    closed spec fn deep_view(&self) -> Page {
        match self {
            PageState::Pending => Page::Pending,
            PageState::Fetched(content) => Page::Fetched(content@),
            PageState::Failed(cause) => Page::Failed(cause@),
        }
    }
}

/// The text that a run returns: the fragments of the fetched pages, in rank
/// order.
#[derive(Debug, PartialEq, Eq)]
pub struct AggregatedResult {
    pub fragments: Vec<String>,
}

impl View for AggregatedResult {
    type V = Seq<Seq<char>>;

    open spec fn view(&self) -> Seq<Seq<char>> {
        self.fragments.deep_view()
    }
}

impl AggregatedResult {
    /// No page added anything.
    pub fn is_empty(&self) -> (empty: bool)
        ensures
            empty == (self@.len() == 0),
    {
        self.fragments.len() == 0
    }

    /// The result as one text, one fragment per line.
    pub fn text(&self) -> (text: String)
        ensures
            text@ == lines(self@),
    {
        join_lines(&self.fragments)
    }
}

/// One run of the pipeline.
pub struct Orchestrator {
    top_k: usize,
    limit: usize,
    search: SearchState,
    targets: Vec<ValidatedUrl>,
    pages: Vec<PageState>,
}

impl View for Orchestrator {
    type V = Run;

    closed spec fn view(&self) -> Run {
        Run {
            top_k: self.top_k as nat,
            limit: self.limit as nat,
            search: match self.search {
                SearchState::Awaited => Search::Awaited,
                SearchState::Answered => Search::Answered,
                SearchState::Failed(error) => Search::Failed(error@),
            },
            targets: self.targets.deep_view(),
            pages: self.pages.deep_view(),
        }
    }
}

impl Orchestrator {
    /// There is one page entry for each target.
    #[verifier::type_invariant]
    spec fn one_page_per_target(self) -> bool {
        self.pages@.len() == self.targets@.len()
    }

    /// A run that fetches at most `top_k` targets, at most
    /// `concurrency_limit` at a time.
    pub fn new(top_k: usize, concurrency_limit: usize) -> (run: Self)
        ensures
            run@ == Run::begin(top_k as nat, concurrency_limit as nat),
    {
        let run = Orchestrator {
            top_k,
            limit: concurrency_limit,
            search: SearchState::Awaited,
            targets: Vec::new(),
            pages: Vec::new(),
        };
        assert(run.targets.deep_view() =~= Seq::empty());
        assert(run.pages.deep_view() =~= Seq::empty());
        run
    }

    /// Takes in what became of the search request. Where it brought the
    /// result page, the targets are chosen: the first `top_k` validated
    /// destinations. Where it did not, the run has failed.
    pub fn search_finished(&mut self, exchange: Exchange)
        ensures
            final(self)@ == old(self)@.search_ended(exchange@),
    {
        proof {
            use_type_invariant(&*self);
        }
        match self.search {
            SearchState::Awaited => {},
            _ => {
                return ;
            },
        }
        match into_outcome(exchange) {
            Ok(document) => {
                let mut targets = extract_results(document.as_str());
                let ghost all = targets.deep_view();
                targets.truncate(self.top_k);
                assert(targets.deep_view() =~= selected(self.top_k as nat, document@));
                let mut pages: Vec<PageState> = Vec::new();
                let mut i: usize = 0;
                assert(pages.deep_view() =~= all_pending(0));
                while i < targets.len()
                    invariant
                        i <= targets@.len(),
                        pages.deep_view() == all_pending(i as nat),
                    decreases targets@.len() - i,
                {
                    let ghost before = pages.deep_view();
                    pages.push(PageState::Pending);
                    assert(pages.deep_view() =~= before.push(Page::Pending));
                    assert(pages.deep_view() =~= all_pending((i + 1) as nat));
                    i += 1;
                }
                *self = Orchestrator {
                    top_k: self.top_k,
                    limit: self.limit,
                    search: SearchState::Answered,
                    targets,
                    pages,
                };
            },
            Err(cause) => {
                self.search = SearchState::Failed(NetworkError { cause });
            },
        }
    }

    /// The targets, in rank order.
    pub fn targets(&self) -> (targets: &Vec<ValidatedUrl>)
        ensures
            targets.deep_view() == self@.targets,
            self@.wf(),
    {
        proof {
            use_type_invariant(self);
        }
        &self.targets
    }

    /// How many pages to fetch at a time.
    pub fn workers(&self) -> (count: usize)
        ensures
            count == self@.workers(),
    {
        let cap: usize = if self.limit == 0 {
            1
        } else if self.limit > MAX_WORKERS {
            MAX_WORKERS
        } else {
            self.limit
        };
        if self.targets.len() < cap {
            self.targets.len()
        } else {
            cap
        }
    }

    /// Takes in what became of the fetch of the target at `index`. Where it
    /// brought the page, the readable text is extracted at once. Where it
    /// did not, the target adds nothing to the result.
    pub fn page_finished(&mut self, index: usize, exchange: Exchange)
        ensures
            final(self)@ == old(self)@.page_ended(index as int, exchange@),
    {
        proof {
            use_type_invariant(&*self);
        }
        if index >= self.pages.len() {
            return ;
        }
        assert(self.pages.deep_view()[index as int] == self.pages@[index as int].deep_view());
        match self.pages[index] {
            PageState::Pending => {},
            _ => {
                return ;
            },
        }
        let ghost before = self.pages.deep_view();
        let state = match into_outcome(exchange) {
            Ok(document) => PageState::Fetched(extract_content(document.as_str())),
            Err(cause) => PageState::Failed(cause),
        };
        let ghost page = state.deep_view();
        self.pages[index] = state;
        assert(self.pages.deep_view() =~= before.update(index as int, page));
    }

    /// Whether the search is answered and no page is waited for.
    pub fn is_complete(&self) -> (complete: bool)
        ensures
            complete == self@.is_complete(),
    {
        match self.search {
            SearchState::Awaited => {
                return false;
            },
            _ => {},
        }
        let mut i: usize = 0;
        while i < self.pages.len()
            invariant
                i <= self.pages@.len(),
                !(self@.search is Awaited),
                forall|k: int| 0 <= k < i ==> !(#[trigger] self.pages.deep_view()[k] is Pending),
            decreases self.pages@.len() - i,
        {
            assert(self.pages.deep_view()[i as int] == self.pages@[i as int].deep_view());
            match self.pages[i] {
                PageState::Pending => {
                    return false;
                },
                _ => {},
            }
            i += 1;
        }
        true
    }

    /// The fetches that failed, in rank order, each with the destination
    /// that was asked for.
    pub fn failures(&self) -> (failures: Vec<FetchError>)
        ensures
            failures.deep_view() == failures_before(
                self@.targets,
                self@.pages,
                self@.pages.len() as int,
            ),
    {
        let mut failures: Vec<FetchError> = Vec::new();
        let mut i: usize = 0;
        proof {
            use_type_invariant(self);
        }
        assert(failures.deep_view() =~= Seq::empty());
        while i < self.pages.len()
            invariant
                i <= self.pages@.len() == self.targets@.len(),
                failures.deep_view() == failures_before(self@.targets, self@.pages, i as int),
            decreases self.pages@.len() - i,
        {
            let ghost before = failures.deep_view();
            assert(self.pages.deep_view()[i as int] == self.pages@[i as int].deep_view());
            assert(self.targets.deep_view()[i as int] == self.targets@[i as int].deep_view());
            match &self.pages[i] {
                PageState::Failed(cause) => {
                    let error = FetchError {
                        url: String::from_str(self.targets[i].url()),
                        cause: cause.clone(),
                    };
                    let ghost model = error@;
                    failures.push(error);
                    assert(failures.deep_view() =~= before.push(model));
                },
                _ => {},
            }
            i += 1;
        }
        failures
    }

    /// Ends the run: the failure of the search, or else the fragments of
    /// the pages that are in, in rank order. A page that failed, or that is
    /// still waited for, adds nothing.
    pub fn finish(self) -> (result: Result<AggregatedResult, NetworkError>)
        ensures
            match result {
                Ok(aggregate) => self@.outcome() == Ok::<Seq<Seq<char>>, Seq<char>>(aggregate@),
                Err(error) => self@.outcome() == Err::<Seq<Seq<char>>, Seq<char>>(error@),
            },
    {
        match self.search {
            SearchState::Failed(error) => {
                return Err(error);
            },
            _ => {},
        }
        let ghost models = self.pages.deep_view();
        let mut fragments: Vec<String> = Vec::new();
        assert(fragments.deep_view() =~= Seq::empty());
        for page in it: self.pages
            invariant
                it.seq().len() == models.len(),
                forall|k: int| 0 <= k < models.len() ==> it.seq()[k].deep_view() == models[k],
                fragments.deep_view() == aggregated_before(models, it.index()),
        {
            let ghost before = fragments.deep_view();
            assert(page.deep_view() == models[it.index()]);
            match page {
                PageState::Fetched(content) => {
                    let mut content = content;
                    let ghost added = content@;
                    fragments.append(&mut content.fragments);
                    assert(fragments.deep_view() =~= before + added);
                },
                _ => {
                    assert(before + Seq::<Seq<char>>::empty() =~= before);
                },
            }
        }
        Ok(AggregatedResult { fragments })
    }
}

} // verus!
