//! From the engine's result page to the ranked destinations worth fetching.
//!
//! Each result anchor of the page has a rank: its 0-based position among
//! the result anchors, in the order in which they are selected. An anchor
//! whose redirect link carries a destination gives a candidate of that
//! rank; a candidate that leads away from the engine is a validated
//! destination.

use vstd::prelude::*;
use crate::document::{attribute_values, read_attribute};
use crate::engine::{LINK_ATTRIBUTE, RESULT_LINK_SELECTOR};
use crate::href::{
    extract_uddg_url,
    has_redirect_parameter,
    is_valid_target_url,
    lemma_no_parameter_no_target,
    redirect_target,
    valid_target,
};

verus! {

/// The mathematical model of a destination with its rank.
pub struct RankedUrl {
    pub url: Seq<char>,
    pub rank: nat,
}

/// A destination recovered from a result anchor, with the rank of that
/// anchor.
#[derive(Debug, PartialEq, Eq)]
pub struct CandidateUrl {
    pub url: String,
    pub rank: usize,
}

/// A candidate that leads away from the engine. Values are made by
/// [`validate`] only.
#[derive(Debug, PartialEq, Eq)]
pub struct ValidatedUrl {
    url: String,
    rank: usize,
}

impl View for CandidateUrl {
    type V = RankedUrl;

    open spec fn view(&self) -> RankedUrl {
        RankedUrl { url: self.url@, rank: self.rank as nat }
    }
}

impl DeepView for CandidateUrl {
    type V = RankedUrl;

    open spec fn deep_view(&self) -> RankedUrl {
        self.view()
    }
}

impl View for ValidatedUrl {
    type V = RankedUrl;

    closed spec fn view(&self) -> RankedUrl {
        RankedUrl { url: self.url@, rank: self.rank as nat }
    }
}

impl DeepView for ValidatedUrl {
    type V = RankedUrl;

    open spec fn deep_view(&self) -> RankedUrl {
        self.view()
    }
}

impl ValidatedUrl {
    /// The destination.
    pub fn url(&self) -> (url: &str)
        ensures
            url@ == self@.url,
    {
        self.url.as_str()
    }

    /// The rank of the anchor that the destination stems from.
    pub fn rank(&self) -> (rank: usize)
        ensures
            rank == self@.rank,
    {
        self.rank
    }
}

/// The destination that an anchor with this `href` carries.
pub open spec fn anchor_target(href: Option<Seq<char>>) -> Option<Seq<char>> {
    match href {
        Some(link) => redirect_target(link),
        None => None,
    }
}

/// The candidates of the first `n` anchors, in anchor order.
pub open spec fn candidates_before(anchors: Seq<Option<Seq<char>>>, n: int) -> Seq<RankedUrl>
    decreases n,
{
    if n <= 0 {
        Seq::empty()
    } else {
        let earlier = candidates_before(anchors, n - 1);
        match anchor_target(anchors[n - 1]) {
            Some(url) => earlier.push(RankedUrl { url, rank: (n - 1) as nat }),
            None => earlier,
        }
    }
}

/// The candidates of a page whose result anchors have these `href` values.
pub open spec fn candidates(anchors: Seq<Option<Seq<char>>>) -> Seq<RankedUrl> {
    candidates_before(anchors, anchors.len() as int)
}

/// The candidate leads away from the engine.
pub open spec fn is_valid(candidate: RankedUrl) -> bool {
    valid_target(candidate.url)
}

/// Those of the candidates that lead away from the engine, in the same
/// order.
pub open spec fn valid_among(candidates: Seq<RankedUrl>) -> Seq<RankedUrl> {
    candidates.filter(|candidate: RankedUrl| is_valid(candidate))
}

/// The validated destinations of a page whose result anchors have these
/// `href` values.
pub open spec fn validated(anchors: Seq<Option<Seq<char>>>) -> Seq<RankedUrl> {
    valid_among(candidates(anchors))
}

/// The `href` values of the result anchors of `document`.
pub open spec fn result_anchors(document: Seq<char>) -> Seq<Option<Seq<char>>> {
    attribute_values(document, RESULT_LINK_SELECTOR@, LINK_ATTRIBUTE@)
}

/// The ranks rise strictly along the list.
pub open spec fn ranks_rise(urls: Seq<RankedUrl>) -> bool {
    forall|j: int, k: int|
        0 <= j < k < urls.len() ==> (#[trigger] urls[j]).rank < (#[trigger] urls[k]).rank
}

/// Each of `urls` stems from the anchor at its rank.
pub open spec fn stem_from(urls: Seq<RankedUrl>, anchors: Seq<Option<Seq<char>>>) -> bool {
    forall|k: int|
        0 <= k < urls.len() ==> {
            let v = #[trigger] urls[k];
            v.rank < anchors.len() && anchor_target(anchors[v.rank as int]) == Some(v.url)
        }
}

/// Some entry of `urls` has the rank `rank`.
pub open spec fn has_rank(urls: Seq<RankedUrl>, rank: int) -> bool {
    exists|k: int| 0 <= k < urls.len() && (#[trigger] urls[k]).rank == rank
}

/// What holds of the candidates of the first `n` anchors: each stems from
/// the anchor at its rank, which lies before `n`; the ranks rise; and every
/// anchor before `n` that carries a destination has its candidate.
pub proof fn lemma_candidates_before(anchors: Seq<Option<Seq<char>>>, n: int)
    requires
        0 <= n <= anchors.len(),
    ensures
        candidates_before(anchors, n).len() <= n,
        stem_from(candidates_before(anchors, n), anchors),
        forall|k: int|
            0 <= k < candidates_before(anchors, n).len() ==> (#[trigger] candidates_before(
                anchors,
                n,
            )[k]).rank < n,
        ranks_rise(candidates_before(anchors, n)),
        forall|i: int|
            0 <= i < n && anchor_target(#[trigger] anchors[i]) is Some ==> has_rank(
                candidates_before(anchors, n),
                i,
            ),
        forall|i: int|
            0 <= i < n && anchor_target(#[trigger] anchors[i]) is None ==> !has_rank(
                candidates_before(anchors, n),
                i,
            ),
    decreases n,
{
    if n > 0 {
        lemma_candidates_before(anchors, n - 1);
        let earlier = candidates_before(anchors, n - 1);
        let now = candidates_before(anchors, n);
        assert forall|i: int| 0 <= i < n && anchor_target(#[trigger] anchors[i]) is Some implies has_rank(
            now,
            i,
        ) by {
            if i < n - 1 {
                let k = choose|k: int| 0 <= k < earlier.len() && (#[trigger] earlier[k]).rank == i;
                assert(now[k] == earlier[k]);
            } else {
                assert(now[now.len() - 1].rank == i);
            }
        }
        assert forall|i: int| 0 <= i < n && anchor_target(#[trigger] anchors[i]) is None implies !has_rank(
            now,
            i,
        ) by {
            if has_rank(now, i) {
                let k = choose|k: int| 0 <= k < now.len() && (#[trigger] now[k]).rank == i;
                if k < earlier.len() {
                    assert(earlier[k] == now[k]);
                }
            }
        }
    }
}

/// One candidate more adds itself if it is valid, and nothing else.
pub proof fn lemma_valid_among_step(candidates: Seq<RankedUrl>, n: int)
    requires
        0 <= n < candidates.len(),
    ensures
        valid_among(candidates.take(n + 1)) == if is_valid(candidates[n]) {
            valid_among(candidates.take(n)).push(candidates[n])
        } else {
            valid_among(candidates.take(n))
        },
{
    reveal(Seq::filter);
    assert(candidates.take(n + 1).drop_last() =~= candidates.take(n));
}

/// What holds of the valid ones among the first `n` candidates: each is a
/// valid one of the first `n` candidates, they come in the order of the
/// candidates, and every valid one of the first `n` is there.
pub proof fn lemma_valid_among(candidates: Seq<RankedUrl>, n: int)
    requires
        0 <= n <= candidates.len(),
        ranks_rise(candidates),
    ensures
        valid_among(candidates.take(n)).len() <= n,
        forall|k: int|
            0 <= k < valid_among(candidates.take(n)).len() ==> {
                let v = #[trigger] valid_among(candidates.take(n))[k];
                is_valid(v) && exists|j: int| 0 <= j < n && candidates[j] == v
            },
        ranks_rise(valid_among(candidates.take(n))),
        forall|j: int|
            0 <= j < n && is_valid(#[trigger] candidates[j]) ==> has_rank(
                valid_among(candidates.take(n)),
                candidates[j].rank as int,
            ),
        forall|j: int|
            0 <= j < n && !is_valid(#[trigger] candidates[j]) ==> !has_rank(
                valid_among(candidates.take(n)),
                candidates[j].rank as int,
            ),
    decreases n,
{
    if n == 0 {
        reveal(Seq::filter);
        assert(candidates.take(0) =~= Seq::empty());
    } else {
        lemma_valid_among(candidates, n - 1);
        lemma_valid_among_step(candidates, n - 1);
        let earlier = valid_among(candidates.take(n - 1));
        let now = valid_among(candidates.take(n));
        let last = candidates[n - 1];
        assert forall|k: int| 0 <= k < now.len() implies {
            let v = #[trigger] now[k];
            is_valid(v) && exists|j: int| 0 <= j < n && candidates[j] == v
        } by {
            if k < earlier.len() {
                assert(now[k] == earlier[k]);
                let j = choose|j: int| 0 <= j < n - 1 && candidates[j] == earlier[k];
                assert(candidates[j] == now[k]);
            } else {
                assert(candidates[n - 1] == now[k]);
            }
        }
        assert forall|j: int, k: int| 0 <= j < k < now.len() implies (#[trigger] now[j]).rank < (
        #[trigger] now[k]).rank by {
            if k < earlier.len() {
                assert(now[j] == earlier[j] && now[k] == earlier[k]);
            } else {
                assert(now[j] == earlier[j]);
                let i = choose|i: int| 0 <= i < n - 1 && candidates[i] == earlier[j];
                assert(candidates[i].rank < candidates[n - 1].rank);
            }
        }
        assert forall|j: int| 0 <= j < n && is_valid(#[trigger] candidates[j]) implies has_rank(
            now,
            candidates[j].rank as int,
        ) by {
            if j < n - 1 {
                let k = choose|k: int|
                    0 <= k < earlier.len() && (#[trigger] earlier[k]).rank == candidates[j].rank;
                assert(now[k] == earlier[k]);
            } else {
                assert(now[now.len() - 1] == last);
            }
        }
        assert forall|j: int| 0 <= j < n && !is_valid(#[trigger] candidates[j]) implies !has_rank(
            now,
            candidates[j].rank as int,
        ) by {
            if has_rank(now, candidates[j].rank as int) {
                let k = choose|k: int|
                    0 <= k < now.len() && (#[trigger] now[k]).rank == candidates[j].rank;
                let i = choose|i: int| 0 <= i < n && candidates[i] == now[k];
                if i < j {
                    assert(candidates[i].rank < candidates[j].rank);
                } else if j < i {
                    assert(candidates[j].rank < candidates[i].rank);
                }
            }
        }
    }
}

/// The validated destinations keep the order of the anchors: each stems
/// from the anchor at its rank and leads away from the engine, the ranks
/// rise strictly, and an anchor has its entry exactly if it carries a
/// destination that leads away from the engine.
pub proof fn lemma_validated_keeps_anchor_order(anchors: Seq<Option<Seq<char>>>)
    ensures
        stem_from(validated(anchors), anchors),
        ranks_rise(validated(anchors)),
        forall|k: int|
            0 <= k < validated(anchors).len() ==> valid_target(
                (#[trigger] validated(anchors)[k]).url,
            ),
        forall|i: int|
            0 <= i < anchors.len() ==> (has_rank(validated(anchors), i) <==> (anchor_target(
                #[trigger] anchors[i],
            ) matches Some(url) && valid_target(url))),
{
    let found = candidates(anchors);
    let kept = validated(anchors);
    lemma_candidates_before(anchors, anchors.len() as int);
    lemma_valid_among(found, found.len() as int);
    assert(found.take(found.len() as int) =~= found);
    assert forall|k: int| 0 <= k < kept.len() implies {
        let v = #[trigger] kept[k];
        v.rank < anchors.len() && anchor_target(anchors[v.rank as int]) == Some(v.url)
            && valid_target(v.url)
    } by {
        let j = choose|j: int| 0 <= j < found.len() && found[j] == kept[k];
        assert(found[j].rank < anchors.len());
    }
    assert forall|i: int| 0 <= i < anchors.len() implies (has_rank(kept, i) <==> (anchor_target(
        #[trigger] anchors[i],
    ) matches Some(url) && valid_target(url))) by {
        if has_rank(kept, i) {
            let k = choose|k: int| 0 <= k < kept.len() && (#[trigger] kept[k]).rank == i;
            assert(anchor_target(anchors[kept[k].rank as int]) == Some(kept[k].url));
        }
        if anchor_target(anchors[i]) matches Some(url) && valid_target(url) {
            let j = choose|j: int| 0 <= j < found.len() && (#[trigger] found[j]).rank == i;
            assert(anchor_target(anchors[found[j].rank as int]) == Some(found[j].url));
            assert(is_valid(found[j]));
        }
    }
}

/// An anchor whose `href` lacks the redirect parameter gives no candidate,
/// and so no validated destination.
pub proof fn lemma_anchor_without_parameter_gives_no_candidate(
    anchors: Seq<Option<Seq<char>>>,
    i: int,
)
    requires
        0 <= i < anchors.len(),
        anchors[i] matches Some(link) ==> !has_redirect_parameter(link),
    ensures
        !has_rank(candidates(anchors), i),
        !has_rank(validated(anchors), i),
{
    match anchors[i] {
        Some(link) => {
            lemma_no_parameter_no_target(link);
        },
        None => {},
    }
    lemma_candidates_before(anchors, anchors.len() as int);
    lemma_validated_keeps_anchor_order(anchors);
}

/// The validated destinations are a function of the page: two lists that
/// both are the validated destinations of one page are equal.
pub proof fn lemma_extraction_is_deterministic(
    document: Seq<char>,
    first: Seq<RankedUrl>,
    second: Seq<RankedUrl>,
)
    requires
        first == validated(result_anchors(document)),
        second == validated(result_anchors(document)),
    ensures
        first == second,
{
}

/// Finds the candidates among the `href` values of a page's result
/// anchors, given in the order of the anchors: for each anchor, the
/// destination that its redirect link carries, if it carries one.
pub fn find_candidates(hrefs: &Vec<Option<String>>) -> (found: Vec<CandidateUrl>)
    ensures
        found.deep_view() == candidates(hrefs.deep_view()),
{
    let mut found: Vec<CandidateUrl> = Vec::new();
    let mut rank: usize = 0;
    assert(found.deep_view() =~= Seq::empty());
    while rank < hrefs.len()
        invariant
            rank <= hrefs@.len(),
            found.deep_view() == candidates_before(hrefs.deep_view(), rank as int),
        decreases hrefs@.len() - rank,
    {
        let ghost before = found.deep_view();
        assert(hrefs.deep_view()[rank as int] == hrefs@[rank as int].deep_view());
        match &hrefs[rank] {
            Some(href) => {
                match extract_uddg_url(href.as_str()) {
                    Some(url) => {
                        let candidate = CandidateUrl { url, rank };
                        let ghost model = candidate@;
                        found.push(candidate);
                        assert(found.deep_view() =~= before.push(model));
                    },
                    None => {},
                }
            },
            None => {},
        }
        rank += 1;
    }
    found
}

/// Keeps the candidates that lead away from the engine, in their order.
pub fn validate(candidates: Vec<CandidateUrl>) -> (urls: Vec<ValidatedUrl>)
    ensures
        urls.deep_view() == valid_among(candidates.deep_view()),
{
    let ghost models = candidates.deep_view();
    let mut urls: Vec<ValidatedUrl> = Vec::new();
    proof {
        reveal(Seq::filter);
        assert(models.take(0) =~= Seq::empty());
        assert(urls.deep_view() =~= Seq::empty());
    }
    for candidate in it: candidates
        invariant
            it.seq().len() == models.len(),
            forall|k: int| 0 <= k < models.len() ==> it.seq()[k].deep_view() == models[k],
            urls.deep_view() == valid_among(models.take(it.index())),
    {
        let ghost before = urls.deep_view();
        assert(candidate.deep_view() == models[it.index()]);
        proof {
            lemma_valid_among_step(models, it.index());
        }
        if is_valid_target_url(candidate.url.as_str()) {
            urls.push(ValidatedUrl { url: candidate.url, rank: candidate.rank });
            assert(urls.deep_view() =~= before.push(models[it.index()]));
        }
    }
    assert(models.take(models.len() as int) =~= models);
    urls
}

/// Turns the `href` values of a page's result anchors, given in the order
/// of the anchors, into the validated destinations.
pub fn validate_anchors(hrefs: &Vec<Option<String>>) -> (urls: Vec<ValidatedUrl>)
    ensures
        urls.deep_view() == validated(hrefs.deep_view()),
{
    validate(find_candidates(hrefs))
}

/// Extracts the validated destinations from the engine's result page.
pub fn extract_results(document: &str) -> (urls: Vec<ValidatedUrl>)
    ensures
        urls.deep_view() == validated(result_anchors(document@)),
{
    let hrefs = read_attribute(document, RESULT_LINK_SELECTOR, LINK_ATTRIBUTE);
    validate_anchors(&hrefs)
}

} // verus!
