//! From a target page to its readable text: the paragraphs that read like
//! sentences, in the order in which the page's paragraphs are selected.

use vstd::prelude::*;
use crate::document::{element_texts, read_texts};
use crate::engine::PARAGRAPH_SELECTOR;
use crate::text::{
    append_chars,
    chars_of,
    count_tokens,
    joined,
    lemma_trim_keeps_tokens,
    push_char,
    string_of,
    token_count,
    trim,
    trimmed,
};

verus! {

/// The least number of whitespace-separated tokens of an accepted fragment.
pub const MIN_TOKENS: usize = 5;

/// The text of one paragraph: its text nodes joined by single spaces, then
/// trimmed.
pub open spec fn fragment_of(texts: Seq<Seq<char>>) -> Seq<char> {
    trim(joined(texts, seq![' ']))
}

/// The fragment has tokens enough to be a sentence.
pub open spec fn has_enough_tokens(fragment: Seq<char>) -> bool {
    token_count(fragment) >= MIN_TOKENS
}

/// The fragment ends as a sentence does: with `.`, `!` or `?`.
pub open spec fn ends_sentence(fragment: Seq<char>) -> bool {
    fragment.len() > 0 && (fragment.last() == '.' || fragment.last() == '!' || fragment.last()
        == '?')
}

/// The fragment is kept: it is not empty, has tokens enough, and ends as a
/// sentence does.
pub open spec fn is_accepted(fragment: Seq<char>) -> bool {
    fragment.len() > 0 && has_enough_tokens(fragment) && ends_sentence(fragment)
}

/// The accepted fragments of a page whose paragraphs hold these text nodes,
/// in the order of the paragraphs.
pub open spec fn page_fragments(paragraphs: Seq<Seq<Seq<char>>>) -> Seq<Seq<char>> {
    paragraphs.map_values(|texts: Seq<Seq<char>>| fragment_of(texts)).filter(
        |fragment: Seq<char>| is_accepted(fragment),
    )
}

/// The text nodes of the paragraphs of `document`.
pub open spec fn paragraphs_of(document: Seq<char>) -> Seq<Seq<Seq<char>>> {
    element_texts(document, PARAGRAPH_SELECTOR@)
}

/// The fragments as one text, one per line.
pub open spec fn lines(fragments: Seq<Seq<char>>) -> Seq<char> {
    joined(fragments, seq!['\n'])
}

/// The accepted text fragments of one page, in the order of its paragraphs.
#[derive(Debug, PartialEq, Eq)]
pub struct PageContent {
    pub fragments: Vec<String>,
}

impl View for PageContent {
    type V = Seq<Seq<char>>;

    open spec fn view(&self) -> Seq<Seq<char>> {
        self.fragments.deep_view()
    }
}

impl DeepView for PageContent {
    type V = Seq<Seq<char>>;

    open spec fn deep_view(&self) -> Seq<Seq<char>> {
        self.view()
    }
}

/// One paragraph more adds its fragment if that is accepted, and nothing
/// else.
pub proof fn lemma_page_fragments_step(paragraphs: Seq<Seq<Seq<char>>>, n: int)
    requires
        0 <= n < paragraphs.len(),
    ensures
        page_fragments(paragraphs.take(n + 1)) == if is_accepted(fragment_of(paragraphs[n])) {
            page_fragments(paragraphs.take(n)).push(fragment_of(paragraphs[n]))
        } else {
            page_fragments(paragraphs.take(n))
        },
{
    reveal(Seq::filter);
    let map = |texts: Seq<Seq<char>>| fragment_of(texts);
    let longer = paragraphs.take(n + 1).map_values(map);
    assert(longer.drop_last() =~= paragraphs.take(n).map_values(map));
    assert(longer.last() == fragment_of(paragraphs[n]));
}

/// A page without paragraphs has no fragments.
pub proof fn lemma_page_fragments_empty()
    ensures
        page_fragments(Seq::empty()) == Seq::<Seq<char>>::empty(),
{
    reveal(Seq::filter);
    let map = |texts: Seq<Seq<char>>| fragment_of(texts);
    assert(Seq::<Seq<Seq<char>>>::empty().map_values(map) =~= Seq::empty());
}

/// The fragments of a page with one paragraph: the text of that paragraph
/// if it is accepted, else none.
pub proof fn lemma_single_paragraph(texts: Seq<Seq<char>>)
    ensures
        page_fragments(seq![texts]) == if is_accepted(fragment_of(texts)) {
            seq![fragment_of(texts)]
        } else {
            Seq::<Seq<char>>::empty()
        },
{
    let paragraphs = seq![texts];
    lemma_page_fragments_step(paragraphs, 0);
    lemma_page_fragments_empty();
    assert(paragraphs.take(1) =~= paragraphs);
    assert(paragraphs.take(0) =~= Seq::empty());
    assert(Seq::<Seq<char>>::empty().push(fragment_of(texts)) =~= seq![fragment_of(texts)]);
}

/// A paragraph with fewer tokens than [`MIN_TOKENS`] is dropped, however it
/// ends.
pub proof fn lemma_few_tokens_are_dropped(texts: Seq<Seq<char>>)
    requires
        token_count(joined(texts, seq![' '])) < MIN_TOKENS,
    ensures
        !is_accepted(fragment_of(texts)),
        page_fragments(seq![texts]) == Seq::<Seq<char>>::empty(),
{
    lemma_trim_keeps_tokens(joined(texts, seq![' ']));
    lemma_single_paragraph(texts);
}

/// A paragraph that does not end as a sentence does is dropped, however
/// many tokens it has.
pub proof fn lemma_unfinished_sentence_is_dropped(texts: Seq<Seq<char>>)
    requires
        !ends_sentence(fragment_of(texts)),
    ensures
        !is_accepted(fragment_of(texts)),
        page_fragments(seq![texts]) == Seq::<Seq<char>>::empty(),
{
    lemma_single_paragraph(texts);
}

/// A paragraph with tokens enough that ends as a sentence does is kept as
/// it stands, trimmed.
pub proof fn lemma_sentence_is_kept_verbatim(texts: Seq<Seq<char>>)
    requires
        token_count(joined(texts, seq![' '])) >= MIN_TOKENS,
        ends_sentence(trim(joined(texts, seq![' ']))),
    ensures
        is_accepted(fragment_of(texts)),
        page_fragments(seq![texts]) == seq![trim(joined(texts, seq![' ']))],
{
    lemma_trim_keeps_tokens(joined(texts, seq![' ']));
    lemma_single_paragraph(texts);
}

/// Every fragment of a page is accepted, and there are no more fragments
/// than paragraphs.
pub proof fn lemma_page_fragments_are_accepted(paragraphs: Seq<Seq<Seq<char>>>)
    ensures
        page_fragments(paragraphs).len() <= paragraphs.len(),
        forall|i: int|
            0 <= i < page_fragments(paragraphs).len() ==> is_accepted(
                #[trigger] page_fragments(paragraphs)[i],
            ),
{
    let all = paragraphs.map_values(|texts: Seq<Seq<char>>| fragment_of(texts));
    let keep = |fragment: Seq<char>| is_accepted(fragment);
    all.lemma_filter_len(keep);
    assert forall|i: int| 0 <= i < page_fragments(paragraphs).len() implies is_accepted(
        #[trigger] page_fragments(paragraphs)[i],
    ) by {
        all.lemma_filter_pred(keep, i);
    }
}

/// One part more is joined on with the separator before it, unless it is
/// the first.
pub proof fn lemma_joined_step(parts: Seq<Seq<char>>, sep: Seq<char>, n: int)
    requires
        0 <= n < parts.len(),
    ensures
        joined(parts.take(n + 1), sep) == if n == 0 {
            parts[n]
        } else {
            joined(parts.take(n), sep) + sep + parts[n]
        },
{
    assert(parts.take(n + 1).drop_last() =~= parts.take(n));
}

/// The characters of the text nodes, joined by single spaces.
fn joined_chars(texts: &Vec<String>) -> (all: Vec<char>)
    ensures
        all@ == joined(texts.deep_view(), seq![' ']),
{
    let mut all: Vec<char> = Vec::new();
    let mut i: usize = 0;
    assert(texts.deep_view().take(0) =~= Seq::empty());
    while i < texts.len()
        invariant
            i <= texts@.len(),
            all@ == joined(texts.deep_view().take(i as int), seq![' ']),
        decreases texts@.len() - i,
    {
        let ghost before = all@;
        if i > 0 {
            all.push(' ');
        }
        let part = chars_of(texts[i].as_str());
        append_chars(&mut all, part.as_slice());
        proof {
            lemma_joined_step(texts.deep_view(), seq![' '], i as int);
            assert(before.push(' ') =~= before + seq![' ']);
            assert(Seq::<char>::empty() + part@ =~= part@);
        }
        i += 1;
    }
    assert(texts.deep_view().take(texts@.len() as int) =~= texts.deep_view());
    all
}

/// Decides whether the characters of a fragment are kept.
fn accepts_chars(fragment: &[char]) -> (accepted: bool)
    ensures
        accepted == is_accepted(fragment@),
{
    let n = fragment.len();
    if n == 0 {
        return false;
    }
    let last = fragment[n - 1];
    count_tokens(fragment) >= MIN_TOKENS && (last == '.' || last == '!' || last == '?')
}

/// Makes the text of one paragraph of its text nodes.
pub fn paragraph_fragment(texts: &Vec<String>) -> (fragment: String)
    ensures
        fragment@ == fragment_of(texts.deep_view()),
{
    let all = joined_chars(texts);
    string_of(trimmed(all.as_slice()))
}

/// Decides whether a fragment is kept.
pub fn accepts(fragment: &str) -> (accepted: bool)
    ensures
        accepted == is_accepted(fragment@),
{
    let chars = chars_of(fragment);
    accepts_chars(chars.as_slice())
}

/// Collects the accepted fragments of a page whose paragraphs hold these
/// text nodes.
pub fn page_content(paragraphs: &Vec<Vec<String>>) -> (content: PageContent)
    ensures
        content@ == page_fragments(paragraphs.deep_view()),
{
    let mut fragments: Vec<String> = Vec::new();
    let mut i: usize = 0;
    proof {
        lemma_page_fragments_empty();
        assert(paragraphs.deep_view().take(0) =~= Seq::empty());
        assert(fragments.deep_view() =~= Seq::empty());
    }
    while i < paragraphs.len()
        invariant
            i <= paragraphs@.len(),
            fragments.deep_view() == page_fragments(paragraphs.deep_view().take(i as int)),
        decreases paragraphs@.len() - i,
    {
        let ghost before = fragments.deep_view();
        let fragment = paragraph_fragment(&paragraphs[i]);
        proof {
            lemma_page_fragments_step(paragraphs.deep_view(), i as int);
            assert(paragraphs.deep_view()[i as int] == paragraphs@[i as int].deep_view());
        }
        if accepts(fragment.as_str()) {
            let ghost model = fragment@;
            fragments.push(fragment);
            assert(fragments.deep_view() =~= before.push(model));
        }
        i += 1;
    }
    assert(paragraphs.deep_view().take(paragraphs@.len() as int) =~= paragraphs.deep_view());
    PageContent { fragments }
}

/// The fragments as one text, one per line.
pub fn join_lines(fragments: &Vec<String>) -> (text: String)
    ensures
        text@ == lines(fragments.deep_view()),
{
    let mut text = String::new();
    let mut i: usize = 0;
    assert(fragments.deep_view().take(0) =~= Seq::empty());
    while i < fragments.len()
        invariant
            i <= fragments@.len(),
            text@ == lines(fragments.deep_view().take(i as int)),
        decreases fragments@.len() - i,
    {
        let ghost before = text@;
        if i > 0 {
            push_char(&mut text, '\n');
        }
        text.append(fragments[i].as_str());
        proof {
            lemma_joined_step(fragments.deep_view(), seq!['\n'], i as int);
            assert(before.push('\n') =~= before + seq!['\n']);
            assert(Seq::<char>::empty() + fragments@[i as int]@ =~= fragments@[i as int]@);
        }
        i += 1;
    }
    assert(fragments.deep_view().take(fragments@.len() as int) =~= fragments.deep_view());
    text
}

impl PageContent {
    /// The content as one text, one fragment per line.
    pub fn text(&self) -> (text: String)
        ensures
            text@ == lines(self@),
    {
        join_lines(&self.fragments)
    }
}

/// Extracts the readable text of a target page.
pub fn extract_content(document: &str) -> (content: PageContent)
    ensures
        content@ == page_fragments(paragraphs_of(document@)),
{
    let paragraphs = read_texts(document, PARAGRAPH_SELECTOR);
    page_content(&paragraphs)
}

} // verus!
