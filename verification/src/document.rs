//! HTML documents: which elements a selector picks, and what the pipeline
//! reads of each.

use vstd::prelude::*;

verus! {

/// What the pipeline reads of one element of a document.
#[derive(Debug, PartialEq, Eq)]
pub struct Element {
    /// The value of the attribute that was asked for, where the element has it.
    pub attribute: Option<String>,
    /// The text nodes below the element, in order.
    pub texts: Vec<String>,
}

/// The mathematical model of an [`Element`].
pub struct ElementModel {
    pub attribute: Option<Seq<char>>,
    pub texts: Seq<Seq<char>>,
}

impl DeepView for Element {
    type V = ElementModel;

    open spec fn deep_view(&self) -> ElementModel {
        ElementModel { attribute: self.attribute.deep_view(), texts: self.texts.deep_view() }
    }
}

impl View for Element {
    type V = ElementModel;

    open spec fn view(&self) -> ElementModel {
        self.deep_view()
    }
}

/// What the scraper crate finds in `document`: nothing where it rejects
/// `selector`, else the elements that match it, in the order in which its
/// `select` yields them, each with its value of `attribute` and its text
/// nodes.
pub uninterp spec fn selected_elements(
    document: Seq<char>,
    selector: Seq<char>,
    attribute: Seq<char>,
) -> Option<Seq<ElementModel>>;

/// `Selector::parse`, `Html::parse_document` and `Html::select` of the
/// scraper crate, with `Element::attr` and `ElementRef::text` read off each
/// element that `select` yields. The result is a function of the three
/// texts alone; it is `None` exactly where `Selector::parse` returns an
/// error.
#[verifier::external_body]
fn select_elements(document: &str, selector: &str, attribute: &str) -> (elements: Option<
    Vec<Element>,
>)
    ensures
        elements.deep_view() == selected_elements(document@, selector@, attribute@),
{
    match scraper::Selector::parse(selector) {
        Ok(selector) => {
            let html = scraper::Html::parse_document(document);
            let mut elements = Vec::new();
            for element in html.select(&selector) {
                let attribute = element.value().attr(attribute).map(String::from);
                let texts = element.text().map(String::from).collect();
                elements.push(Element { attribute, texts });
            }
            Some(elements)
        },
        Err(_) => None,
    }
}

/// The values of `attribute` of the elements that `selector` picks; none
/// where the selector is rejected.
pub open spec fn attribute_values(
    document: Seq<char>,
    selector: Seq<char>,
    attribute: Seq<char>,
) -> Seq<Option<Seq<char>>> {
    match selected_elements(document, selector, attribute) {
        Some(elements) => elements.map_values(|e: ElementModel| e.attribute),
        None => Seq::empty(),
    }
}

/// The text nodes of the elements that `selector` picks; none where the
/// selector is rejected.
pub open spec fn element_texts(document: Seq<char>, selector: Seq<char>) -> Seq<Seq<Seq<char>>> {
    match selected_elements(document, selector, Seq::empty()) {
        Some(elements) => elements.map_values(|e: ElementModel| e.texts),
        None => Seq::empty(),
    }
}

/// Reads the values of `attribute` off the elements that `selector` picks.
pub(crate) fn read_attribute(document: &str, selector: &str, attribute: &str) -> (values: Vec<
    Option<String>,
>)
    ensures
        values.deep_view() == attribute_values(document@, selector@, attribute@),
{
    let mut values: Vec<Option<String>> = Vec::new();
    match select_elements(document, selector, attribute) {
        Some(elements) => {
            let ghost models = elements.deep_view();
            for element in it: elements
                invariant
                    it.seq().len() == models.len(),
                    forall|k: int| 0 <= k < models.len() ==> it.seq()[k].deep_view() == models[k],
                    values.deep_view() == models.take(it.index()).map_values(
                        |e: ElementModel| e.attribute,
                    ),
            {
                let ghost before = values.deep_view();
                assert(element.deep_view() == models[it.index()]);
                values.push(element.attribute);
                assert(values.deep_view() =~= before.push(models[it.index()].attribute));
            }
            assert(models.take(models.len() as int) =~= models);
        },
        None => {
            assert(values.deep_view() =~= Seq::empty());
        },
    }
    values
}

/// Reads the text nodes off the elements that `selector` picks.
pub(crate) fn read_texts(document: &str, selector: &str) -> (texts: Vec<Vec<String>>)
    ensures
        texts.deep_view() == element_texts(document@, selector@),
{
    let mut texts: Vec<Vec<String>> = Vec::new();
    proof {
        reveal_strlit("");
        assert(""@ =~= Seq::<char>::empty());
    }
    match select_elements(document, selector, "") {
        Some(elements) => {
            let ghost models = elements.deep_view();
            for element in it: elements
                invariant
                    it.seq().len() == models.len(),
                    forall|k: int| 0 <= k < models.len() ==> it.seq()[k].deep_view() == models[k],
                    texts.deep_view() == models.take(it.index()).map_values(
                        |e: ElementModel| e.texts,
                    ),
            {
                let ghost before = texts.deep_view();
                assert(element.deep_view() == models[it.index()]);
                texts.push(element.texts);
                assert(texts.deep_view() =~= before.push(models[it.index()].texts));
            }
            assert(models.take(models.len() as int) =~= models);
        },
        None => {
            assert(texts.deep_view() =~= Seq::empty());
        },
    }
    texts
}

} // verus!
