//! CSS selection over HTML text, by the `scraper` crate, with each matched
//! element handed back as plain values.
use vstd::prelude::*;

verus! {

/// What the library reads of one matched element: its text (the text of
/// all its descendants, in document order), its inner HTML, the value of
/// the attribute that was asked for, and its first child node: `None` when
/// it has no children, `Some(None)` when the first child is not a text
/// node, `Some(Some(t))` when it is the text `t`.
pub type ElementData = (Seq<char>, Seq<char>, Option<Seq<char>>, Option<Option<Seq<char>>>);

/// One element that a selector matched.
pub struct HtmlElement {
    pub text: String,
    pub inner_html: String,
    pub attr: Option<String>,
    pub first_child: Option<Option<String>>,
}

pub open spec fn opt_string_view(o: Option<String>) -> Option<Seq<char>> {
    match o {
        Some(s) => Some(s@),
        None => None,
    }
}

pub open spec fn first_child_view(o: Option<Option<String>>) -> Option<Option<Seq<char>>> {
    match o {
        Some(inner) => Some(opt_string_view(inner)),
        None => None,
    }
}

impl View for HtmlElement {
    type V = ElementData;

    open spec fn view(&self) -> ElementData {
        (self.text@, self.inner_html@, opt_string_view(self.attr), first_child_view(self.first_child))
    }
}

pub open spec fn elements_view(v: Seq<HtmlElement>) -> Seq<ElementData> {
    v.map_values(|e: HtmlElement| e@)
}

pub open spec fn matches_view(m: Option<Vec<HtmlElement>>) -> Option<Seq<ElementData>> {
    match m {
        Some(v) => Some(elements_view(v@)),
        None => None,
    }
}

pub open spec fn nested_matches_view(m: Option<Option<Vec<HtmlElement>>>) -> Option<
    Option<Seq<ElementData>>,
> {
    match m {
        Some(inner) => Some(matches_view(inner)),
        None => None,
    }
}

/// The selectors that this crate queries with. Each is a chain of type,
/// class and id selectors joined by descendant combinators, a form that
/// `scraper::Selector::parse` accepts.
pub open spec fn known_selector(css: Seq<char>) -> bool {
    ||| css == "img"@
    ||| css == "input#hdnCheckedRidsFromMapView"@
    ||| css == "div.container"@
    ||| css == "div.row.searchResult"@
    ||| css == "a.listing-image img"@
    ||| css == "h4.address"@
    ||| css == "h4.rapIDXSearchResultsPriceTop strong"@
    ||| css == "span.listingNum"@
    ||| css == "span.listingStatus em"@
    ||| css == "div.specTableResults"@
    ||| css == "div.listing-info.listingBeds div"@
    ||| css == "div.listing-info.listingBaths div"@
    ||| css == "div.listing-info.listingSqFt div"@
    ||| css == "div.remarks div"@
}

/// The elements of the HTML document `html` that the selector `css`
/// matches, in document order, each with the attribute `attr`; `None` when
/// `css` is no valid selector.
pub uninterp spec fn document_select(html: Seq<char>, css: Seq<char>, attr: Seq<char>) -> Option<
    Seq<ElementData>,
>;

/// As `document_select`, with `html` parsed as a fragment of a `<body>`.
pub uninterp spec fn fragment_select(html: Seq<char>, css: Seq<char>, attr: Seq<char>) -> Option<
    Seq<ElementData>,
>;

/// In the HTML fragment `html`, the descendants of the first element that
/// `outer` matches which `inner` matches: `None` when either selector is
/// invalid, `Some(None)` when `outer` matches nothing.
pub uninterp spec fn fragment_select_within(
    html: Seq<char>,
    outer: Seq<char>,
    inner: Seq<char>,
    attr: Seq<char>,
) -> Option<Option<Seq<ElementData>>>;

/// `scraper::Html::parse_document`, then `Selector::parse(css)` and
/// `Html::select`, each match read as an `HtmlElement`. The contract names
/// the result (`document_select`): what an HTML parser and a CSS matcher
/// give is not restated here. It states only that each of the crate's own
/// selectors parses, so that the selection is made.
#[verifier::external_body]
pub(crate) fn select_in_document(html: &str, css: &str, attr: &str) -> (res: Option<Vec<HtmlElement>>)
    ensures
        matches_view(res) == document_select(html@, css@, attr@),
        known_selector(css@) ==> res is Some,
{
    let selector = scraper::Selector::parse(css).ok()?;
    let doc = scraper::Html::parse_document(html);
    Some(doc.select(&selector).map(|e| HtmlElement {
        text: e.text().collect(),
        inner_html: e.inner_html(),
        attr: e.attr(attr).map(String::from),
        first_child: e.first_child().map(|c| c.value().as_text().map(|t| t.to_string())),
    }).collect())
}

/// `scraper::Html::parse_fragment`, then `Selector::parse(css)` and
/// `Html::select`, each match read as an `HtmlElement`; the result is named
/// (`fragment_select`), and of it only that the crate's own selectors parse
/// is stated.
#[verifier::external_body]
pub(crate) fn select_in_fragment(html: &str, css: &str, attr: &str) -> (res: Option<Vec<HtmlElement>>)
    ensures
        matches_view(res) == fragment_select(html@, css@, attr@),
        known_selector(css@) ==> res is Some,
{
    let selector = scraper::Selector::parse(css).ok()?;
    let doc = scraper::Html::parse_fragment(html);
    Some(doc.select(&selector).map(|e| HtmlElement {
        text: e.text().collect(),
        inner_html: e.inner_html(),
        attr: e.attr(attr).map(String::from),
        first_child: e.first_child().map(|c| c.value().as_text().map(|t| t.to_string())),
    }).collect())
}

/// `scraper::Html::parse_fragment`, the first match of `outer`, and
/// `ElementRef::select` of `inner` within it, each match read as an
/// `HtmlElement`; the result is named (`fragment_select_within`), and of it
/// only that the crate's own selectors parse is stated.
#[verifier::external_body]
pub(crate) fn select_within_first(html: &str, outer: &str, inner: &str, attr: &str) -> (res: Option<
    Option<Vec<HtmlElement>>,
>)
    ensures
        nested_matches_view(res) == fragment_select_within(html@, outer@, inner@, attr@),
        known_selector(outer@) && known_selector(inner@) ==> res is Some,
{
    let outer_sel = scraper::Selector::parse(outer).ok()?;
    let inner_sel = scraper::Selector::parse(inner).ok()?;
    let doc = scraper::Html::parse_fragment(html);
    Some(doc.select(&outer_sel).next().map(|o| o.select(&inner_sel).map(|e| HtmlElement {
        text: e.text().collect(),
        inner_html: e.inner_html(),
        attr: e.attr(attr).map(String::from),
        first_child: e.first_child().map(|c| c.value().as_text().map(|t| t.to_string())),
    }).collect()))
}

} // verus!
