//! Real-estate listings: reading a listing search page, the fields of each
//! listing, the public images and the county of its address, and the record
//! that is posted to the listings API.
use std::fmt::Write;
use vstd::prelude::*;
use vstd::string::*;

use crate::html::{
    ElementData, HtmlElement, document_select, elements_view, fragment_select,
    fragment_select_within, matches_view, opt_string_view, select_in_document, select_in_fragment,
    select_within_first,
};
use crate::numbers::{decimal, decimal_spec, parse_i32, parse_i8, parse_int_spec};
use crate::text::{
    first_piece, first_segment, is_trim_of, join_spec, lemma_replace_char_removed,
    lemma_trim_is_trim_of, replace, replace_spec, split, split_spec, trim, trim_spec,
};

verus! {

// ---------------------------------------------------------------------------
// Types
// ---------------------------------------------------------------------------

/// One picture of a listing, as the MLS picture service describes it.
pub struct ListingImage {
    pub thumb_url: String,
    pub image_url: String,
    pub comment: String,
    pub copyright: String,
    pub privacy_status: i8,
    pub private_indicator_visible: bool,
    pub private_indicator_text: String,
}

/// One component of a geocoded address.
pub struct AddressComponent {
    pub long_name: String,
    pub types: Vec<String>,
}

/// One result of a geocoding request.
pub struct GoogleGeocodeResults {
    pub address_components: Vec<AddressComponent>,
}

/// The answer to a geocoding request.
pub struct GoogleGeocodeResponse {
    pub results: Vec<GoogleGeocodeResults>,
}

/// The record of one listing that is posted to the listings API.
pub struct Listing {
    pub id: i32,
    pub address: String,
    pub cover_image: String,
    pub images: String,
    pub price: i32,
    pub description: String,
    pub listing_status: String,
    pub listing_number: String,
    pub bedrooms: i8,
    pub square_feet: i32,
    pub bathrooms: i8,
    pub county: Option<String>,
    pub slug: String,
    pub last_checked_at: String,
}

/// A listing search page: the listing ids, in page order, and the inner
/// HTML of each listing block.
pub struct ListingPage {
    pub ids: Vec<String>,
    pub listings: Vec<String>,
}

/// The fields of one listing block.
pub struct ListingFields {
    pub cover_image: String,
    pub address: String,
    pub price: i32,
    pub listing_number: String,
    pub listing_status: String,
    pub bedrooms: i8,
    pub bathrooms: i8,
    pub square_feet: i32,
    pub description: String,
}

/// The abstract value of `ListingFields`.
pub struct ListingFieldsView {
    pub cover_image: Seq<char>,
    pub address: Seq<char>,
    pub price: i32,
    pub listing_number: Seq<char>,
    pub listing_status: Seq<char>,
    pub bedrooms: i8,
    pub bathrooms: i8,
    pub square_feet: i32,
    pub description: Seq<char>,
}

impl View for ListingFields {
    type V = ListingFieldsView;

    open spec fn view(&self) -> ListingFieldsView {
        ListingFieldsView {
            cover_image: self.cover_image@,
            address: self.address@,
            price: self.price,
            listing_number: self.listing_number@,
            listing_status: self.listing_status@,
            bedrooms: self.bedrooms,
            bathrooms: self.bathrooms,
            square_feet: self.square_feet,
            description: self.description@,
        }
    }
}

/// What a step of reading a listing was about.
#[derive(PartialEq, Eq, Structural, Debug, Clone, Copy)]
pub enum Field {
    ListingIds,
    RootContainer,
    CoverImage,
    Address,
    Price,
    ListingNumber,
    ListingStatus,
    Specs,
    Bedrooms,
    Bathrooms,
    SquareFeet,
    Description,
    ListingId,
    CheckedAt,
}

/// What went wrong in that step.
#[derive(PartialEq, Eq, Structural, Debug, Clone, Copy)]
pub enum Problem {
    /// Nothing on the page matched.
    NotFound,
    /// The matched element lacks the attribute that holds the value.
    NoAttribute,
    /// The matched element has no child node.
    NoWrapper,
    /// The first child node of the matched element is not text.
    NoText,
    /// The text is no number of the field's type.
    NotANumber,
    /// The clock reading is out of the calendar's range.
    OutOfRange,
}

/// Why a listing could not be read.
#[derive(PartialEq, Eq, Structural, Debug, Clone, Copy)]
pub struct ListingError {
    pub field: Field,
    pub problem: Problem,
}

pub open spec fn err(field: Field, problem: Problem) -> ListingError {
    ListingError { field, problem }
}

// ---------------------------------------------------------------------------
// The listing search page
// ---------------------------------------------------------------------------

pub open spec fn inner_htmls(s: Seq<ElementData>) -> Seq<Seq<char>> {
    s.map_values(|e: ElementData| e.1)
}

/// The page that the matches of the three page selectors describe: `None`
/// when the page has no listing-ids input.
pub open spec fn page_spec(
    ids: Seq<ElementData>,
    roots: Seq<ElementData>,
    listings: Seq<ElementData>,
) -> Result<Option<(Seq<Seq<char>>, Seq<Seq<char>>)>, ListingError> {
    if ids.len() == 0 {
        Ok(None)
    } else if ids[0].2 is None {
        Err(err(Field::ListingIds, Problem::NoAttribute))
    } else if roots.len() == 0 {
        Err(err(Field::RootContainer, Problem::NotFound))
    } else {
        Ok(Some((split_spec(ids[0].2->0, ','), inner_htmls(listings))))
    }
}

pub open spec fn page_view(p: Result<Option<ListingPage>, ListingError>) -> Result<
    Option<(Seq<Seq<char>>, Seq<Seq<char>>)>,
    ListingError,
> {
    match p {
        Ok(Some(page)) => Ok(
            Some(
                (
                    page.ids@.map_values(|t: String| t@),
                    page.listings@.map_values(|t: String| t@),
                ),
            ),
        ),
        Ok(None) => Ok(None),
        Err(e) => Err(e),
    }
}

/// The listing page that the matches of the listing-ids input, the root
/// container and the listing blocks describe.
pub fn page_from_matches(
    ids: &Vec<HtmlElement>,
    roots: &Vec<HtmlElement>,
    listings: &Vec<HtmlElement>,
) -> (res: Result<Option<ListingPage>, ListingError>)
    ensures
        page_view(res) == page_spec(
            crate::html::elements_view(ids@),
            crate::html::elements_view(roots@),
            crate::html::elements_view(listings@),
        ),
        ids@.len() == 0 ==> res matches Ok(None),
        res matches Ok(Some(page)) ==> {
            &&& ids@.len() > 0 && ids@[0].attr is Some
            &&& join_spec(page.ids@.map_values(|t: String| t@), ',') == ids@[0].attr->0@
            &&& forall|k: int, i: int|
                0 <= k < page.ids@.len() && 0 <= i < page.ids@[k]@.len() ==> #[trigger] page.ids@[k]@[i]
                    != ','
            &&& page.listings@.len() == listings@.len()
            &&& forall|k: int|
                0 <= k < listings@.len() ==> #[trigger] page.listings@[k]@ == listings@[k].inner_html@
        },
{
    if ids.len() == 0 {
        return Ok(None);
    }
    let value = match &ids[0].attr {
        Some(v) => v,
        None => {
            return Err(ListingError { field: Field::ListingIds, problem: Problem::NoAttribute });
        },
    };
    if roots.len() == 0 {
        return Err(ListingError { field: Field::RootContainer, problem: Problem::NotFound });
    }
    let id_list = split(value.as_str(), ',');
    let mut blocks: Vec<String> = Vec::new();
    let mut i: usize = 0;
    while i < listings.len()
        invariant
            i <= listings.len(),
            blocks@.map_values(|t: String| t@) == inner_htmls(
                crate::html::elements_view(listings@),
            ).take(i as int),
        decreases listings.len() - i,
    {
        assert(crate::html::elements_view(listings@)[i as int] == listings@[i as int]@);
        assert(inner_htmls(crate::html::elements_view(listings@))[i as int]
            == listings@[i as int].inner_html@);
        let ghost before = blocks@;
        let block = listings[i].inner_html.clone();
        blocks.push(block);
        assert(blocks@ == before.push(block));
        assert(blocks@.map_values(|t: String| t@) =~= before.map_values(|t: String| t@).push(block@));
        i += 1;
        assert(blocks@.map_values(|t: String| t@) =~= inner_htmls(
            crate::html::elements_view(listings@),
        ).take(i as int));
    }
    assert(inner_htmls(crate::html::elements_view(listings@)).take(i as int) =~= inner_htmls(
        crate::html::elements_view(listings@),
    ));
    assert forall|k: int| 0 <= k < listings@.len() implies #[trigger] blocks@[k]@
        == listings@[k].inner_html@ by {
        assert(blocks@.map_values(|t: String| t@)[k] == blocks@[k]@);
        assert(crate::html::elements_view(listings@)[k] == listings@[k]@);
    }
    Ok(Some(ListingPage { ids: id_list, listings: blocks }))
}

/// What reading the listing search page `html` gives.
pub open spec fn scan_spec(html: Seq<char>) -> Result<
    Option<(Seq<Seq<char>>, Seq<Seq<char>>)>,
    ListingError,
> {
    page_spec(
        document_select(html, "input#hdnCheckedRidsFromMapView"@, "value"@)->0,
        document_select(html, "div.container"@, ""@)->0,
        document_select(html, "div.row.searchResult"@, ""@)->0,
    )
}

/// Reads a listing search page: the listing ids from the hidden input that
/// holds them, separated by commas, and the inner HTML of every listing
/// block. `Ok(None)` when the page has no such input.
pub fn scan_listing_page(html: &str) -> (res: Result<Option<ListingPage>, ListingError>)
    ensures
        page_view(res) == scan_spec(html@),
{
    let none: Vec<HtmlElement> = Vec::new();
    let ids = select_in_document(html, "input#hdnCheckedRidsFromMapView", "value").unwrap();
    if ids.len() == 0 || ids[0].attr.is_none() {
        assert(crate::html::elements_view(none@) =~= Seq::<ElementData>::empty());
        return page_from_matches(&ids, &none, &none);
    }
    let roots = select_in_document(html, "div.container", "").unwrap();
    if roots.len() == 0 {
        assert(crate::html::elements_view(none@) =~= Seq::<ElementData>::empty());
        return page_from_matches(&ids, &roots, &none);
    }
    let listings = select_in_document(html, "div.row.searchResult", "").unwrap();
    page_from_matches(&ids, &roots, &listings)
}

// ---------------------------------------------------------------------------
// The fields of one listing block
// ---------------------------------------------------------------------------

/// The matches of the selectors that the fields of a listing block are read
/// from. The three matches of the specs are taken within the block's first
/// `div.specTableResults`, `None` when it has none.
pub struct ListingMatches {
    pub cover: Vec<HtmlElement>,
    pub address: Vec<HtmlElement>,
    pub price: Vec<HtmlElement>,
    pub listing_number: Vec<HtmlElement>,
    pub listing_status: Vec<HtmlElement>,
    pub bedrooms: Option<Vec<HtmlElement>>,
    pub bathrooms: Option<Vec<HtmlElement>>,
    pub square_feet: Option<Vec<HtmlElement>>,
    pub description: Vec<HtmlElement>,
}

/// The abstract value of `ListingMatches`.
pub struct MatchesView {
    pub cover: Seq<ElementData>,
    pub address: Seq<ElementData>,
    pub price: Seq<ElementData>,
    pub listing_number: Seq<ElementData>,
    pub listing_status: Seq<ElementData>,
    pub bedrooms: Option<Seq<ElementData>>,
    pub bathrooms: Option<Seq<ElementData>>,
    pub square_feet: Option<Seq<ElementData>>,
    pub description: Seq<ElementData>,
}

impl View for ListingMatches {
    type V = MatchesView;

    open spec fn view(&self) -> MatchesView {
        MatchesView {
            cover: elements_view(self.cover@),
            address: elements_view(self.address@),
            price: elements_view(self.price@),
            listing_number: elements_view(self.listing_number@),
            listing_status: elements_view(self.listing_status@),
            bedrooms: matches_view(self.bedrooms),
            bathrooms: matches_view(self.bathrooms),
            square_feet: matches_view(self.square_feet),
            description: elements_view(self.description@),
        }
    }
}

/// The matches in the listing block `html` of the selectors its fields are
/// read from.
pub open spec fn block_matches(html: Seq<char>) -> MatchesView {
    MatchesView {
        cover: fragment_select(html, "a.listing-image img"@, "src"@)->0,
        address: fragment_select(html, "h4.address"@, ""@)->0,
        price: fragment_select(html, "h4.rapIDXSearchResultsPriceTop strong"@, ""@)->0,
        listing_number: fragment_select(html, "span.listingNum"@, ""@)->0,
        listing_status: fragment_select(html, "span.listingStatus em"@, ""@)->0,
        bedrooms: fragment_select_within(
            html,
            "div.specTableResults"@,
            "div.listing-info.listingBeds div"@,
            ""@,
        )->0,
        bathrooms: fragment_select_within(
            html,
            "div.specTableResults"@,
            "div.listing-info.listingBaths div"@,
            ""@,
        )->0,
        square_feet: fragment_select_within(
            html,
            "div.specTableResults"@,
            "div.listing-info.listingSqFt div"@,
            ""@,
        )->0,
        description: fragment_select(html, "div.remarks div"@, ""@)->0,
    }
}

pub open spec fn first_spec(m: Seq<ElementData>, field: Field) -> Result<ElementData, ListingError> {
    if m.len() == 0 {
        Err(err(field, Problem::NotFound))
    } else {
        Ok(m[0])
    }
}

/// The text of the first match.
pub open spec fn text_spec(m: Seq<ElementData>, field: Field) -> Result<
    Seq<char>,
    ListingError,
> {
    match first_spec(m, field) {
        Ok(e) => Ok(e.0),
        Err(x) => Err(x),
    }
}

/// The asked-for attribute of the first match.
pub open spec fn attr_spec(m: Seq<ElementData>, field: Field) -> Result<
    Seq<char>,
    ListingError,
> {
    match first_spec(m, field) {
        Ok(e) => match e.2 {
            Some(a) => Ok(a),
            None => Err(err(field, Problem::NoAttribute)),
        },
        Err(x) => Err(x),
    }
}

/// The text of the first child node of the first match within the specs
/// table.
pub open spec fn child_text_spec(m: Option<Seq<ElementData>>, field: Field) -> Result<
    Seq<char>,
    ListingError,
> {
    match m {
        None => Err(err(Field::Specs, Problem::NotFound)),
        Some(s) => if s.len() == 0 {
            Err(err(field, Problem::NotFound))
        } else {
            match s[0].3 {
                None => Err(err(field, Problem::NoWrapper)),
                Some(None) => Err(err(field, Problem::NoText)),
                Some(Some(t)) => Ok(t),
            }
        },
    }
}

pub open spec fn map_text(
    r: Result<Seq<char>, ListingError>,
    f: spec_fn(Seq<char>) -> Seq<char>,
) -> Result<Seq<char>, ListingError> {
    match r {
        Ok(t) => Ok(f(t)),
        Err(x) => Err(x),
    }
}

/// The number that the text stands for, in `min..=max`.
pub open spec fn number_spec(
    r: Result<Seq<char>, ListingError>,
    field: Field,
    min: int,
    max: int,
) -> Result<int, ListingError> {
    match r {
        Err(x) => Err(x),
        Ok(t) => match parse_int_spec(t, min, max) {
            Some(v) => Ok(v),
            None => Err(err(field, Problem::NotANumber)),
        },
    }
}

/// The price text without its thousands separators and dollar sign.
pub open spec fn price_digits(t: Seq<char>) -> Seq<char> {
    replace_spec(replace_spec(t, ","@, ""@), "$"@, ""@)
}

/// The fields that the matches `m` give, or the first step that fails, in
/// the order cover image, address, price, listing number, status, specs
/// table, bedrooms, bathrooms, square feet, description.
pub open spec fn fields_spec(m: MatchesView) -> Result<ListingFieldsView, ListingError> {
    let cover = attr_spec(m.cover, Field::CoverImage);
    let address = text_spec(m.address, Field::Address);
    let price = number_spec(
        map_text(text_spec(m.price, Field::Price), |t: Seq<char>| price_digits(t)),
        Field::Price,
        i32::MIN as int,
        i32::MAX as int,
    );
    let number = text_spec(m.listing_number, Field::ListingNumber);
    let status = map_text(
        text_spec(m.listing_status, Field::ListingStatus),
        |t: Seq<char>| trim_spec(t),
    );
    let beds = number_spec(
        child_text_spec(m.bedrooms, Field::Bedrooms),
        Field::Bedrooms,
        i8::MIN as int,
        i8::MAX as int,
    );
    let baths = number_spec(
        map_text(
            child_text_spec(m.bathrooms, Field::Bathrooms),
            |t: Seq<char>| first_piece(t, ' '),
        ),
        Field::Bathrooms,
        i8::MIN as int,
        i8::MAX as int,
    );
    let sqft = number_spec(
        map_text(
            child_text_spec(m.square_feet, Field::SquareFeet),
            |t: Seq<char>| replace_spec(t, ","@, ""@),
        ),
        Field::SquareFeet,
        i32::MIN as int,
        i32::MAX as int,
    );
    let description = text_spec(m.description, Field::Description);
    if cover is Err {
        Err(cover->Err_0)
    } else if address is Err {
        Err(address->Err_0)
    } else if price is Err {
        Err(price->Err_0)
    } else if number is Err {
        Err(number->Err_0)
    } else if status is Err {
        Err(status->Err_0)
    } else if beds is Err {
        Err(beds->Err_0)
    } else if baths is Err {
        Err(baths->Err_0)
    } else if sqft is Err {
        Err(sqft->Err_0)
    } else if description is Err {
        Err(description->Err_0)
    } else {
        Ok(
            ListingFieldsView {
                cover_image: cover->Ok_0,
                address: address->Ok_0,
                price: price->Ok_0 as i32,
                listing_number: number->Ok_0,
                listing_status: status->Ok_0,
                bedrooms: beds->Ok_0 as i8,
                bathrooms: baths->Ok_0 as i8,
                square_feet: sqft->Ok_0 as i32,
                description: description->Ok_0,
            },
        )
    }
}

/// The text of the first child node of the first match within the specs
/// table, when there is a specs table, a match, a child and that child is
/// text.
pub open spec fn child_text_of(m: Option<Seq<ElementData>>) -> Option<Seq<char>> {
    match m {
        Some(b) => if b.len() > 0 {
            match b[0].3 {
                Some(Some(t)) => Some(t),
                _ => None,
            }
        } else {
            None
        },
        None => None,
    }
}

/// Whether `f` holds, field by field, what the matches `m` show: the `src`
/// of the first cover match, the texts of the first address, listing number
/// and description matches, the text of the first status match with only
/// its leading and trailing whitespace taken off, the price text with every
/// `,` and `$` left out read as a number, and, within the specs table, the first
/// text of the bedrooms, of the bathrooms up to its first space, and of the
/// square feet with every `,` left out, each read as a number.
pub open spec fn is_read_from(f: ListingFieldsView, m: MatchesView) -> bool {
    &&& m.cover.len() > 0 && m.cover[0].2 == Some(f.cover_image)
    &&& m.address.len() > 0 && f.address == m.address[0].0
    &&& m.price.len() > 0 && parse_int_spec(
        m.price[0].0.filter(|c: char| c != ',').filter(|c: char| c != '$'),
        i32::MIN as int,
        i32::MAX as int,
    ) == Some(f.price as int)
    &&& m.listing_number.len() > 0 && f.listing_number == m.listing_number[0].0
    &&& m.listing_status.len() > 0 && f.listing_status == trim_spec(m.listing_status[0].0)
    &&& child_text_of(m.bedrooms) matches Some(t) && parse_int_spec(
        t,
        i8::MIN as int,
        i8::MAX as int,
    ) == Some(f.bedrooms as int)
    &&& child_text_of(m.bathrooms) matches Some(t) && parse_int_spec(
        first_piece(t, ' '),
        i8::MIN as int,
        i8::MAX as int,
    ) == Some(f.bathrooms as int)
    &&& child_text_of(m.square_feet) matches Some(t) && parse_int_spec(
        t.filter(|c: char| c != ','),
        i32::MIN as int,
        i32::MAX as int,
    ) == Some(f.square_feet as int)
    &&& m.description.len() > 0 && f.description == m.description[0].0
}

/// The fields read from a listing block hold what its matches show, field by
/// field; in particular the status is the whole text of the first status
/// match with only its leading and trailing whitespace taken off, so inner
/// spaces stay.
pub proof fn lemma_fields_read(m: MatchesView)
    requires
        fields_spec(m) is Ok,
    ensures
        is_read_from(fields_spec(m)->Ok_0, m),
        is_trim_of(fields_spec(m)->Ok_0.listing_status, m.listing_status[0].0),
{
    lemma_trim_is_trim_of(m.listing_status[0].0);
    reveal_strlit(",");
    reveal_strlit("$");
    reveal_strlit("");
    assert(","@ =~= seq![',']);
    assert("$"@ =~= seq!['$']);
    assert(""@ =~= Seq::<char>::empty());
    let p = m.price[0].0;
    lemma_replace_char_removed(p, ',');
    lemma_replace_char_removed(replace_spec(p, ","@, ""@), '$');
    if let Some(t) = child_text_of(m.square_feet) {
        lemma_replace_char_removed(t, ',');
    }
}

pub open spec fn text_result_view(r: Result<String, ListingError>) -> Result<
    Seq<char>,
    ListingError,
> {
    match r {
        Ok(t) => Ok(t@),
        Err(x) => Err(x),
    }
}

pub open spec fn fields_result_view(r: Result<ListingFields, ListingError>) -> Result<
    ListingFieldsView,
    ListingError,
> {
    match r {
        Ok(f) => Ok(f@),
        Err(x) => Err(x),
    }
}

fn first_text(v: &Vec<HtmlElement>, field: Field) -> (res: Result<String, ListingError>)
    ensures
        text_result_view(res) == text_spec(elements_view(v@), field),
{
    if v.len() == 0 {
        Err(ListingError { field, problem: Problem::NotFound })
    } else {
        assert(elements_view(v@)[0] == v@[0]@);
        Ok(v[0].text.clone())
    }
}

fn first_attr(v: &Vec<HtmlElement>, field: Field) -> (res: Result<String, ListingError>)
    ensures
        text_result_view(res) == attr_spec(elements_view(v@), field),
{
    if v.len() == 0 {
        Err(ListingError { field, problem: Problem::NotFound })
    } else {
        assert(elements_view(v@)[0] == v@[0]@);
        match &v[0].attr {
            Some(a) => Ok(a.clone()),
            None => Err(ListingError { field, problem: Problem::NoAttribute }),
        }
    }
}

fn first_child_text(m: &Option<Vec<HtmlElement>>, field: Field) -> (res: Result<
    String,
    ListingError,
>)
    ensures
        text_result_view(res) == child_text_spec(matches_view(*m), field),
{
    match m {
        None => Err(ListingError { field: Field::Specs, problem: Problem::NotFound }),
        Some(v) => {
            if v.len() == 0 {
                Err(ListingError { field, problem: Problem::NotFound })
            } else {
                assert(crate::html::elements_view(v@)[0] == v@[0]@);
                match &v[0].first_child {
                    None => Err(ListingError { field, problem: Problem::NoWrapper }),
                    Some(None) => Err(ListingError { field, problem: Problem::NoText }),
                    Some(Some(t)) => Ok(t.clone()),
                }
            }
        },
    }
}

fn to_i32(r: Result<String, ListingError>, field: Field) -> (res: Result<i32, ListingError>)
    ensures
        match res {
            Ok(v) => number_spec(text_result_view(r), field, i32::MIN as int, i32::MAX as int)
                == Ok::<int, ListingError>(v as int),
            Err(x) => number_spec(text_result_view(r), field, i32::MIN as int, i32::MAX as int)
                == Err::<int, ListingError>(x),
        },
{
    match r {
        Err(x) => Err(x),
        Ok(t) => match parse_i32(t.as_str()) {
            Some(v) => Ok(v),
            None => Err(ListingError { field, problem: Problem::NotANumber }),
        },
    }
}

fn to_i8(r: Result<String, ListingError>, field: Field) -> (res: Result<i8, ListingError>)
    ensures
        match res {
            Ok(v) => number_spec(text_result_view(r), field, i8::MIN as int, i8::MAX as int)
                == Ok::<int, ListingError>(v as int),
            Err(x) => number_spec(text_result_view(r), field, i8::MIN as int, i8::MAX as int)
                == Err::<int, ListingError>(x),
        },
{
    match r {
        Err(x) => Err(x),
        Ok(t) => match parse_i8(t.as_str()) {
            Some(v) => Ok(v),
            None => Err(ListingError { field, problem: Problem::NotANumber }),
        },
    }
}

/// `t` without thousands separators and dollar signs.
pub fn strip_price(t: &str) -> (res: String)
    ensures
        res@ == price_digits(t@),
{
    proof {
        reveal_strlit(",");
        reveal_strlit("$");
    }
    let no_commas = replace(t, ",", "");
    replace(no_commas.as_str(), "$", "")
}

/// The fields of a listing block from the matches of its selectors, or the
/// first step that fails.
pub fn fields_from_matches(m: &ListingMatches) -> (res: Result<ListingFields, ListingError>)
    ensures
        fields_result_view(res) == fields_spec(m@),
        res is Ok ==> is_read_from(res->Ok_0@, m@),
        res is Ok ==> is_trim_of(res->Ok_0.listing_status@, m@.listing_status[0].0),
{
    proof {
        reveal_strlit(",");
    }
    let cover_image = match first_attr(&m.cover, Field::CoverImage) {
        Ok(v) => v,
        Err(x) => return Err(x),
    };
    let address = match first_text(&m.address, Field::Address) {
        Ok(v) => v,
        Err(x) => return Err(x),
    };
    let price_text = match first_text(&m.price, Field::Price) {
        Ok(t) => Ok(strip_price(t.as_str())),
        Err(x) => Err(x),
    };
    let price = match to_i32(price_text, Field::Price) {
        Ok(v) => v,
        Err(x) => return Err(x),
    };
    let listing_number = match first_text(&m.listing_number, Field::ListingNumber) {
        Ok(v) => v,
        Err(x) => return Err(x),
    };
    let listing_status = match first_text(&m.listing_status, Field::ListingStatus) {
        Ok(v) => trim(v.as_str()),
        Err(x) => return Err(x),
    };
    let bedrooms = match to_i8(first_child_text(&m.bedrooms, Field::Bedrooms), Field::Bedrooms) {
        Ok(v) => v,
        Err(x) => return Err(x),
    };
    let baths_text = match first_child_text(&m.bathrooms, Field::Bathrooms) {
        Ok(t) => Ok(first_segment(t.as_str(), ' ')),
        Err(x) => Err(x),
    };
    let bathrooms = match to_i8(baths_text, Field::Bathrooms) {
        Ok(v) => v,
        Err(x) => return Err(x),
    };
    let sqft_text = match first_child_text(&m.square_feet, Field::SquareFeet) {
        Ok(t) => Ok(replace(t.as_str(), ",", "")),
        Err(x) => Err(x),
    };
    let square_feet = match to_i32(sqft_text, Field::SquareFeet) {
        Ok(v) => v,
        Err(x) => return Err(x),
    };
    let description = match first_text(&m.description, Field::Description) {
        Ok(v) => v,
        Err(x) => return Err(x),
    };
    let fields = ListingFields {
        cover_image,
        address,
        price,
        listing_number,
        listing_status,
        bedrooms,
        bathrooms,
        square_feet,
        description,
    };
    assert(fields_result_view(Ok(fields)) == fields_spec(m@));
    proof {
        lemma_fields_read(m@);
    }
    Ok(fields)
}

/// Queries the listing block `html` with the selectors of its fields.
pub fn listing_matches(html: &str) -> (res: ListingMatches)
    ensures
        res@ == block_matches(html@),
{
    ListingMatches {
        cover: select_in_fragment(html, "a.listing-image img", "src").unwrap(),
        address: select_in_fragment(html, "h4.address", "").unwrap(),
        price: select_in_fragment(html, "h4.rapIDXSearchResultsPriceTop strong", "").unwrap(),
        listing_number: select_in_fragment(html, "span.listingNum", "").unwrap(),
        listing_status: select_in_fragment(html, "span.listingStatus em", "").unwrap(),
        bedrooms: select_within_first(
            html,
            "div.specTableResults",
            "div.listing-info.listingBeds div",
            "",
        ).unwrap(),
        bathrooms: select_within_first(
            html,
            "div.specTableResults",
            "div.listing-info.listingBaths div",
            "",
        ).unwrap(),
        square_feet: select_within_first(
            html,
            "div.specTableResults",
            "div.listing-info.listingSqFt div",
            "",
        ).unwrap(),
        description: select_in_fragment(html, "div.remarks div", "").unwrap(),
    }
}

/// Reads the fields of the listing block `html` (the inner HTML of one
/// search result).
pub fn extract_listing_fields(html: &str) -> (res: Result<ListingFields, ListingError>)
    ensures
        fields_result_view(res) == fields_spec(block_matches(html@)),
        res is Ok ==> is_read_from(res->Ok_0@, block_matches(html@)),
        res is Ok ==> is_trim_of(
            res->Ok_0.listing_status@,
            block_matches(html@).listing_status[0].0,
        ),
{
    let m = listing_matches(html);
    fields_from_matches(&m)
}

// ---------------------------------------------------------------------------
// Listing ids, pictures and county
// ---------------------------------------------------------------------------

/// The id of the listing at `index`: the listing-id text at that position,
/// read as an `i32`.
pub open spec fn listing_id_spec(ids: Seq<Seq<char>>, index: int) -> Result<int, ListingError> {
    if index < 0 || index >= ids.len() {
        Err(err(Field::ListingId, Problem::NotFound))
    } else {
        match parse_int_spec(ids[index], i32::MIN as int, i32::MAX as int) {
            Some(v) => Ok(v),
            None => Err(err(Field::ListingId, Problem::NotANumber)),
        }
    }
}

/// The id of the listing at `index` of the page's id list.
pub fn listing_id_at(ids: &Vec<String>, index: usize) -> (res: Result<i32, ListingError>)
    ensures
        match res {
            Ok(v) => listing_id_spec(ids@.map_values(|t: String| t@), index as int) == Ok::<
                int,
                ListingError,
            >(v as int),
            Err(x) => listing_id_spec(ids@.map_values(|t: String| t@), index as int) == Err::<
                int,
                ListingError,
            >(x),
        },
{
    if index >= ids.len() {
        return Err(ListingError { field: Field::ListingId, problem: Problem::NotFound });
    }
    assert(ids@.map_values(|t: String| t@)[index as int] == ids@[index as int]@);
    match parse_i32(ids[index].as_str()) {
        Some(v) => Ok(v),
        None => Err(ListingError { field: Field::ListingId, problem: Problem::NotANumber }),
    }
}

/// The URLs of the public pictures (privacy status 0), in order.
pub open spec fn public_urls_spec(images: Seq<ListingImage>) -> Seq<Seq<char>>
    decreases images.len(),
{
    if images.len() == 0 {
        Seq::empty()
    } else {
        let rest = public_urls_spec(images.drop_last());
        if images.last().privacy_status == 0 {
            rest.push(images.last().image_url@)
        } else {
            rest
        }
    }
}

/// Whether a picture is public: its privacy status is 0.
pub open spec fn is_public(i: ListingImage) -> bool {
    i.privacy_status == 0
}

/// The public picture URLs are the image URLs (not the thumbnails) of the
/// pictures whose privacy status is 0, one for each, in their order.
pub proof fn lemma_public_urls_filter(images: Seq<ListingImage>)
    ensures
        public_urls_spec(images) == images.filter(|i: ListingImage| is_public(i)).map_values(
            |i: ListingImage| i.image_url@,
        ),
    decreases images.len(),
{
    reveal(Seq::filter);
    if images.len() > 0 {
        let rest = images.drop_last();
        lemma_public_urls_filter(rest);
        let kept = rest.filter(|i: ListingImage| is_public(i));
        if is_public(images.last()) {
            assert(kept.push(images.last()).map_values(|i: ListingImage| i.image_url@)
                =~= kept.map_values(|i: ListingImage| i.image_url@).push(images.last().image_url@));
        }
    }
}

/// The URLs of the pictures that are public (privacy status 0), in order.
pub fn public_image_urls(images: &Vec<ListingImage>) -> (res: Vec<String>)
    ensures
        res@.map_values(|t: String| t@) == public_urls_spec(images@),
        res@.map_values(|t: String| t@) == images@.filter(|i: ListingImage| is_public(i)).map_values(
            |i: ListingImage| i.image_url@,
        ),
{
    let mut out: Vec<String> = Vec::new();
    let mut i: usize = 0;
    assert(images@.take(0) =~= Seq::<ListingImage>::empty());
    while i < images.len()
        invariant
            i <= images.len(),
            out@.map_values(|t: String| t@) == public_urls_spec(images@.take(i as int)),
        decreases images.len() - i,
    {
        assert(images@.take(i + 1).drop_last() =~= images@.take(i as int));
        assert(images@.take(i + 1).last() == images@[i as int]);
        if images[i].privacy_status == 0 {
            let ghost before = out@;
            let url = images[i].image_url.clone();
            out.push(url);
            assert(out@.map_values(|t: String| t@) =~= before.map_values(|t: String| t@).push(
                url@,
            ));
        }
        i += 1;
    }
    assert(images@.take(i as int) =~= images@);
    proof {
        lemma_public_urls_filter(images@);
    }
    out
}

/// The type that marks the county among the components of an address.
pub open spec fn county_type() -> Seq<char> {
    "administrative_area_level_2"@
}

/// The name of the last component in `cs` whose types hold the county type.
pub open spec fn county_in_components(cs: Seq<AddressComponent>) -> Option<Seq<char>>
    decreases cs.len(),
{
    if cs.len() == 0 {
        None
    } else if cs.last().types@.map_values(|t: String| t@).contains(county_type()) {
        Some(cs.last().long_name@)
    } else {
        county_in_components(cs.drop_last())
    }
}

/// The name of the last component, over all results in order, whose types
/// hold the county type.
pub open spec fn county_spec(rs: Seq<GoogleGeocodeResults>) -> Option<Seq<char>>
    decreases rs.len(),
{
    if rs.len() == 0 {
        None
    } else {
        match county_in_components(rs.last().address_components@) {
            Some(c) => Some(c),
            None => county_spec(rs.drop_last()),
        }
    }
}

/// Whether `c` is typed as a county: one of its types, at any position, is
/// `administrative_area_level_2`.
pub open spec fn is_county_component(c: AddressComponent) -> bool {
    exists|k: int|
        #![trigger c.types@[k]]
        0 <= k < c.types@.len() && c.types@[k]@ == "administrative_area_level_2"@
}

/// Whether the result `i` of `rs` has a component `j` and that component is
/// typed as a county.
pub open spec fn is_county_at(rs: Seq<GoogleGeocodeResults>, i: int, j: int) -> bool {
    &&& 0 <= i < rs.len()
    &&& 0 <= j < rs[i].address_components@.len()
    &&& is_county_component(rs[i].address_components@[j])
}

proof fn lemma_county_type_listed(c: AddressComponent)
    ensures
        c.types@.map_values(|t: String| t@).contains(county_type()) <==> is_county_component(c),
{
    let tv = c.types@.map_values(|t: String| t@);
    if tv.contains(county_type()) {
        let k = choose|k: int| 0 <= k < tv.len() && #[trigger] tv[k] == county_type();
        assert(c.types@[k]@ == county_type());
    }
    if is_county_component(c) {
        let k = choose|k: int|
            #![trigger c.types@[k]]
            0 <= k < c.types@.len() && c.types@[k]@ == "administrative_area_level_2"@;
        assert(tv[k] == county_type());
    }
}

proof fn lemma_county_in_components(cs: Seq<AddressComponent>)
    ensures
        county_in_components(cs) is None <==> forall|j: int|
            0 <= j < cs.len() ==> !is_county_component(#[trigger] cs[j]),
        county_in_components(cs) is Some ==> exists|j: int|
            #![trigger cs[j]]
            {
                &&& 0 <= j < cs.len()
                &&& is_county_component(cs[j])
                &&& cs[j].long_name@ == county_in_components(cs)->0
                &&& forall|j2: int| j < j2 < cs.len() ==> !is_county_component(#[trigger] cs[j2])
            },
    decreases cs.len(),
{
    if cs.len() > 0 {
        let rest = cs.drop_last();
        let last = cs.len() - 1;
        lemma_county_in_components(rest);
        lemma_county_type_listed(cs.last());
        assert(forall|j: int| 0 <= j < rest.len() ==> #[trigger] rest[j] == cs[j]);
        if is_county_component(cs.last()) {
            assert(cs[last] == cs.last());
        } else {
            assert(cs[last] == cs.last());
            if county_in_components(rest) is Some {
                let j = choose|j: int|
                    #![trigger rest[j]]
                    {
                        &&& 0 <= j < rest.len()
                        &&& is_county_component(rest[j])
                        &&& rest[j].long_name@ == county_in_components(rest)->0
                        &&& forall|j2: int|
                            j < j2 < rest.len() ==> !is_county_component(#[trigger] rest[j2])
                    };
                assert(cs[j] == rest[j]);
                assert forall|j2: int| j < j2 < cs.len() implies !is_county_component(
                    #[trigger] cs[j2],
                ) by {
                    if j2 < last {
                        assert(cs[j2] == rest[j2]);
                    }
                }
            } else {
                assert forall|j: int| 0 <= j < cs.len() implies !is_county_component(
                    #[trigger] cs[j],
                ) by {
                    if j < last {
                        assert(cs[j] == rest[j]);
                    }
                }
            }
        }
    }
}

/// The county that `county_spec` picks is the long name of the last
/// component, over all results in order, that is typed as a county (a type
/// `administrative_area_level_2` at any position of its type list), and
/// there is none exactly when no component is so typed.
pub proof fn lemma_county_characterized(rs: Seq<GoogleGeocodeResults>)
    ensures
        county_spec(rs) is None <==> forall|i: int, j: int| !#[trigger] is_county_at(rs, i, j),
        county_spec(rs) is Some ==> exists|i: int, j: int|
            #![trigger is_county_at(rs, i, j)]
            {
                &&& is_county_at(rs, i, j)
                &&& rs[i].address_components@[j].long_name@ == county_spec(rs)->0
                &&& forall|i2: int, j2: int|
                    #[trigger] is_county_at(rs, i2, j2) ==> i2 < i || (i2 == i && j2 <= j)
            },
    decreases rs.len(),
{
    if rs.len() > 0 {
        let rest = rs.drop_last();
        let last = rs.len() - 1;
        let cs = rs.last().address_components@;
        assert(rs[last] == rs.last());
        lemma_county_characterized(rest);
        lemma_county_in_components(cs);
        assert(forall|i: int| 0 <= i < rest.len() ==> #[trigger] rest[i] == rs[i]);
        assert(forall|i: int, j: int| i < last ==> is_county_at(rest, i, j) == #[trigger] is_county_at(rs, i, j));
        assert(forall|j: int| is_county_at(rs, last, j) <==> 0 <= j < cs.len() && is_county_component(#[trigger] cs[j]));
        if county_in_components(cs) is Some {
            let j = choose|j: int|
                #![trigger cs[j]]
                {
                    &&& 0 <= j < cs.len()
                    &&& is_county_component(cs[j])
                    &&& cs[j].long_name@ == county_in_components(cs)->0
                    &&& forall|j2: int| j < j2 < cs.len() ==> !is_county_component(#[trigger] cs[j2])
                };
            assert(is_county_at(rs, last, j));
            assert forall|i2: int, j2: int| #[trigger] is_county_at(rs, i2, j2) implies i2 < last || (
            i2 == last && j2 <= j) by {
                if i2 == last && j2 > j {
                    assert(!is_county_component(cs[j2]));
                }
            }
        } else {
            if county_spec(rest) is Some {
                let (i, j) = choose|i: int, j: int|
                    #![trigger is_county_at(rest, i, j)]
                    {
                        &&& is_county_at(rest, i, j)
                        &&& rest[i].address_components@[j].long_name@ == county_spec(rest)->0
                        &&& forall|i2: int, j2: int|
                            #[trigger] is_county_at(rest, i2, j2) ==> i2 < i || (i2 == i && j2
                                <= j)
                    };
                assert(is_county_at(rs, i, j));
                assert forall|i2: int, j2: int| #[trigger] is_county_at(rs, i2, j2) implies i2 < i || (
                i2 == i && j2 <= j) by {
                    if i2 == last {
                        assert(!is_county_component(cs[j2]));
                    } else {
                        assert(is_county_at(rest, i2, j2));
                    }
                }
            } else {
                assert forall|i: int, j: int| !#[trigger] is_county_at(rs, i, j) by {
                    if i == last && is_county_at(rs, i, j) {
                        assert(!is_county_component(cs[j]));
                    } else if i < last {
                        assert(!is_county_at(rest, i, j));
                    }
                }
            }
        }
    }
}

fn has_type(types: &Vec<String>, wanted: &String) -> (res: bool)
    ensures
        res == types@.map_values(|t: String| t@).contains(wanted@),
{
    let mut i: usize = 0;
    while i < types.len()
        invariant
            i <= types.len(),
            forall|k: int| 0 <= k < i ==> types@[k]@ != wanted@,
        decreases types.len() - i,
    {
        if types[i] == *wanted {
            assert(types@.map_values(|t: String| t@)[i as int] == wanted@);
            return true;
        }
        i += 1;
    }
    proof {
        let tv = types@.map_values(|t: String| t@);
        if tv.contains(wanted@) {
            let k = choose|k: int| 0 <= k < tv.len() && #[trigger] tv[k] == wanted@;
            assert(types@[k]@ != wanted@);
        }
    }
    false
}

/// The county of a geocoded address: the long name of the last address
/// component, over all results, typed `administrative_area_level_2`.
pub fn county_of(geocode: &GoogleGeocodeResponse) -> (res: Option<String>)
    ensures
        opt_string_view(res) == county_spec(geocode.results@),
        res is None <==> forall|i: int, j: int| !#[trigger] is_county_at(geocode.results@, i, j),
        res is Some ==> exists|i: int, j: int|
            #![trigger is_county_at(geocode.results@, i, j)]
            {
                &&& is_county_at(geocode.results@, i, j)
                &&& geocode.results@[i].address_components@[j].long_name@ == res->0@
                &&& forall|i2: int, j2: int|
                    #[trigger] is_county_at(geocode.results@, i2, j2) ==> i2 < i || (i2 == i
                        && j2 <= j)
            },
{
    let wanted = String::from_str("administrative_area_level_2");
    let mut county: Option<String> = None;
    let mut i: usize = 0;
    let rs = &geocode.results;
    assert(rs@.take(0) =~= Seq::<GoogleGeocodeResults>::empty());
    while i < rs.len()
        invariant
            i <= rs.len(),
            wanted@ == county_type(),
            opt_string_view(county) == county_spec(rs@.take(i as int)),
        decreases rs.len() - i,
    {
        let cs = &rs[i].address_components;
        let ghost before = county_spec(rs@.take(i as int));
        let mut j: usize = 0;
        assert(cs@.take(0) =~= Seq::<AddressComponent>::empty());
        while j < cs.len()
            invariant
                j <= cs.len(),
                wanted@ == county_type(),
                opt_string_view(county) == match county_in_components(cs@.take(j as int)) {
                    Some(c) => Some(c),
                    None => before,
                },
            decreases cs.len() - j,
        {
            assert(cs@.take(j + 1).drop_last() =~= cs@.take(j as int));
            assert(cs@.take(j + 1).last() == cs@[j as int]);
            if has_type(&cs[j].types, &wanted) {
                county = Some(cs[j].long_name.clone());
            }
            j += 1;
        }
        assert(cs@.take(j as int) =~= cs@);
        assert(rs@.take(i + 1).drop_last() =~= rs@.take(i as int));
        assert(rs@.take(i + 1).last() == rs@[i as int]);
        i += 1;
    }
    assert(rs@.take(i as int) =~= rs@);
    proof {
        lemma_county_characterized(rs@);
    }
    county
}

// ---------------------------------------------------------------------------
// URLs
// ---------------------------------------------------------------------------

/// The URL of the picture list of a listing.
pub open spec fn mls_images_url_spec(session: Seq<char>, listing_id: int, force_public_view: Seq<
    char,
>) -> Seq<char> {
    "https://barinet.rapmls.com/Handlers/PictureManagementHandler.ashx?hidMLS=BARI&SID=&SessionNumber="@
        + session + "&MemberNumber=0&c=listingdetailpictures&listingRid="@ + decimal_spec(
        listing_id,
    ) + "&forcePublicView="@ + force_public_view
}

/// The URL of the picture list of the listing `listing_id`.
pub fn mls_images_url(session: &str, listing_id: i32, force_public_view: &str) -> (res: String)
    ensures
        res@ == mls_images_url_spec(session@, listing_id as int, force_public_view@),
{
    let mut url = String::from_str(
        "https://barinet.rapmls.com/Handlers/PictureManagementHandler.ashx?hidMLS=BARI&SID=&SessionNumber=",
    );
    url.append(session);
    url.append("&MemberNumber=0&c=listingdetailpictures&listingRid=");
    let id_text = decimal(listing_id as i64);
    url.append(id_text.as_str());
    url.append("&forcePublicView=");
    url.append(force_public_view);
    url
}

/// The URL of the geocoding request for `address`.
pub open spec fn geocode_url_spec(address: Seq<char>, api_key: Seq<char>) -> Seq<char> {
    "https://maps.googleapis.com/maps/api/geocode/json?address="@ + address + "&key="@ + api_key
}

/// The URL of the geocoding request for `address`.
pub fn geocode_url(address: &str, api_key: &str) -> (res: String)
    ensures
        res@ == geocode_url_spec(address@, api_key@),
{
    let mut url = String::from_str("https://maps.googleapis.com/maps/api/geocode/json?address=");
    url.append(address);
    url.append("&key=");
    url.append(api_key);
    url
}

// ---------------------------------------------------------------------------
// The listing record
// ---------------------------------------------------------------------------

/// What `slugify::slugify(text, stop_words, sep, max_length)` returns.
pub uninterp spec fn slug_text(
    text: Seq<char>,
    stop_words: Seq<char>,
    sep: Seq<char>,
    max_length: Option<usize>,
) -> Seq<char>;

/// A character that a slug may hold: a lowercase ASCII letter, an ASCII
/// digit, or the separator.
pub open spec fn is_slug_char(c: char, sep: char) -> bool {
    ('a' <= c && c <= 'z') || ('0' <= c && c <= '9') || c == sep
}

/// `slugify::slugify`. Its result is named (`slug_text`); of it the contract
/// states only what the crate's loop shows: every character is a lowercase
/// ASCII letter, an ASCII digit or the separator's first character. The
/// crate indexes the separator's first character and casts it to a byte, so
/// the separator must be non-empty and start with an ASCII character.
#[verifier::external_body]
pub(crate) fn slugify_text(text: &str, stop_words: &str, sep: &str, max_length: Option<usize>) -> (res: String)
    requires
        sep@.len() > 0,
        (sep@[0] as int) < 128,
    ensures
        res@ == slug_text(text@, stop_words@, sep@, max_length),
        forall|i: int| 0 <= i < res@.len() ==> is_slug_char(#[trigger] res@[i], sep@[0]),
{
    slugify::slugify(text, stop_words, sep, max_length)
}

/// What `format!("{:?}", items)` gives for a list of strings.
pub uninterp spec fn debug_string_list(items: Seq<Seq<char>>) -> Seq<char>;

/// The `Debug` text of a list of strings (`format!("{:?}", ..)`); the
/// result is named (`debug_string_list`) and nothing more is stated of it.
#[verifier::external_body]
pub(crate) fn debug_text(items: &Vec<String>) -> (res: String)
    ensures
        res@ == debug_string_list(items@.map_values(|t: String| t@)),
{
    format!("{:?}", items)
}

/// What `chrono` writes, with the format `pattern`, for the instant
/// `utc_secs` seconds after the Unix epoch seen at the fixed offset
/// `west_secs` seconds west of UTC; `None` when the offset or the instant is
/// out of range or the pattern does not format.
pub uninterp spec fn local_time_text(utc_secs: i64, west_secs: i32, pattern: Seq<char>) -> Option<
    Seq<char>,
>;

/// `chrono::FixedOffset::west_opt`, `DateTime::from_timestamp`,
/// `with_timezone` and `format`; the result is named (`local_time_text`)
/// and nothing more is stated of it.
#[verifier::external_body]
pub(crate) fn format_local_time(utc_secs: i64, west_secs: i32, pattern: &str) -> (res: Option<
    String,
>)
    ensures
        opt_string_view(res) == local_time_text(utc_secs, west_secs, pattern@),
{
    let offset = chrono::FixedOffset::west_opt(west_secs)?;
    let instant = chrono::DateTime::from_timestamp(utc_secs, 0)?;
    let mut out = String::new();
    write!(out, "{}", instant.with_timezone(&offset).format(pattern)).ok()?;
    Some(out)
}

/// The time of a check as the listing records it: the instant at UTC-4,
/// as "Mon DD YYYY at HH:MM AM", followed by " EDT".
pub open spec fn checked_at_spec(utc_secs: i64) -> Option<Seq<char>> {
    match local_time_text(utc_secs, 14400, "%b %d %Y at %I:%M %p"@) {
        Some(t) => Some(t + " EDT"@),
        None => None,
    }
}

/// The time of a check, `utc_secs` seconds after the Unix epoch, as the
/// listing records it.
pub fn checked_at_text(utc_secs: i64) -> (res: Option<String>)
    ensures
        opt_string_view(res) == checked_at_spec(utc_secs),
{
    match format_local_time(utc_secs, 14400, "%b %d %Y at %I:%M %p") {
        Some(t) => {
            let mut out = t;
            out.append(" EDT");
            Some(out)
        },
        None => None,
    }
}

/// The listing number as recorded: the text without the word "Listing",
/// trimmed.
pub open spec fn listing_number_spec(text: Seq<char>) -> Seq<char> {
    trim_spec(replace_spec(text, "Listing"@, ""@))
}

/// Whether `l` is the listing record made of the given parts.
pub open spec fn is_listing_of(
    l: Listing,
    id: i32,
    f: ListingFieldsView,
    images: Seq<char>,
    county: Option<Seq<char>>,
    slug: Seq<char>,
    checked_at: Seq<char>,
) -> bool {
    &&& l.id == id
    &&& l.address@ == f.address
    &&& l.cover_image@ == f.cover_image
    &&& l.images@ == images
    &&& l.price == f.price
    &&& l.description@ == f.description
    &&& l.listing_status@ == f.listing_status
    &&& l.listing_number@ == listing_number_spec(f.listing_number)
    &&& l.bedrooms == f.bedrooms
    &&& l.square_feet == f.square_feet
    &&& l.bathrooms == f.bathrooms
    &&& opt_string_view(l.county) == county
    &&& l.slug@ == slug
    &&& l.last_checked_at@ == checked_at
}

/// A listing record keeps the counts of its block as they were read: its
/// bedrooms are the block's bedrooms and its bathrooms the block's
/// bathrooms, and so for its id, address, cover image, price, description,
/// status and square feet.
pub proof fn lemma_listing_keeps_fields(
    l: Listing,
    id: i32,
    f: ListingFieldsView,
    images: Seq<char>,
    county: Option<Seq<char>>,
    slug: Seq<char>,
    checked_at: Seq<char>,
)
    requires
        is_listing_of(l, id, f, images, county, slug, checked_at),
    ensures
        l.bedrooms == f.bedrooms,
        l.bathrooms == f.bathrooms,
        l.square_feet == f.square_feet,
        l.price == f.price,
        l.id == id,
        l.address@ == f.address,
        l.cover_image@ == f.cover_image,
        l.description@ == f.description,
        l.listing_status@ == f.listing_status,
{
}

impl Listing {
    /// The listing record made of the id, the fields of its block, the text
    /// of its public picture list, its county, the slug of its address and
    /// the time of the check.
    pub fn from_parts(
        id: i32,
        fields: ListingFields,
        images: String,
        county: Option<String>,
        slug: String,
        last_checked_at: String,
    ) -> (res: Listing)
        ensures
            is_listing_of(
                res,
                id,
                fields@,
                images@,
                opt_string_view(county),
                slug@,
                last_checked_at@,
            ),
            res.id == id,
            res.address@ == fields.address@,
            res.cover_image@ == fields.cover_image@,
            res.images@ == images@,
            res.price == fields.price,
            res.description@ == fields.description@,
            res.listing_status@ == fields.listing_status@,
            res.listing_number@ == trim_spec(replace_spec(fields.listing_number@, "Listing"@, ""@)),
            res.bedrooms == fields.bedrooms,
            res.square_feet == fields.square_feet,
            res.bathrooms == fields.bathrooms,
            opt_string_view(res.county) == opt_string_view(county),
            res.slug@ == slug@,
            res.last_checked_at@ == last_checked_at@,
    {
        proof {
            reveal_strlit("Listing");
        }
        let without_word = replace(fields.listing_number.as_str(), "Listing", "");
        let listing_number = trim(without_word.as_str());
        Listing {
            id,
            address: fields.address,
            cover_image: fields.cover_image,
            images,
            price: fields.price,
            description: fields.description,
            listing_status: fields.listing_status,
            listing_number,
            bedrooms: fields.bedrooms,
            square_feet: fields.square_feet,
            bathrooms: fields.bathrooms,
            county,
            slug,
            last_checked_at,
        }
    }
}

/// The listing record of the listing `id`, with the given fields, pictures
/// and geocoding answer, checked at `utc_secs` seconds after the Unix epoch:
/// the picture list is the `Debug` text of the public picture URLs, the
/// slug is that of the address. An error when the clock reading is out of
/// the calendar's range.
pub fn assemble_listing(
    id: i32,
    fields: ListingFields,
    images: &Vec<ListingImage>,
    geocode: &GoogleGeocodeResponse,
    utc_secs: i64,
) -> (res: Result<Listing, ListingError>)
    ensures
        res is Err <==> checked_at_spec(utc_secs) is None,
        res is Err ==> res->Err_0 == err(Field::CheckedAt, Problem::OutOfRange),
        res is Ok ==> is_listing_of(
            res->Ok_0,
            id,
            fields@,
            debug_string_list(public_urls_spec(images@)),
            county_spec(geocode.results@),
            slug_text(fields.address@, ""@, "-"@, None),
            checked_at_spec(utc_secs)->0,
        ),
        res is Ok ==> forall|i: int|
            0 <= i < res->Ok_0.slug@.len() ==> is_slug_char(#[trigger] res->Ok_0.slug@[i], '-'),
        res is Ok ==> {
            let l = res->Ok_0;
            &&& l.id == id
            &&& l.address@ == fields.address@
            &&& l.cover_image@ == fields.cover_image@
            &&& l.price == fields.price
            &&& l.description@ == fields.description@
            &&& l.listing_status@ == fields.listing_status@
            &&& l.bedrooms == fields.bedrooms
            &&& l.bathrooms == fields.bathrooms
            &&& l.square_feet == fields.square_feet
            &&& l.listing_number@ == trim_spec(
                replace_spec(fields.listing_number@, "Listing"@, ""@),
            )
            &&& l.images@ == debug_string_list(
                images@.filter(|i: ListingImage| is_public(i)).map_values(
                    |i: ListingImage| i.image_url@,
                ),
            )
            &&& opt_string_view(l.county) == county_spec(geocode.results@)
            &&& l.slug@ == slug_text(fields.address@, ""@, "-"@, None)
            &&& l.last_checked_at@ == checked_at_spec(utc_secs)->0
        },
{
    let checked_at = match checked_at_text(utc_secs) {
        Some(t) => t,
        None => return Err(ListingError { field: Field::CheckedAt, problem: Problem::OutOfRange }),
    };
    proof {
        reveal_strlit("-");
        assert("-"@[0] == '-');
    }
    let slug = slugify_text(fields.address.as_str(), "", "-", None);
    let urls = public_image_urls(images);
    let picture_list = debug_text(&urls);
    let county = county_of(geocode);
    Ok(Listing::from_parts(id, fields, picture_list, county, slug, checked_at))
}

} // verus!
