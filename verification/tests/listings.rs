use content_sync::realestate::{
    assemble_listing, checked_at_text, county_of, extract_listing_fields, geocode_url,
    listing_id_at, mls_images_url, public_image_urls, scan_listing_page, AddressComponent, Field,
    GoogleGeocodeResponse, GoogleGeocodeResults, ListingError, ListingImage, Problem,
};

const BLOCK: &str = r#"
<a class="listing-image" href="/l/1"><img src="https://img.example/cover1.jpg"></a>
<h4 class="address">12 Main St, Springfield</h4>
<h4 class="rapIDXSearchResultsPriceTop"><strong>$1,250,000</strong></h4>
<span class="listingNum">Listing 42817</span>
<span class="listingStatus"><em>  Active </em></span>
<div class="specTableResults">
  <div class="listing-info listingBeds"><div>3</div></div>
  <div class="listing-info listingBaths"><div>2 1</div></div>
  <div class="listing-info listingSqFt"><div>1,850</div></div>
</div>
<div class="remarks"><div>Lovely home.</div></div>
"#;

fn page() -> String {
    format!(
        r#"<html><body><input id="hdnCheckedRidsFromMapView" value="101,202">
        <div class="container"><div class="row searchResult">{}</div>
        <div class="row searchResult"><h4 class="address">Other</h4></div></div></body></html>"#,
        BLOCK
    )
}

#[test]
fn scan_reads_ids_and_blocks() {
    let page = scan_listing_page(&page()).unwrap().unwrap();
    assert_eq!(page.ids, vec!["101", "202"]);
    assert_eq!(page.listings.len(), 2);
    assert!(page.listings[0].contains("listingNum"));
    assert!(page.listings[1].contains("Other"));
}

#[test]
fn scan_without_id_input_has_no_listings() {
    let res = scan_listing_page("<html><body><p>nothing</p></body></html>").unwrap();
    assert!(res.is_none());
}

#[test]
fn scan_with_id_input_but_no_value_fails() {
    let res = scan_listing_page(r#"<input id="hdnCheckedRidsFromMapView"><div class="container"></div>"#);
    assert_eq!(res.err(), Some(ListingError { field: Field::ListingIds, problem: Problem::NoAttribute }));
}

#[test]
fn scan_without_root_container_fails() {
    let res = scan_listing_page(r#"<input id="hdnCheckedRidsFromMapView" value="1">"#);
    assert_eq!(res.err(), Some(ListingError { field: Field::RootContainer, problem: Problem::NotFound }));
}

#[test]
fn fields_of_a_block() {
    let f = extract_listing_fields(BLOCK).unwrap();
    assert_eq!(f.cover_image, "https://img.example/cover1.jpg");
    assert_eq!(f.address, "12 Main St, Springfield");
    assert_eq!(f.price, 1250000);
    assert_eq!(f.listing_number, "Listing 42817");
    assert_eq!(f.listing_status, "Active");
    assert_eq!(f.bedrooms, 3);
    assert_eq!(f.bathrooms, 2);
    assert_eq!(f.square_feet, 1850);
    assert_eq!(f.description, "Lovely home.");
}

fn error_of(html: &str) -> ListingError {
    match extract_listing_fields(html) {
        Ok(_) => panic!("expected an error"),
        Err(e) => e,
    }
}

#[test]
fn missing_cover_image() {
    let e = error_of("<h4 class=\"address\">x</h4>");
    assert_eq!(e, ListingError { field: Field::CoverImage, problem: Problem::NotFound });
}

#[test]
fn cover_image_without_src() {
    let html = BLOCK.replace("<img src=\"https://img.example/cover1.jpg\">", "<img>");
    assert_eq!(error_of(&html), ListingError { field: Field::CoverImage, problem: Problem::NoAttribute });
}

#[test]
fn price_that_is_no_number() {
    let html = BLOCK.replace("$1,250,000", "Call for price");
    assert_eq!(error_of(&html), ListingError { field: Field::Price, problem: Problem::NotANumber });
}

#[test]
fn missing_specs_table() {
    let html = BLOCK.replace("specTableResults", "otherTable");
    assert_eq!(error_of(&html), ListingError { field: Field::Specs, problem: Problem::NotFound });
}

#[test]
fn bedrooms_wrapper_without_children() {
    let html = BLOCK.replace("<div>3</div>", "<div></div>");
    assert_eq!(error_of(&html), ListingError { field: Field::Bedrooms, problem: Problem::NoWrapper });
}

#[test]
fn bedrooms_first_child_not_text() {
    let html = BLOCK.replace("<div>3</div>", "<div><b>3</b></div>");
    assert_eq!(error_of(&html), ListingError { field: Field::Bedrooms, problem: Problem::NoText });
}

#[test]
fn bathrooms_too_many_for_i8() {
    let html = BLOCK.replace("<div>2 1</div>", "<div>200 1</div>");
    assert_eq!(error_of(&html), ListingError { field: Field::Bathrooms, problem: Problem::NotANumber });
}

#[test]
fn missing_description() {
    let html = BLOCK.replace("remarks", "notes");
    assert_eq!(error_of(&html), ListingError { field: Field::Description, problem: Problem::NotFound });
}

#[test]
fn listing_ids_by_position() {
    let ids = vec!["101".to_string(), "x".to_string()];
    assert_eq!(listing_id_at(&ids, 0), Ok(101));
    assert_eq!(listing_id_at(&ids, 1), Err(ListingError { field: Field::ListingId, problem: Problem::NotANumber }));
    assert_eq!(listing_id_at(&ids, 2), Err(ListingError { field: Field::ListingId, problem: Problem::NotFound }));
}

fn image(url: &str, privacy: i8) -> ListingImage {
    ListingImage {
        thumb_url: String::new(),
        image_url: url.to_string(),
        comment: String::new(),
        copyright: String::new(),
        privacy_status: privacy,
        private_indicator_visible: false,
        private_indicator_text: String::new(),
    }
}

#[test]
fn only_public_images_are_kept() {
    let images = vec![image("a", 0), image("b", 1), image("c", 0)];
    assert_eq!(public_image_urls(&images), vec!["a", "c"]);
}

fn component(name: &str, types: &[&str]) -> AddressComponent {
    AddressComponent { long_name: name.to_string(), types: types.iter().map(|t| t.to_string()).collect() }
}

#[test]
fn county_is_the_last_level_two_area() {
    let geocode = GoogleGeocodeResponse {
        results: vec![
            GoogleGeocodeResults {
                address_components: vec![
                    component("Springfield", &["locality"]),
                    component("Hampden County", &["administrative_area_level_2", "political"]),
                ],
            },
            GoogleGeocodeResults {
                address_components: vec![component("Other County", &["administrative_area_level_2"])],
            },
        ],
    };
    assert_eq!(county_of(&geocode), Some("Other County".to_string()));
    let none = GoogleGeocodeResponse { results: vec![GoogleGeocodeResults { address_components: vec![component("X", &["country"])] }] };
    assert_eq!(county_of(&none), None);
}

#[test]
fn request_urls() {
    assert_eq!(
        mls_images_url("77", -5, "true"),
        "https://barinet.rapmls.com/Handlers/PictureManagementHandler.ashx?hidMLS=BARI&SID=&SessionNumber=77&MemberNumber=0&c=listingdetailpictures&listingRid=-5&forcePublicView=true"
    );
    assert_eq!(
        geocode_url("12 Main St", "KEY"),
        "https://maps.googleapis.com/maps/api/geocode/json?address=12 Main St&key=KEY"
    );
}

#[test]
fn checked_at_is_eastern_daylight_time() {
    assert_eq!(checked_at_text(0), Some("Dec 31 1969 at 08:00 PM EDT".to_string()));
    assert_eq!(checked_at_text(1_700_000_000), Some("Nov 14 2023 at 06:13 PM EDT".to_string()));
    assert_eq!(checked_at_text(i64::MAX), None);
}

#[test]
fn assembled_listing_record() {
    let fields = extract_listing_fields(BLOCK).unwrap();
    let images = vec![image("https://p/1.jpg", 0), image("https://p/2.jpg", 2)];
    let geocode = GoogleGeocodeResponse {
        results: vec![GoogleGeocodeResults {
            address_components: vec![component("Hampden County", &["administrative_area_level_2"])],
        }],
    };
    let l = assemble_listing(101, fields, &images, &geocode, 0).unwrap();
    assert_eq!(l.id, 101);
    assert_eq!(l.slug, "12-main-st-springfield");
    assert_eq!(l.images, "[\"https://p/1.jpg\"]");
    assert_eq!(l.listing_number, "42817");
    assert_eq!(l.county, Some("Hampden County".to_string()));
    assert_eq!(l.last_checked_at, "Dec 31 1969 at 08:00 PM EDT");
    assert_eq!(l.price, 1250000);
    assert!(l.slug.chars().all(|c| c.is_ascii_lowercase() || c.is_ascii_digit() || c == '-'));
}

#[test]
fn assembling_with_a_clock_out_of_range_fails() {
    let fields = extract_listing_fields(BLOCK).unwrap();
    let geocode = GoogleGeocodeResponse { results: vec![] };
    let res = assemble_listing(1, fields, &vec![], &geocode, i64::MAX);
    assert_eq!(res.err(), Some(ListingError { field: Field::CheckedAt, problem: Problem::OutOfRange }));
}
