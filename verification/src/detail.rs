//! The case-detail enricher: builds the detail-page URL from a record's
//! docket and fills the defendant and property-address fields from the
//! fetched page.
//!
//! Each field lookup fails soft and independently: a selector that matches
//! nothing leaves that one field as it was, and never disturbs the other.
//! Fetching the page itself is navigation and stays outside the library.

use vstd::prelude::*;
use crate::record::Case;
use crate::text::without_char;
use crate::text::remove_all;

verus! {

/// The fixed base of a detail-page URL; the normalized docket is appended
/// as the value of its `DocketNo` query parameter.
pub open spec fn detail_base() -> Seq<char> {
    "https://civilinquiry.jud.ct.gov/CaseDetail/PublicCaseDetail.aspx?DocketNo="@
}

/// Normalizes a docket for lookup: removes every `-` separator.
pub fn normalize_docket(docket: &str) -> (r: String)
    ensures
        r@ == without_char(docket@, '-'),
{
    remove_all(docket, '-')
}

/// The detail-page URL of a docket: the fixed base followed by the docket
/// with every `-` removed.
pub open spec fn detail_url_of(docket: Seq<char>) -> Seq<char> {
    detail_base() + without_char(docket, '-')
}

/// Builds the detail-page URL for a docket.
pub fn detail_url(docket: &str) -> (r: String)
    ensures
        r@ == detail_url_of(docket@),
{
    let mut r = String::from_str(
        "https://civilinquiry.jud.ct.gov/CaseDetail/PublicCaseDetail.aspx?DocketNo=",
    );
    let cleaned = normalize_docket(docket);
    r.append(cleaned.as_str());
    r
}

/// What the `scraper` crate finds for a span lookup: the trimmed text of the
/// first `span` element of the document whose `id` attribute is `id`, or
/// nothing when the document has no such span.
pub uninterp spec fn span_text_of(html: Seq<char>, id: Seq<char>) -> Option<Seq<char>>;

/// Relies on `scraper`'s `Html::parse_document`, `Selector::parse` and
/// `ElementRef::text`: the trimmed text of the first span with the given
/// `id` attribute, or `None` when the page holds no such span.
#[verifier::external_body]
fn find_span_text(html: &str, id: &str) -> (r: Option<String>)
    ensures
        r is Some <==> span_text_of(html@, id@) is Some,
        r matches Some(s) ==> Some(s@) == span_text_of(html@, id@),
{
    let doc = scraper::Html::parse_document(html);
    let sel = match scraper::Selector::parse(&format!("span#{}", id)) {
        Ok(sel) => sel,
        Err(_) => return None,
    };
    let span = doc.select(&sel).next()?;
    Some(span.text().collect::<String>().trim().to_string())
}

/// The `id` of the span holding the opposing party's display name.
pub open spec fn defendant_span_id() -> Seq<char> {
    "ctl00_ContentPlaceHolder1_CaseDetailParties1_gvParties_ctl05_lblPtyPartyName"@
}

/// The `id` of the span holding the property address.
pub open spec fn property_address_span_id() -> Seq<char> {
    "ctl00_ContentPlaceHolder1_CaseDetailBasicInfo1_lblPropertyAddress"@
}

/// Reads the defendant's display name off a detail page, if present.
pub fn get_defendant(html: &str) -> (r: Option<String>)
    ensures
        r is Some <==> span_text_of(html@, defendant_span_id()) is Some,
        r matches Some(s) ==> Some(s@) == span_text_of(html@, defendant_span_id()),
{
    find_span_text(
        html,
        "ctl00_ContentPlaceHolder1_CaseDetailParties1_gvParties_ctl05_lblPtyPartyName",
    )
}

/// Reads the property address off a detail page, if present.
pub fn get_property_address(html: &str) -> (r: Option<String>)
    ensures
        r is Some <==> span_text_of(html@, property_address_span_id()) is Some,
        r matches Some(s) ==> Some(s@) == span_text_of(html@, property_address_span_id()),
{
    find_span_text(html, "ctl00_ContentPlaceHolder1_CaseDetailBasicInfo1_lblPropertyAddress")
}

/// What enrichment leaves in a field: the span's text when the page has the
/// span, the field's prior value when it does not.
pub open spec fn enriched_field(html: Seq<char>, id: Seq<char>, prior: Seq<char>) -> Seq<char> {
    match span_text_of(html, id) {
        Some(t) => t,
        None => prior,
    }
}

/// Fills a record's defendant and property-address fields from a detail
/// page. Each lookup is independent and fails soft: a missing span leaves
/// its one field as it was, and never suppresses the other field's value.
/// Name, docket and phone numbers are untouched.
pub fn enrich_from_html(case: &mut Case, html: &str)
    ensures
        final(case)@.name == old(case)@.name,
        final(case)@.docket == old(case)@.docket,
        final(case)@.phone_numbers == old(case)@.phone_numbers,
        final(case)@.defendant == enriched_field(
            html@,
            defendant_span_id(),
            old(case)@.defendant,
        ),
        final(case)@.property_address == enriched_field(
            html@,
            property_address_span_id(),
            old(case)@.property_address,
        ),
{
    if let Some(defendant) = get_defendant(html) {
        case.defendant = defendant;
    }
    if let Some(address) = get_property_address(html) {
        case.property_address = address;
    }
}

} // verus!
