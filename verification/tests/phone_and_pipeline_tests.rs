use case_scraper::phone::select_candidates;
use case_scraper::phone::PhoneLookup;
use case_scraper::phone::ResultCard;
use case_scraper::phone::DEFAULT_RATE_LIMIT_SECS;
use case_scraper::phone::SETTLE_SECS;
use case_scraper::pipeline::EnrichRun;
use case_scraper::record::Case;

fn card(name: &str, address: &str, phones: &[&str]) -> ResultCard {
    ResultCard {
        name: name.to_string(),
        address: address.to_string(),
        phone_numbers: phones.iter().map(|p| p.to_string()).collect(),
    }
}

#[test]
fn url_for_a_two_token_name_and_full_address() {
    let lookup = PhoneLookup::new();
    let url = lookup.build_search_url("John Smith", "12 Main St, Middletown, CT 06457");
    assert_eq!(
        url,
        "https://www.truepeoplesearch.com/results?name=John Smith&citystatezip=Middletown, CT"
    );
}

#[test]
fn url_for_a_single_token_name_and_two_part_address() {
    let lookup = PhoneLookup::new();
    let url = lookup.build_search_url("Prince", "PO Box 1, Hartford");
    assert_eq!(
        url,
        "https://www.truepeoplesearch.com/results?name=Prince &citystatezip=PO Box 1, Hartford"
    );
}

#[test]
fn url_for_empty_inputs_falls_back_to_the_default_state() {
    let lookup = PhoneLookup::new();
    let url = lookup.build_search_url("", "");
    assert_eq!(url, "https://www.truepeoplesearch.com/results?name= &citystatezip=, CT");
}

#[test]
fn middle_names_are_dropped_from_the_query() {
    let lookup = PhoneLookup::new();
    let url = lookup.build_search_url("John Quincy Adams", "1 Elm St, Hartford, CT 06101");
    assert_eq!(
        url,
        "https://www.truepeoplesearch.com/results?name=John Adams&citystatezip=Hartford, CT"
    );
}

#[test]
fn name_tokens_split_on_any_unicode_whitespace() {
    let lookup = PhoneLookup::new();
    let url = lookup.build_search_url("a\u{000B}b", "");
    assert_eq!(url, "https://www.truepeoplesearch.com/results?name=a b&citystatezip=, CT");
}

#[test]
fn rate_limit_is_mutable_and_settle_pause_is_fixed() {
    let mut lookup = PhoneLookup::new();
    assert_eq!(lookup.rate_limit_secs, DEFAULT_RATE_LIMIT_SECS);
    assert_eq!(lookup.rate_limit_secs, 2);
    lookup.set_rate_limit(7);
    assert_eq!(lookup.rate_limit_secs, 7);
    assert_eq!(SETTLE_SECS, 3);
}

#[test]
fn cards_without_phone_numbers_are_excluded() {
    let cards = vec![
        card("With Phones", "1 A St", &["(860) 555-0101", "(860) 555-0102"]),
        card("No Phones", "2 B St", &[]),
        card("Also Phones", "3 C St", &["(860) 555-0103"]),
    ];
    let out = select_candidates(cards);
    assert_eq!(out.len(), 2);
    assert_eq!(out[0].name, "With Phones");
    assert_eq!(
        out[0].phone_numbers,
        vec!["(860) 555-0101", "(860) 555-0102"]
    );
    assert_eq!(out[1].name, "Also Phones");
}

#[test]
fn empty_name_and_address_do_not_exclude_a_card() {
    let cards = vec![card("", "", &["(860) 555-0104"])];
    let out = select_candidates(cards);
    assert_eq!(out.len(), 1);
    assert_eq!(out[0].name, "");
    assert_eq!(out[0].address, "");
}

#[test]
fn never_more_than_five_candidates() {
    let mut cards = Vec::new();
    for i in 0..9 {
        cards.push(card(&format!("Person {}", i), "1 A St", &["(860) 555-0100"]));
    }
    let out = select_candidates(cards);
    assert_eq!(out.len(), 5);
    assert_eq!(out[4].name, "Person 4");
}

#[test]
fn cards_past_the_fifth_are_never_inspected() {
    let mut cards = vec![
        card("Kept", "1 A St", &["(860) 555-0100"]),
        card("Dropped", "2 B St", &[]),
    ];
    for i in 0..4 {
        cards.push(card(&format!("Tail {}", i), "3 C St", &["(860) 555-0101"]));
    }
    // 6 cards in all: the last one holds a number but lies past the cap.
    let out = select_candidates(cards);
    assert_eq!(out.len(), 4);
    assert_eq!(out[0].name, "Kept");
    assert_eq!(out[3].name, "Tail 2");
}

fn detail_page(defendant: &str) -> String {
    format!(
        "<html><body><span id=\"{}\">{}</span></body></html>",
        "ctl00_ContentPlaceHolder1_CaseDetailParties1_gvParties_ctl05_lblPtyPartyName", defendant
    )
}

#[test]
fn run_enriches_records_in_order() {
    let cases = vec![
        Case::new("A".to_string(), "111-CV-24-0000001-S".to_string()),
        Case::new("B".to_string(), "222-CV-24-0000002-S".to_string()),
    ];
    let mut run = EnrichRun::start(cases);
    let url = run.pending_url().expect("first record should be pending");
    assert_eq!(
        url,
        "https://civilinquiry.jud.ct.gov/CaseDetail/PublicCaseDetail.aspx?DocketNo=111CV240000001S"
    );
    run.on_page(&detail_page("First Bank"));
    let url2 = run.pending_url().expect("second record should be pending");
    assert_eq!(
        url2,
        "https://civilinquiry.jud.ct.gov/CaseDetail/PublicCaseDetail.aspx?DocketNo=222CV240000002S"
    );
    run.on_page(&detail_page("Second Bank"));
    assert!(run.pending_url().is_none());
    let done = run.finish().expect("run without failure must succeed");
    assert_eq!(done[0].defendant, "First Bank");
    assert_eq!(done[1].defendant, "Second Bank");
    assert_eq!(done[0].name, "A");
    assert_eq!(done[1].name, "B");
}

#[test]
fn navigation_failure_on_second_of_three_aborts_the_rest() {
    let cases = vec![
        Case::new("A".to_string(), "111-CV-24-0000001-S".to_string()),
        Case::new("B".to_string(), "222-CV-24-0000002-S".to_string()),
        Case::new("C".to_string(), "333-CV-24-0000003-S".to_string()),
    ];
    let mut run = EnrichRun::start(cases);
    assert!(run.pending_url().is_some());
    run.on_page(&detail_page("First Bank"));
    assert!(run.pending_url().is_some());
    run.on_navigation_failure("navigation timed out".to_string());
    // The third record is never asked for, and no partial result comes out.
    assert!(run.pending_url().is_none());
    match run.finish() {
        Ok(_) => panic!("a failed run must not surface partial success"),
        Err(message) => assert_eq!(message, "navigation timed out"),
    }
}
