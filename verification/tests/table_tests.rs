use case_scraper::record::Case;
use case_scraper::table::extract_cases_from_html;
use case_scraper::table::extract_cases_from_rows;
use case_scraper::table::results_table_id;
use case_scraper::table::Cell;
use case_scraper::table::Row;

fn cell(text: &str, links: &[&str]) -> Cell {
    Cell {
        text: text.to_string(),
        links: links.iter().map(|l| l.to_string()).collect(),
    }
}

#[test]
fn three_valid_rows_one_malformed() {
    let html = r#"<html><body>
        <table id="results">
            <tr><th>h1</th><th>h2</th><th>h3</th><th>h4</th><th>h5</th></tr>
            <tr><td>1</td><td>x</td><td>y</td><td> Alice Arnold </td><td><a href="d">AAA-CV-24-0000001-S</a></td></tr>
            <tr><td>2</td><td>x</td><td>y</td><td>Bob Briggs</td><td><a href="d">BBB-CV-24-0000002-S</a></td></tr>
            <tr><td>3</td><td>x</td><td>y</td><td>No Anchor</td><td>CCC-CV-24-0000003-S</td></tr>
            <tr><td>4</td><td>x</td><td>y</td><td>Carol Cruz</td><td><a href="d">DDD-CV-24-0000004-S</a></td></tr>
        </table>
    </body></html>"#;
    let cases = extract_cases_from_html(html, "results");
    assert_eq!(cases.len(), 3);
    assert_eq!(cases[0].name, "Alice Arnold");
    assert_eq!(cases[0].docket, "AAA-CV-24-0000001-S");
    assert_eq!(cases[1].name, "Bob Briggs");
    assert_eq!(cases[1].docket, "BBB-CV-24-0000002-S");
    assert_eq!(cases[2].name, "Carol Cruz");
    assert_eq!(cases[2].docket, "DDD-CV-24-0000004-S");
    for c in &cases {
        assert_eq!(c.defendant, "");
        assert_eq!(c.property_address, "");
        assert!(c.phone_numbers.is_empty());
    }
}

#[test]
fn short_rows_never_produce_a_record() {
    let html = r#"<html><body><table id="t">
        <tr><td>only</td></tr>
        <tr><td>a</td><td>b</td><td>c</td><td>d</td></tr>
        <tr></tr>
    </table></body></html>"#;
    let cases = extract_cases_from_html(html, "t");
    assert_eq!(cases.len(), 0);
}

#[test]
fn row_without_anchor_in_fifth_cell_produces_no_record() {
    let html = r#"<html><body><table id="t">
        <tr><td>a</td><td>b</td><td>c</td><td>Name Here</td><td>123-CV-24-0000001-S</td></tr>
    </table></body></html>"#;
    let cases = extract_cases_from_html(html, "t");
    assert_eq!(cases.len(), 0);
}

#[test]
fn missing_table_yields_no_records() {
    let html = r#"<html><body><table id="other"><tr><td>a</td><td>b</td><td>c</td><td>d</td><td><a href="d">e</a></td></tr></table></body></html>"#;
    let cases = extract_cases_from_html(html, "t");
    assert_eq!(cases.len(), 0);
}

#[test]
fn docket_comes_from_first_anchor_and_name_from_fourth_cell() {
    let html = r#"<html><body><table id="t">
        <tr><td>a</td><td>b</td><td>c</td><td>  Dana Diaz  </td>
            <td><a href="d">EEE-CV-24-0000005-S</a><a href="d">ignored</a></td></tr>
    </table></body></html>"#;
    let cases = extract_cases_from_html(html, "t");
    assert_eq!(cases.len(), 1);
    assert_eq!(cases[0].name, "Dana Diaz");
    assert_eq!(cases[0].docket, "EEE-CV-24-0000005-S");
}

#[test]
fn extract_from_rows_skips_and_keeps_in_order() {
    let rows = vec![
        Row { cells: vec![cell("h", &[])] },
        Row {
            cells: vec![
                cell("1", &[]),
                cell("2", &[]),
                cell("3", &[]),
                cell("First Person", &[]),
                cell("docket cell", &["AAA-CV-24-0000001-S"]),
            ],
        },
        Row {
            cells: vec![
                cell("1", &[]),
                cell("2", &[]),
                cell("3", &[]),
                cell("Skipped Person", &[]),
                cell("no anchor here", &[]),
            ],
        },
        Row {
            cells: vec![
                cell("1", &[]),
                cell("2", &[]),
                cell("3", &[]),
                cell("Second Person", &[]),
                cell("docket cell", &["BBB-CV-24-0000002-S", "extra"]),
            ],
        },
    ];
    let cases: Vec<Case> = extract_cases_from_rows(&rows);
    assert_eq!(cases.len(), 2);
    assert_eq!(cases[0].name, "First Person");
    assert_eq!(cases[0].docket, "AAA-CV-24-0000001-S");
    assert_eq!(cases[1].name, "Second Person");
    assert_eq!(cases[1].docket, "BBB-CV-24-0000002-S");
}

#[test]
fn row_with_blank_name_cell_produces_no_record() {
    let html = r#"<html><body><table id="t">
        <tr><td>a</td><td>b</td><td>c</td><td>   </td><td><a href="d">123-CV-24-0000001-S</a></td></tr>
    </table></body></html>"#;
    let cases = extract_cases_from_html(html, "t");
    assert_eq!(cases.len(), 0);
}

#[test]
fn row_with_blank_anchor_text_produces_no_record() {
    let html = r#"<html><body><table id="t">
        <tr><td>a</td><td>b</td><td>c</td><td>Name Here</td><td><a href="d">  </a></td></tr>
    </table></body></html>"#;
    let cases = extract_cases_from_html(html, "t");
    assert_eq!(cases.len(), 0);
}

#[test]
fn surviving_records_always_carry_name_and_docket() {
    let rows = vec![
        Row {
            cells: vec![
                cell("1", &[]),
                cell("2", &[]),
                cell("3", &[]),
                cell("", &[]),
                cell("docket cell", &["AAA-CV-24-0000001-S"]),
            ],
        },
        Row {
            cells: vec![
                cell("1", &[]),
                cell("2", &[]),
                cell("3", &[]),
                cell("Named Person", &[]),
                cell("docket cell", &[""]),
            ],
        },
        Row {
            cells: vec![
                cell("1", &[]),
                cell("2", &[]),
                cell("3", &[]),
                cell("Named Person", &[]),
                cell("docket cell", &["BBB-CV-24-0000002-S"]),
            ],
        },
    ];
    let cases: Vec<Case> = extract_cases_from_rows(&rows);
    assert_eq!(cases.len(), 1);
    assert_eq!(cases[0].name, "Named Person");
    assert_eq!(cases[0].docket, "BBB-CV-24-0000002-S");
}

#[test]
fn results_table_id_is_the_site_constant() {
    assert_eq!(results_table_id(), "ctl00_ContentPlaceHolder1_gvPropertyResults");
}
