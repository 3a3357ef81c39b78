//! The results-table parser: turns the HTML of the search-results page into
//! an ordered sequence of freshly created case records.
//!
//! The page's HTML is read into a plain row model — each row as its cells,
//! each cell as its trimmed text and the trimmed texts of its anchors — by a
//! trusted wrapper over the `scraper` crate. Everything after that point is
//! verified: which rows qualify, which cells the name and docket come from,
//! and that records keep row order.

use vstd::prelude::*;
use crate::record::Case;
use crate::record::CaseView;
use crate::record::fresh_case;

verus! {

/// One structural cell of a table row: its trimmed text content and the
/// trimmed text of each anchor inside it, in document order.
pub struct Cell {
    pub text: String,
    pub links: Vec<String>,
}

/// The mathematical value of a [`Cell`].
pub ghost struct CellView {
    pub text: Seq<char>,
    pub links: Seq<Seq<char>>,
}

impl View for Cell {
    type V = CellView;

    open spec fn view(&self) -> CellView {
        CellView { text: self.text@, links: self.links@.map_values(|p: String| p@) }
    }
}

/// One table row, as its cells in document order.
pub struct Row {
    pub cells: Vec<Cell>,
}

impl View for Row {
    type V = Seq<CellView>;

    open spec fn view(&self) -> Seq<CellView> {
        self.cells@.map_values(|c: Cell| c@)
    }
}

/// The record a row yields, if any: rows with fewer than 5 cells are
/// header or separator rows and yield none; a qualifying row takes its name
/// from the 4th cell's text and its docket from the first anchor of the 5th
/// cell; a 5th cell without an anchor disqualifies the row entirely, and so
/// does a name or docket whose trimmed text is empty — a record never
/// survives parsing without a name and a docket.
pub open spec fn row_record(cells: Seq<CellView>) -> Option<CaseView> {
    if cells.len() < 5 {
        None
    } else if cells[4].links.len() == 0 {
        None
    } else if cells[3].text.len() == 0 || cells[4].links[0].len() == 0 {
        None
    } else {
        Some(fresh_case(cells[3].text, cells[4].links[0]))
    }
}

/// The records of a sequence of rows, in row order, skipped rows left out.
pub open spec fn records_of_rows(rows: Seq<Seq<CellView>>) -> Seq<CaseView>
    decreases rows.len(),
{
    if rows.len() == 0 {
        Seq::empty()
    } else {
        let rest = records_of_rows(rows.drop_last());
        match row_record(rows.last()) {
            Some(c) => rest.push(c),
            None => rest,
        }
    }
}

/// A row with fewer than 5 cells never yields a record.
pub proof fn lemma_short_row_yields_none(cells: Seq<CellView>)
    requires
        cells.len() < 5,
    ensures
        row_record(cells) is None,
{
}

/// A row whose 5th cell holds no anchor never yields a record.
pub proof fn lemma_no_anchor_yields_none(cells: Seq<CellView>)
    requires
        cells.len() >= 5,
        cells[4].links.len() == 0,
    ensures
        row_record(cells) is None,
{
}

/// A skipped row adds nothing: appending it leaves the records unchanged.
pub proof fn lemma_skipped_row_adds_none(rows: Seq<Seq<CellView>>, cells: Seq<CellView>)
    requires
        row_record(cells) is None,
    ensures
        records_of_rows(rows.push(cells)) == records_of_rows(rows),
{
    assert(rows.push(cells).drop_last() =~= rows);
    assert(rows.push(cells).last() == cells);
}

/// Every record that survives parsing has a non-empty name and a non-empty
/// docket, whatever the table held.
pub proof fn lemma_surviving_records_nonempty(rows: Seq<Seq<CellView>>)
    ensures
        forall|j: int|
            0 <= j < records_of_rows(rows).len() ==> (#[trigger] records_of_rows(rows)[j]).name.len()
                > 0 && records_of_rows(rows)[j].docket.len() > 0,
    decreases rows.len(),
{
    if rows.len() > 0 {
        lemma_surviving_records_nonempty(rows.drop_last());
        let rest = records_of_rows(rows.drop_last());
        match row_record(rows.last()) {
            Some(c) => {
                assert forall|j: int| 0 <= j < records_of_rows(rows).len() implies (
                #[trigger] records_of_rows(rows)[j]).name.len() > 0 && records_of_rows(
                    rows,
                )[j].docket.len() > 0 by {
                    if j < rest.len() {
                        assert(records_of_rows(rows)[j] == rest[j]);
                    } else {
                        assert(records_of_rows(rows)[j] == c);
                    }
                }
            },
            None => {},
        }
    }
}

/// Parsing only creates fresh records: every record a table yields still has
/// its defendant, property address and phone numbers empty.
pub proof fn lemma_parsed_records_are_fresh(rows: Seq<Seq<CellView>>)
    ensures
        forall|j: int|
            0 <= j < records_of_rows(rows).len() ==> (#[trigger] records_of_rows(rows)[j])
                =~= fresh_case(records_of_rows(rows)[j].name, records_of_rows(rows)[j].docket),
    decreases rows.len(),
{
    if rows.len() > 0 {
        lemma_parsed_records_are_fresh(rows.drop_last());
        let rest = records_of_rows(rows.drop_last());
        match row_record(rows.last()) {
            Some(c) => {
                assert forall|j: int| 0 <= j < records_of_rows(rows).len() implies (
                #[trigger] records_of_rows(rows)[j]) =~= fresh_case(
                    records_of_rows(rows)[j].name,
                    records_of_rows(rows)[j].docket,
                ) by {
                    if j < rest.len() {
                        assert(records_of_rows(rows)[j] == rest[j]);
                    } else {
                        assert(records_of_rows(rows)[j] == c);
                    }
                }
            },
            None => {},
        }
    }
}

/// Every record comes from a qualifying row, in row order.
pub fn extract_cases_from_rows(rows: &Vec<Row>) -> (r: Vec<Case>)
    ensures
        r@.map_values(|c: Case| c@) == records_of_rows(rows@.map_values(|w: Row| w@)),
{
    let ghost all = rows@.map_values(|w: Row| w@);
    let mut r: Vec<Case> = Vec::new();
    let mut i: usize = 0;
    while i < rows.len()
        invariant
            i <= rows@.len(),
            all == rows@.map_values(|w: Row| w@),
            r@.map_values(|c: Case| c@) == records_of_rows(all.take(i as int)),
        decreases rows@.len() - i,
    {
        proof {
            assert(all.take(i + 1).drop_last() =~= all.take(i as int));
            assert(all.take(i + 1).last() == all[i as int]);
            assert(all[i as int] == rows@[i as int]@);
        }
        let ghost prev = r@.map_values(|c: Case| c@);
        let row = &rows[i];
        if row.cells.len() >= 5 {
            if row.cells[4].links.len() > 0 {
                proof {
                    assert(row@[3] == row.cells@[3]@);
                    assert(row@[4] == row.cells@[4]@);
                    assert(row@[4].links[0] == row.cells@[4].links@[0]@);
                }
                let has_name = !row.cells[3].text.as_str().is_empty();
                let has_docket = !row.cells[4].links[0].as_str().is_empty();
                if has_name && has_docket {
                    let name = row.cells[3].text.clone();
                    let docket = row.cells[4].links[0].clone();
                    r.push(Case::new(name, docket));
                    proof {
                        assert(r@.map_values(|c: Case| c@) =~= prev.push(
                            fresh_case(row@[3].text, row@[4].links[0]),
                        ));
                    }
                }
            }
        }
        i += 1;
    }
    proof {
        assert(all.take(rows@.len() as int) =~= all);
    }
    r
}

/// What the `scraper` crate finds for a table lookup: the serialized HTML of
/// the first `table` element of the document whose `id` attribute is
/// `table_id`, or nothing when the document has no such table.
pub uninterp spec fn table_fragment_of(html: Seq<char>, table_id: Seq<char>) -> Option<Seq<char>>;

/// Relies on `scraper`'s `Html::parse_document`, `Selector::parse` and
/// `ElementRef::html`: looks the results table up by its `id` attribute and
/// hands its outer HTML back, or `None` when the page holds no such table.
#[verifier::external_body]
fn find_table_html(html: &str, table_id: &str) -> (r: Option<String>)
    ensures
        r is Some <==> table_fragment_of(html@, table_id@) is Some,
        r matches Some(s) ==> Some(s@) == table_fragment_of(html@, table_id@),
{
    let doc = scraper::Html::parse_document(html);
    let sel = match scraper::Selector::parse(&format!(r#"table[id="{}"]"#, table_id)) {
        Ok(sel) => sel,
        Err(_) => return None,
    };
    let table = doc.select(&sel).next()?;
    Some(table.html())
}

/// What the `scraper` crate reads out of a table fragment: every `tr` element
/// in document order, each as its `td` cells, each cell as its trimmed text
/// and the trimmed text of each `a` element under it, in document order.
pub uninterp spec fn rows_of_fragment(fragment: Seq<char>) -> Seq<Seq<CellView>>;

/// Relies on `scraper`'s `Html::parse_document`, `Selector::parse`,
/// `select` and `ElementRef::text`: reads the rows, cells and anchor texts
/// out of the table fragment, trimming each text.
#[verifier::external_body]
fn parse_rows(fragment: &str) -> (r: Vec<Row>)
    ensures
        r@.map_values(|w: Row| w@) == rows_of_fragment(fragment@),
{
    let doc = scraper::Html::parse_document(fragment);
    let tr = scraper::Selector::parse("tr").unwrap();
    let td = scraper::Selector::parse("td").unwrap();
    let a = scraper::Selector::parse("a").unwrap();
    let mut rows: Vec<Row> = Vec::new();
    for row in doc.select(&tr) {
        let cells = row.select(&td).map(|c| Cell {
            text: c.text().collect::<String>().trim().to_string(),
            links: c.select(&a).map(|l| l.text().collect::<String>().trim().to_string()).collect(),
        }).collect();
        rows.push(Row { cells });
    }
    rows
}

/// The records of a whole results page: none when the page holds no table
/// with the given id, else the records of the table's rows, in row order.
pub open spec fn records_of_page(html: Seq<char>, table_id: Seq<char>) -> Seq<CaseView> {
    match table_fragment_of(html, table_id) {
        None => Seq::empty(),
        Some(fragment) => records_of_rows(rows_of_fragment(fragment)),
    }
}

/// Parses the results page: locates the table by its id and extracts one
/// record per qualifying row, in row order. A page without the table yields
/// no records, the same as a page whose table has no qualifying row.
pub fn extract_cases_from_html(html: &str, table_id: &str) -> (r: Vec<Case>)
    ensures
        r@.map_values(|c: Case| c@) == records_of_page(html@, table_id@),
{
    match find_table_html(html, table_id) {
        None => {
            let r: Vec<Case> = Vec::new();
            proof {
                assert(r@.map_values(|c: Case| c@) =~= Seq::<CaseView>::empty());
            }
            r
        },
        Some(fragment) => {
            let rows = parse_rows(fragment.as_str());
            extract_cases_from_rows(&rows)
        },
    }
}

/// The `id` attribute by which the results table is located on the page.
pub fn results_table_id() -> (r: &'static str)
    ensures
        r@ == "ctl00_ContentPlaceHolder1_gvPropertyResults"@,
{
    "ctl00_ContentPlaceHolder1_gvPropertyResults"
}

} // verus!
