//! The case record: the unit of data that the results-table parser produces,
//! that detail-page enrichment fills in, and that the export hands on.

use vstd::prelude::*;
use crate::text::join_with;
use crate::text::join_str;

verus! {

/// One case from the results table. `name` and `docket` come from the table
/// row; `defendant` and `property_address` stay empty until enrichment finds
/// them; `phone_numbers` stays empty until a lookup result is copied in.
/// An empty field means "not found on the page", not an error.
#[derive(Debug, Clone)]
pub struct Case {
    pub name: String,
    pub docket: String,
    pub defendant: String,
    pub property_address: String,
    pub phone_numbers: Vec<String>,
}

/// The mathematical value of a [`Case`]: each field as a character sequence.
pub ghost struct CaseView {
    pub name: Seq<char>,
    pub docket: Seq<char>,
    pub defendant: Seq<char>,
    pub property_address: Seq<char>,
    pub phone_numbers: Seq<Seq<char>>,
}

impl View for Case {
    type V = CaseView;

    open spec fn view(&self) -> CaseView {
        CaseView {
            name: self.name@,
            docket: self.docket@,
            defendant: self.defendant@,
            property_address: self.property_address@,
            phone_numbers: self.phone_numbers@.map_values(|p: String| p@),
        }
    }
}

/// A freshly parsed record: the given name and docket, everything else empty.
pub open spec fn fresh_case(name: Seq<char>, docket: Seq<char>) -> CaseView {
    CaseView {
        name: name,
        docket: docket,
        defendant: Seq::empty(),
        property_address: Seq::empty(),
        phone_numbers: Seq::empty(),
    }
}

/// The five export columns of a record, in order; the phone numbers are
/// joined into the last column with `"; "`.
pub open spec fn csv_record_of(c: CaseView) -> Seq<Seq<char>> {
    seq![c.name, c.docket, c.defendant, c.property_address, join_with(c.phone_numbers, "; "@)]
}

/// The export header row: the five column names, in order.
pub open spec fn csv_header_row() -> Seq<Seq<char>> {
    seq!["Name"@, "Docket"@, "Defendant"@, "Property Address"@, "Phone Numbers"@]
}

impl Case {
    /// Creates a record with the given name and docket and all other fields empty.
    pub fn new(name: String, docket: String) -> (r: Self)
        ensures
            r@ == fresh_case(name@, docket@),
    {
        let r = Self {
            name,
            docket,
            defendant: String::new(),
            property_address: String::new(),
            phone_numbers: Vec::new(),
        };
        proof {
            assert(r@.phone_numbers =~= Seq::<Seq<char>>::empty());
        }
        r
    }

    /// Returns the record's five export columns, in order.
    pub fn to_csv_record(&self) -> (r: Vec<String>)
        ensures
            r@.map_values(|s: String| s@) == csv_record_of(self@),
    {
        let mut r: Vec<String> = Vec::new();
        r.push(self.name.clone());
        r.push(self.docket.clone());
        r.push(self.defendant.clone());
        r.push(self.property_address.clone());
        r.push(join_str(&self.phone_numbers, "; "));
        proof {
            assert(r@.map_values(|s: String| s@) =~= csv_record_of(self@));
        }
        r
    }
}

/// Returns the full export table for `cases`: the header row first, then one
/// row per record, in the given order.
pub fn export_rows(cases: &Vec<Case>) -> (r: Vec<Vec<String>>)
    ensures
        r@.len() == cases@.len() + 1,
        r@[0]@.map_values(|s: String| s@) == csv_header_row(),
        forall|i: int|
            0 <= i < cases@.len() ==> (#[trigger] r@[i + 1])@.map_values(|s: String| s@)
                == csv_record_of(cases@[i]@),
{
    let mut header: Vec<String> = Vec::new();
    header.push(String::from_str("Name"));
    header.push(String::from_str("Docket"));
    header.push(String::from_str("Defendant"));
    header.push(String::from_str("Property Address"));
    header.push(String::from_str("Phone Numbers"));
    proof {
        assert(header@.map_values(|s: String| s@) =~= csv_header_row());
    }
    let mut r: Vec<Vec<String>> = Vec::new();
    r.push(header);
    let mut i: usize = 0;
    while i < cases.len()
        invariant
            i <= cases@.len(),
            r@.len() == i + 1,
            r@[0]@.map_values(|s: String| s@) == csv_header_row(),
            forall|j: int|
                0 <= j < i ==> (#[trigger] r@[j + 1])@.map_values(|s: String| s@) == csv_record_of(
                    cases@[j]@,
                ),
        decreases cases@.len() - i,
    {
        r.push(cases[i].to_csv_record());
        i += 1;
    }
    r
}

} // verus!
