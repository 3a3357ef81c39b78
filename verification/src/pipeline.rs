//! The batch-enrichment run: the orchestrator's decisions as a state
//! machine over plain values.
//!
//! The surrounding program owns the browser session and drives the loop:
//! while a URL is pending it navigates there and hands back either the page
//! source or a failure. The decisions — which record is next, what its URL
//! is, that enrichment keeps record order, and that one navigation failure
//! aborts every remaining record with no partial success — are verified
//! here.

use vstd::prelude::*;
use crate::record::Case;
use crate::detail::detail_url;
use crate::detail::detail_url_of;
use crate::detail::enrich_from_html;
use crate::detail::enriched_field;
use crate::detail::defendant_span_id;
use crate::detail::property_address_span_id;

verus! {

/// One batch enrichment run over the parsed records, in row order.
pub struct EnrichRun {
    /// The records, enriched in place up to (not including) `next`.
    pub cases: Vec<Case>,
    /// The index of the record whose detail page is wanted next.
    pub next: usize,
    /// The message of the fatal navigation failure, once one happened.
    pub failure: Option<String>,
}

/// A run never points past the end of its records.
pub open spec fn run_wf(r: EnrichRun) -> bool {
    r.next <= r.cases@.len()
}

/// The URL the run wants fetched next: the detail page of record `next`,
/// or nothing when every record is done or a failure ended the run.
pub open spec fn pending_of(r: EnrichRun) -> Option<Seq<char>> {
    if r.failure is None && r.next < r.cases@.len() {
        Some(detail_url_of(r.cases@[r.next as int]@.docket))
    } else {
        None
    }
}

/// What finishing the run surfaces: every record when no navigation failed,
/// else the failure alone — never a partial result.
pub open spec fn outcome_of(r: EnrichRun) -> Result<Seq<crate::record::CaseView>, Seq<char>> {
    match r.failure {
        None => Ok(r.cases@.map_values(|c: Case| c@)),
        Some(m) => Err(m@),
    }
}

/// A recorded failure is fatal: nothing further is pending — the records
/// after the failing one are never processed — and the run surfaces the
/// error, not a partial success.
pub proof fn lemma_failure_is_fatal(r: EnrichRun)
    requires
        r.failure is Some,
    ensures
        pending_of(r) is None,
        outcome_of(r) is Err,
{
}

impl EnrichRun {
    /// Starts a run over the given records, nothing enriched yet.
    pub fn start(cases: Vec<Case>) -> (r: Self)
        ensures
            r.cases == cases,
            r.next == 0,
            r.failure is None,
            run_wf(r),
    {
        Self { cases, next: 0, failure: None }
    }

    /// The URL to fetch next, if the run still wants one.
    pub fn pending_url(&self) -> (r: Option<String>)
        requires
            run_wf(*self),
        ensures
            r is Some <==> pending_of(*self) is Some,
            r matches Some(u) ==> Some(u@) == pending_of(*self),
    {
        if self.failure.is_none() && self.next < self.cases.len() {
            Some(detail_url(self.cases[self.next].docket.as_str()))
        } else {
            None
        }
    }

    /// Feeds the fetched detail page of the pending record in: that record
    /// is enriched in place, every other record is untouched, and the run
    /// moves on to the next record.
    pub fn on_page(&mut self, html: &str)
        requires
            run_wf(*old(self)),
            pending_of(*old(self)) is Some,
        ensures
            run_wf(*final(self)),
            final(self).next == old(self).next + 1,
            final(self).failure is None,
            final(self).cases@.len() == old(self).cases@.len(),
            forall|j: int|
                0 <= j < old(self).cases@.len() && j != old(self).next ==> final(self).cases@[j]
                    == old(self).cases@[j],
            final(self).cases@[old(self).next as int]@.name == old(self).cases@[old(
                self,
            ).next as int]@.name,
            final(self).cases@[old(self).next as int]@.docket == old(self).cases@[old(
                self,
            ).next as int]@.docket,
            final(self).cases@[old(self).next as int]@.phone_numbers == old(self).cases@[old(
                self,
            ).next as int]@.phone_numbers,
            final(self).cases@[old(self).next as int]@.defendant == enriched_field(
                html@,
                defendant_span_id(),
                old(self).cases@[old(self).next as int]@.defendant,
            ),
            final(self).cases@[old(self).next as int]@.property_address == enriched_field(
                html@,
                property_address_span_id(),
                old(self).cases@[old(self).next as int]@.property_address,
            ),
    {
        let idx = self.next;
        let n = self.cases.len();
        assert(idx < n);
        let mut case = self.cases.remove(idx);
        enrich_from_html(&mut case, html);
        self.cases.insert(idx, case);
        self.next = idx + 1;
        proof {
            assert forall|j: int|
                0 <= j < old(self).cases@.len() && j != old(self).next implies self.cases@[j]
                == old(self).cases@[j] by {
                if j < idx {
                } else {
                    assert(self.cases@[j] == old(self).cases@.remove(idx as int)[j - 1]);
                }
            }
        }
    }

    /// Records a fatal navigation failure: the records are left exactly as
    /// they were and the run is over.
    pub fn on_navigation_failure(&mut self, message: String)
        requires
            old(self).failure is None,
        ensures
            final(self).failure matches Some(m) && m == message,
            final(self).cases == old(self).cases,
            final(self).next == old(self).next,
    {
        self.failure = Some(message);
    }

    /// Ends the run: every record when no navigation failed, else the
    /// failure message alone.
    pub fn finish(self) -> (res: Result<Vec<Case>, String>)
        ensures
            self.failure is None ==> res == Ok::<Vec<Case>, String>(self.cases),
            self.failure matches Some(m) ==> res == Err::<Vec<Case>, String>(m),
    {
        match self.failure {
            None => Ok(self.cases),
            Some(m) => Err(m),
        }
    }
}

} // verus!
